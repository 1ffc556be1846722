use rattler_package_streaming::chunk::{ChunkStep, RangeRequest};
use rattler_package_streaming::config::ParallelDownloadConfig;
use rattler_package_streaming::download::{DownloadStep, PendingProbe};
use rattler_package_streaming::error::ExtractError;
use rattler_package_streaming::location::{is_file_url, local_file};
use rattler_package_streaming::progress::{stream_error_kind, DownloadProgress, StreamErrorKind};
use rattler_package_streaming::ranges::ByteRange;
use rattler_package_streaming::reader::{
    get_reader, get_reader_with_config, PendingFile, PendingGet, PendingLocation, PendingParallel,
    PendingTempFile, ReaderRequest, ReaderSource, ReaderStep, EXPECTED_SHA256_HEADER,
};
use std::path::PathBuf;
use url::Url;

const REMOTE: &str = "https://conda.anaconda.org/conda-forge/linux-64/icu-75.1-he02047a_0.conda";

fn remote() -> Url {
    Url::parse(REMOTE).unwrap()
}

fn config() -> ParallelDownloadConfig {
    ParallelDownloadConfig::default()
}

fn begin(request: &ReaderRequest) -> ReaderStep<&'static str, &'static str> {
    request.begin()
}

#[test]
fn file_urls_are_recognized() {
    for (text, expected) in [
        ("file:///tmp/a.conda", true),
        ("FILE:///tmp/a.conda", true),
        ("files://host/a.conda", false),
        ("http://file/a.conda", false),
        ("https://host/file:/a.conda", false),
        ("data:file", false),
    ] {
        assert_eq!(is_file_url(&Url::parse(text).unwrap()), expected, "{}", text);
    }
}

#[test]
fn local_file_is_opened() {
    let url = Url::parse("file:///tmp/a.conda").unwrap();
    for request in [
        get_reader(&url, None, false),
        get_reader_with_config(&url, None, false, &config()),
        get_reader(&url, Some([7; 32]), false),
    ] {
        let pending = match begin(&request) {
            ReaderStep::LocateFile(pending) => pending,
            other => panic!("{:?}", other),
        };
        assert_eq!(
            pending.resume::<&str, &str>(&url),
            ReaderStep::OpenFile(PendingFile { path: PathBuf::from("/tmp/a.conda") })
        );
    }
    let file = || PendingFile { path: PathBuf::from("/tmp/a.conda") };
    assert_eq!(
        file().resume::<&str, &str>(Ok(())),
        ReaderStep::Finished(Ok(ReaderSource::LocalFile))
    );
    assert_eq!(
        file().resume::<&str, &str>(Err("missing")),
        ReaderStep::Finished(Err(ExtractError::Outside("missing")))
    );
}

#[test]
fn file_url_with_a_foreign_host_has_no_path() {
    let url = Url::parse("file://example.com/pkg.conda").unwrap();
    assert_eq!(local_file(&url), None);
    assert_eq!(
        PendingLocation {}.resume::<&str, &str>(&url),
        ReaderStep::NoFilePath
    );
}

#[test]
fn only_file_urls_have_local_files() {
    let url = Url::parse("file:///tmp/a%20b.conda").unwrap();
    assert_eq!(local_file(&url), Some(PathBuf::from("/tmp/a b.conda")));
    assert_eq!(local_file(&remote()), None);
    assert_eq!(local_file(&Url::parse("foo:/tmp/a.conda").unwrap()), None);
}

#[test]
fn found_path_is_the_one_that_is_opened() {
    let path = PathBuf::from("/srv/b.conda");
    assert_eq!(
        PendingLocation {}.resume_with_path::<&str, &str>(Some(path.clone())),
        ReaderStep::OpenFile(PendingFile { path })
    );
    assert_eq!(
        PendingLocation {}.resume_with_path::<&str, &str>(None),
        ReaderStep::NoFilePath
    );
}

#[test]
fn without_config_a_single_request_is_sent() {
    assert_eq!(
        begin(&get_reader(&remote(), None, false)),
        ReaderStep::SendGet(PendingGet { expected_sha256: None })
    );
}

#[test]
fn with_config_the_parallel_path_is_tried() {
    assert_eq!(
        begin(&get_reader_with_config(&remote(), None, false, &config())),
        ReaderStep::ParallelDownload(PendingParallel { config: config() })
    );
}

#[test]
fn expected_digest_rules_out_the_parallel_path() {
    let request = get_reader_with_config(&remote(), Some([0xab; 32]), false, &config());
    let get = match begin(&request) {
        ReaderStep::SendGet(pending) => pending,
        other => panic!("{:?}", other),
    };
    assert_eq!(EXPECTED_SHA256_HEADER, "X-Expected-Sha256");
    assert_eq!(get.header_value(), Some("ab".repeat(32)));
}

#[test]
fn digest_header_is_lower_case_hex() {
    let mut digest = [0u8; 32];
    digest[0] = 0x0f;
    digest[31] = 0xc0;
    let get = PendingGet { expected_sha256: Some(digest) };
    assert_eq!(get.header_value(), Some(format!("0f{}c0", "00".repeat(30))));
    assert_eq!(PendingGet { expected_sha256: None }.header_value(), None);
}

#[test]
fn start_is_reported_before_anything_else() {
    let request = get_reader(&remote(), None, true);
    match begin(&request) {
        ReaderStep::ReportStart(pending) => assert_eq!(
            pending.resume::<&str, &str>(),
            ReaderStep::SendGet(PendingGet { expected_sha256: None })
        ),
        other => panic!("{:?}", other),
    }
}

#[test]
fn parallel_file_is_read_if_it_opens() {
    let parallel = PendingParallel { config: config() };
    let step = parallel.resume::<&str, &str>(Ok(Some("tmp")));
    assert_eq!(step, ReaderStep::OpenTemp(PendingTempFile { temp: "tmp" }));
    assert_eq!(
        PendingTempFile { temp: "tmp" }.resume::<&str>(Ok(())),
        ReaderStep::Finished(Ok(ReaderSource::TempFile("tmp")))
    );
    assert_eq!(
        PendingTempFile { temp: "tmp" }.resume::<&str>(Err("gone")),
        begin(&get_reader(&remote(), None, false))
    );
}

#[test]
fn failed_parallel_download_falls_back_to_single() {
    let parallel = PendingParallel { config: config() };
    let single = begin(&get_reader(&remote(), None, false));
    assert_eq!(parallel.resume(Ok(None)), single);
    assert_eq!(parallel.resume(Err(ExtractError::Outside("reset"))), single);
    assert_eq!(parallel.resume(Err(ExtractError::UnexpectedStatus("200".to_string()))), single);
}

#[test]
fn response_is_streamed_with_progress() {
    let get = PendingGet { expected_sha256: None };
    let mut progress = match get.resume::<&str, &str>(Ok(Some(30))) {
        ReaderStep::Finished(Ok(ReaderSource::Response(progress))) => progress,
        other => panic!("{:?}", other),
    };
    assert_eq!(progress, DownloadProgress::new(Some(30)));
    assert_eq!(progress.on_frame(10), (10, Some(30)));
    assert_eq!(progress.on_frame(0), (10, Some(30)));
    assert_eq!(progress.on_frame(20), (30, Some(30)));
    assert_eq!(progress, DownloadProgress { received: 30, total: Some(30) });
}

#[test]
fn failed_request_is_an_error() {
    let get = PendingGet { expected_sha256: None };
    assert_eq!(
        get.resume::<&str, &str>(Err("404")),
        ReaderStep::Finished(Err(ExtractError::Outside("404")))
    );
}

#[test]
fn stream_errors_are_classed() {
    assert_eq!(stream_error_kind(true, false), StreamErrorKind::Interrupted);
    assert_eq!(stream_error_kind(true, true), StreamErrorKind::Interrupted);
    assert_eq!(stream_error_kind(false, true), StreamErrorKind::InvalidData);
    assert_eq!(stream_error_kind(false, false), StreamErrorKind::Other);
}

#[test]
fn server_that_ignores_ranges_is_asked_once_more() {
    let config = ParallelDownloadConfig { min_size_for_parallel: 1, chunk_size: 4, concurrency: 1 };
    let range = ByteRange { start: 0, end: 3 };
    let failed = match (RangeRequest { range }).resume::<&str>(Ok(200)) {
        ChunkStep::Finished(result) => result,
        other => panic!("{:?}", other),
    };
    let step: DownloadStep<&str, &str> = PendingProbe { config }.resume_with_size(Some(4));
    let step = match step {
        DownloadStep::CreateTemp(pending) => pending.resume(Ok("tmp")),
        other => panic!("{:?}", other),
    };
    let step = match step {
        DownloadStep::StartTransfer(started, pending) => {
            assert_eq!(started, range);
            pending.resume()
        }
        other => panic!("{:?}", other),
    };
    let step = match step {
        DownloadStep::AwaitTransfer(pending) => pending.resume(failed),
        other => panic!("{:?}", other),
    };
    let outcome = match step {
        DownloadStep::Finished(result) => result,
        other => panic!("{:?}", other),
    };
    assert!(matches!(outcome, Err(ExtractError::UnexpectedStatus(_))));
    assert_eq!(
        PendingParallel { config }.resume(outcome),
        begin(&get_reader(&remote(), None, false))
    );
}
