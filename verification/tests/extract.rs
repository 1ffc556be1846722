use rattler_package_streaming::config::ParallelDownloadConfig;
use rattler_package_streaming::error::ExtractError;
use rattler_package_streaming::extract::{
    extract, extract_by_path, extract_conda, extract_conda_with_config, extract_tar_bz2,
    extract_tar_bz2_with_config, extract_with_config, ArchiveExtractor, ExtractFailure,
    ExtractionStep, PendingReader, DATA_DESCRIPTOR_ERROR_MESSAGE,
};
use rattler_package_streaming::reader::{get_reader, get_reader_with_config};
use url::Url;

type Step = ExtractionStep<&'static str, &'static str, &'static str>;

const CONDA: &str =
    "https://conda.anaconda.org/conda-forge/linux-64/python-3.10.8-h4a9ceb5_0_cpython.conda";
const TAR_BZ2: &str =
    "https://conda.anaconda.org/conda-forge/win-64/python-3.11.0-hcf16a7b_0_cpython.tar.bz2";

fn parse(text: &str) -> Url {
    Url::parse(text).unwrap()
}

fn failure(message: Option<&str>) -> ExtractFailure<&'static str> {
    ExtractFailure { unsupported_archive: message.map(|m| m.to_string()), error: "zip" }
}

fn needs_buffer() -> ExtractFailure<&'static str> {
    failure(Some(DATA_DESCRIPTOR_ERROR_MESSAGE))
}

/// Runs an extraction on given outcomes and lists what was done.
fn run(
    first: Step,
    readers: Vec<Result<&'static str, ExtractError<&'static str>>>,
    unpacked: Vec<Result<&'static str, ExtractFailure<&'static str>>>,
) -> (Vec<String>, Result<&'static str, ExtractError<&'static str>>) {
    let mut readers = readers.into_iter();
    let mut unpacked = unpacked.into_iter();
    let mut log = Vec::new();
    let mut step = first;
    loop {
        step = match step {
            ExtractionStep::GetReader(pending) => {
                log.push("open".to_string());
                pending.resume(readers.next().unwrap())
            }
            ExtractionStep::Extract(pending, reader) => {
                log.push(format!("{:?} {}", pending.extractor, reader));
                pending.resume(unpacked.next().unwrap())
            }
            ExtractionStep::FallBack(pending) => {
                log.push("fall back".to_string());
                pending.resume()
            }
            ExtractionStep::ReportComplete(pending) => {
                log.push("complete".to_string());
                pending.resume()
            }
            ExtractionStep::Finished(result) => return (log, result),
        };
    }
}

#[test]
fn type_is_read_off_the_url() {
    let request = get_reader(&parse(CONDA), None, false);
    let step: Step = extract(&parse(CONDA), None, false);
    assert_eq!(
        step,
        ExtractionStep::GetReader(PendingReader { request, extractor: ArchiveExtractor::Conda })
    );
    let step: Step = extract(&parse(TAR_BZ2), None, false);
    assert_eq!(
        step,
        ExtractionStep::GetReader(PendingReader { request, extractor: ArchiveExtractor::TarBz2 })
    );
}

#[test]
fn query_and_fragment_do_not_count() {
    let url = parse("https://host/channel/a-1.conda?token=x.tar.bz2#b.zip");
    let step: Step = extract(&url, None, true);
    let request = get_reader(&url, None, true);
    assert_eq!(
        step,
        ExtractionStep::GetReader(PendingReader { request, extractor: ArchiveExtractor::Conda })
    );
}

#[test]
fn path_is_that_of_the_url_not_of_its_text() {
    let mut url = parse("mailto:x");
    url.set_path("a?b.conda");
    let step: Step = extract(&url, None, false);
    assert!(matches!(step, ExtractionStep::GetReader(_)));
    let reparsed = parse(url.as_str());
    let step: Step = extract(&reparsed, None, false);
    assert_eq!(step, ExtractionStep::Finished(Err(ExtractError::UnsupportedArchiveType)));
}

#[test]
fn unknown_ending_is_unsupported() {
    let unsupported: Step = ExtractionStep::Finished(Err(ExtractError::UnsupportedArchiveType));
    let url = parse("https://host/a.zip?x=.conda");
    let step: Step = extract(&url, None, true);
    assert_eq!(step, unsupported);
    let step: Step = extract_with_config(&url, None, true, &ParallelDownloadConfig::default());
    assert_eq!(step, unsupported);
    let step: Step = extract_by_path("/a.zip", get_reader(&url, None, true));
    assert_eq!(step, unsupported);
}

#[test]
fn config_and_digest_reach_the_reader() {
    let url = parse(CONDA);
    let config = ParallelDownloadConfig::default();
    let request = get_reader_with_config(&url, Some([3; 32]), true, &config);
    assert_eq!(request.config, Some(config));
    assert_eq!(request.expected_sha256, Some([3; 32]));
    let tar = ExtractionStep::GetReader(PendingReader {
        request,
        extractor: ArchiveExtractor::TarBz2,
    });
    let conda =
        ExtractionStep::GetReader(PendingReader { request, extractor: ArchiveExtractor::Conda });
    let step: Step = extract_tar_bz2_with_config(&url, Some([3; 32]), true, &config);
    assert_eq!(step, tar);
    let step: Step = extract_conda_with_config(&url, Some([3; 32]), true, &config);
    assert_eq!(step, conda);
    let step: Step = extract_with_config(&url, Some([3; 32]), true, &config);
    assert_eq!(step, conda);
}

#[test]
fn success_is_reported_once() {
    let (log, result) = run(
        extract_conda(&parse(CONDA), None, true),
        vec![Ok("stream")],
        vec![Ok("files")],
    );
    assert_eq!(log, vec!["open", "Conda stream", "complete"]);
    assert_eq!(result, Ok("files"));
}

#[test]
fn nothing_is_reported_without_a_reporter() {
    let (log, result) = run(
        extract_tar_bz2(&parse(TAR_BZ2), None, false),
        vec![Ok("stream")],
        vec![Ok("files")],
    );
    assert_eq!(log, vec!["open", "TarBz2 stream"]);
    assert_eq!(result, Ok("files"));
}

#[test]
fn data_descriptors_cause_a_buffered_retry() {
    let (log, result) = run(
        extract_conda(&parse(CONDA), None, true),
        vec![Ok("stream"), Ok("again")],
        vec![Err(needs_buffer()), Ok("files")],
    );
    assert_eq!(
        log,
        vec![
            "open",
            "Conda stream",
            "fall back",
            "complete",
            "open",
            "CondaViaBuffering again",
            "complete"
        ]
    );
    assert_eq!(result, Ok("files"));
}

#[test]
fn retry_without_a_reporter() {
    let (log, result) = run(
        extract_conda(&parse(CONDA), None, false),
        vec![Ok("stream"), Ok("again")],
        vec![Err(needs_buffer()), Ok("files")],
    );
    assert_eq!(
        log,
        vec!["open", "Conda stream", "fall back", "open", "CondaViaBuffering again"]
    );
    assert_eq!(result, Ok("files"));
}

#[test]
fn retry_happens_once_only() {
    let (log, result) = run(
        extract_conda(&parse(CONDA), None, true),
        vec![Ok("stream"), Ok("again")],
        vec![Err(needs_buffer()), Err(needs_buffer())],
    );
    assert_eq!(
        log,
        vec!["open", "Conda stream", "fall back", "complete", "open", "CondaViaBuffering again"]
    );
    assert_eq!(result, Err(ExtractError::Outside("zip")));
}

#[test]
fn retry_keeps_the_request() {
    let url = parse(CONDA);
    let config = ParallelDownloadConfig::default();
    let request = get_reader_with_config(&url, Some([9; 32]), false, &config);
    let first: Step = extract_conda_with_config(&url, Some([9; 32]), false, &config);
    let again = match first {
        ExtractionStep::GetReader(pending) => match pending.resume::<_, &str, &str>(Ok("stream")) {
            ExtractionStep::Extract(pending, _) => {
                match pending.resume::<&str, &str, &str>(Err(needs_buffer())) {
                    ExtractionStep::FallBack(pending) => pending.resume(),
                    other => panic!("{:?}", other),
                }
            }
            other => panic!("{:?}", other),
        },
        other => panic!("{:?}", other),
    };
    let expected: Step = ExtractionStep::GetReader(PendingReader {
        request,
        extractor: ArchiveExtractor::CondaViaBuffering,
    });
    assert_eq!(again, expected);
}

#[test]
fn tar_archives_are_never_retried() {
    let (log, result) = run(
        extract_tar_bz2(&parse(TAR_BZ2), None, true),
        vec![Ok("stream")],
        vec![Err(needs_buffer())],
    );
    assert_eq!(log, vec!["open", "TarBz2 stream"]);
    assert_eq!(result, Err(ExtractError::Outside("zip")));
}

#[test]
fn other_failures_end_the_extraction() {
    for message in [None, Some("Compression method not supported"), Some("")] {
        let (log, result) = run(
            extract_conda(&parse(CONDA), None, true),
            vec![Ok("stream")],
            vec![Err(failure(message))],
        );
        assert_eq!(log, vec!["open", "Conda stream"]);
        assert_eq!(result, Err(ExtractError::Outside("zip")));
    }
}

#[test]
fn failed_reader_ends_the_extraction() {
    let (log, result) = run(
        extract_conda(&parse(CONDA), None, true),
        vec![Err(ExtractError::Outside("404"))],
        vec![],
    );
    assert_eq!(log, vec!["open"]);
    assert_eq!(result, Err(ExtractError::Outside("404")));
    let (log, result) = run(
        extract_conda(&parse(CONDA), None, true),
        vec![Ok("stream"), Err(ExtractError::Outside("404"))],
        vec![Err(needs_buffer())],
    );
    assert_eq!(log, vec!["open", "Conda stream", "fall back", "complete", "open"]);
    assert_eq!(result, Err(ExtractError::Outside("404")));
}

#[test]
fn message_may_stand_inside_a_longer_one() {
    assert_eq!(
        DATA_DESCRIPTOR_ERROR_MESSAGE,
        "The file length is not available in the local header"
    );
    let longer = format!("unsupported: {}.", DATA_DESCRIPTOR_ERROR_MESSAGE);
    assert!(failure(Some(&longer)).needs_buffering());
    assert!(needs_buffer().needs_buffering());
    assert!(!failure(Some("The file length is not available")).needs_buffering());
    assert!(!failure(None).needs_buffering());
}
