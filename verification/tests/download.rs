use rattler_package_streaming::chunk::{
    fetch_range, word_unexpected_status, ChunkStep, PendingBody, PendingWrite, RangeRequest,
};
use rattler_package_streaming::config::{ParallelDownloadConfig, MAX_CHUNK_SIZE};
use rattler_package_streaming::download::{parallel_download_to_temp, DownloadStep, PendingProbe};
use rattler_package_streaming::error::ExtractError;
use rattler_package_streaming::probe::{probe_object, size_from_texts};
use rattler_package_streaming::ranges::ByteRange;
use reqwest::header::{HeaderMap, HeaderValue, ACCEPT_RANGES, CONTENT_LENGTH};

fn headers(accept_ranges: &[&[u8]], content_length: &[&[u8]]) -> HeaderMap {
    let mut map = HeaderMap::new();
    for value in accept_ranges {
        map.append(ACCEPT_RANGES, HeaderValue::from_bytes(value).unwrap());
    }
    for value in content_length {
        map.append(CONTENT_LENGTH, HeaderValue::from_bytes(value).unwrap());
    }
    map
}

#[test]
fn probe_reads_size_of_a_server_with_ranges() {
    assert_eq!(probe_object(&headers(&[b"bytes"], &[b"12345"])), Some(12345));
    assert_eq!(probe_object(&headers(&[b"Bytes"], &[b"0"])), Some(0));
}

#[test]
fn probe_needs_both_headers() {
    assert_eq!(probe_object(&headers(&[], &[b"12345"])), None);
    assert_eq!(probe_object(&headers(&[b"bytes"], &[])), None);
    assert_eq!(probe_object(&HeaderMap::new()), None);
}

#[test]
fn probe_rejects_other_units_and_odd_values() {
    assert_eq!(probe_object(&headers(&[b"none"], &[b"12345"])), None);
    assert_eq!(probe_object(&headers(&[b"bytes, x"], &[b"12345"])), None);
    assert_eq!(probe_object(&headers(&[b"bytes"], &[b"12 345"])), None);
    assert_eq!(probe_object(&headers(&[b"bytes"], &[b"\xff"])), None);
    assert_eq!(probe_object(&headers(&[b"byte\xff"], &[b"1"])), None);
    assert_eq!(probe_object(&headers(&[b"bytes"], &[b""])), None);
}

#[test]
fn probe_takes_the_first_of_several_values() {
    assert_eq!(probe_object(&headers(&[b"bytes", b"none"], &[b"1", b"2"])), Some(1));
    assert_eq!(probe_object(&headers(&[b"none", b"bytes"], &[b"1"])), None);
}

#[test]
fn size_from_header_texts() {
    assert_eq!(size_from_texts(Some("bytes"), Some("77")), Some(77));
    assert_eq!(size_from_texts(Some("none"), Some("77")), None);
    assert_eq!(size_from_texts(None, Some("77")), None);
    assert_eq!(size_from_texts(Some("bytes"), None), None);
}

#[test]
fn invalid_config_sends_nothing() {
    let mut config = ParallelDownloadConfig::default();
    config.chunk_size = MAX_CHUNK_SIZE + 1;
    let step: DownloadStep<&str, &str> = parallel_download_to_temp(&config);
    assert_eq!(step, DownloadStep::Finished(Ok(None)));
}

fn small() -> ParallelDownloadConfig {
    ParallelDownloadConfig { min_size_for_parallel: 10, chunk_size: 4, concurrency: 2 }
}

fn probe_of(config: &ParallelDownloadConfig) -> PendingProbe {
    match parallel_download_to_temp::<&str, &str>(config) {
        DownloadStep::Probe(pending) => pending,
        other => panic!("{:?}", other),
    }
}

#[test]
fn small_object_falls_back() {
    let probe = probe_of(&small());
    let step: DownloadStep<&str, &str> = probe.resume(Ok(&headers(&[b"bytes"], &[b"9"])));
    assert_eq!(step, DownloadStep::Finished(Ok(None)));
    let step: DownloadStep<&str, &str> = probe.resume_with_size(None);
    assert_eq!(step, DownloadStep::Finished(Ok(None)));
}

#[test]
fn failed_probe_is_an_error() {
    let step: DownloadStep<&str, &str> = probe_of(&small()).resume(Err("no route"));
    assert_eq!(step, DownloadStep::Finished(Err(ExtractError::Outside("no route"))));
}

/// What a run of the transfers did: the ranges it started, the largest number of
/// transfers that were unfinished at a time, and how it ended.
struct Run {
    started: Vec<ByteRange>,
    most_running: usize,
    end: Result<Option<&'static str>, ExtractError<&'static str>>,
}

fn run_transfers(
    config: &ParallelDownloadConfig,
    total: u64,
    results: Vec<Result<u64, ExtractError<&'static str>>>,
) -> Run {
    let mut results = results.into_iter();
    let mut run = Run { started: vec![], most_running: 0, end: Ok(None) };
    let mut running = 0;
    let mut step: DownloadStep<&str, &str> = probe_of(config).resume_with_size(Some(total));
    loop {
        step = match step {
            DownloadStep::CreateTemp(pending) => {
                assert_eq!(pending.total(), total);
                pending.resume(Ok("tmp"))
            }
            DownloadStep::StartTransfer(range, pending) => {
                assert_eq!(*pending.temp(), "tmp");
                run.started.push(range);
                running += 1;
                run.most_running = run.most_running.max(running);
                pending.resume()
            }
            DownloadStep::AwaitTransfer(pending) => {
                assert!(running > 0);
                running -= 1;
                pending.resume(results.next().unwrap())
            }
            DownloadStep::Finished(end) => {
                assert_eq!(running, 0);
                assert!(results.next().is_none());
                run.end = end;
                return run;
            }
            other => panic!("{:?}", other),
        };
    }
}

#[test]
fn object_at_the_threshold_is_split() {
    let step: DownloadStep<&str, &str> =
        probe_of(&small()).resume(Ok(&headers(&[b"bytes"], &[b"10"])));
    assert!(matches!(step, DownloadStep::CreateTemp(_)));
    let run = run_transfers(&small(), 10, vec![Ok(4), Ok(2), Ok(4)]);
    assert_eq!(
        run.started,
        vec![
            ByteRange { start: 0, end: 3 },
            ByteRange { start: 4, end: 7 },
            ByteRange { start: 8, end: 9 },
        ]
    );
    assert_eq!(run.most_running, 2);
    assert_eq!(run.end, Ok(Some("tmp")));
}

#[test]
fn transfers_are_started_as_others_end() {
    let mut config = small();
    for concurrency in 1..9usize {
        config.concurrency = concurrency;
        let run = run_transfers(&config, 26, (0..7).map(|_| Ok(4)).collect());
        assert_eq!(run.started.len(), 7);
        assert_eq!(run.started[6], ByteRange { start: 24, end: 25 });
        assert_eq!(run.most_running, concurrency.min(7));
        assert_eq!(run.end, Ok(Some("tmp")));
    }
}

#[test]
fn failed_temp_file_is_an_error() {
    let step: DownloadStep<&str, &str> = probe_of(&small()).resume_with_size(Some(11));
    match step {
        DownloadStep::CreateTemp(pending) => assert_eq!(
            pending.resume::<&str, &str>(Err("disk full")),
            DownloadStep::Finished(Err(ExtractError::Outside("disk full")))
        ),
        other => panic!("{:?}", other),
    }
}

#[test]
fn first_failed_transfer_is_the_failure() {
    let run = run_transfers(
        &small(),
        13,
        vec![
            Ok(4),
            Err(ExtractError::Outside("second")),
            Ok(4),
            Err(ExtractError::Outside("fourth")),
        ],
    );
    assert_eq!(run.started.len(), 4);
    assert_eq!(run.end, Err(ExtractError::Outside("second")));
}

#[test]
fn range_header_names_both_ends() {
    let request = RangeRequest { range: ByteRange { start: 8388608, end: 16777215 } };
    assert_eq!(request.header_value(), "bytes=8388608-16777215");
    let request = RangeRequest { range: ByteRange { start: 0, end: 0 } };
    assert_eq!(request.header_value(), "bytes=0-0");
}

#[test]
fn transfer_writes_the_body_at_its_offset() {
    let range = ByteRange { start: 4, end: 7 };
    let step = fetch_range::<&str>(range);
    assert_eq!(step, ChunkStep::SendRange(RangeRequest { range }));
    let step = RangeRequest { range }.resume::<&str>(Ok(206));
    assert_eq!(step, ChunkStep::ReadBody(PendingBody { range }));
    let step = PendingBody { range }.resume::<&str>(Ok(vec![1, 2, 3, 4]));
    assert_eq!(step, ChunkStep::Write(PendingWrite { offset: 4, bytes: vec![1, 2, 3, 4] }));
    let write = PendingWrite { offset: 4, bytes: vec![1, 2, 3, 4] };
    assert_eq!(write.resume::<&str>(Ok(())), ChunkStep::Finished(Ok(4)));
}

#[test]
fn transfer_passes_failures_on() {
    let range = ByteRange { start: 4, end: 7 };
    let failed = ChunkStep::Finished(Err(ExtractError::Outside("reset")));
    assert_eq!(RangeRequest { range }.resume(Err("reset")), failed);
    assert_eq!(PendingBody { range }.resume(Err("reset")), failed);
    let write = PendingWrite { offset: 4, bytes: vec![] };
    assert_eq!(write.resume(Err("reset")), failed);
}

#[test]
fn server_that_ignores_ranges_is_an_error() {
    let request = RangeRequest { range: ByteRange { start: 0, end: 3 } };
    assert_eq!(
        request.resume::<&str>(Ok(200)),
        ChunkStep::Finished(Err(ExtractError::UnexpectedStatus(
            "expected 206 Partial Content for range request, got 200 OK".to_string()
        )))
    );
    assert_eq!(
        request.resume::<&str>(Ok(416)),
        ChunkStep::Finished(Err(ExtractError::UnexpectedStatus(
            "expected 206 Partial Content for range request, got 416 Range Not Satisfiable"
                .to_string()
        )))
    );
    assert_eq!(
        request.resume::<&str>(Ok(999)),
        ChunkStep::Finished(Err(ExtractError::UnexpectedStatus(
            "expected 206 Partial Content for range request, got 999 <unknown status code>"
                .to_string()
        )))
    );
}

#[test]
fn status_message_wording() {
    assert_eq!(
        word_unexpected_status("404 Not Found"),
        "expected 206 Partial Content for range request, got 404 Not Found"
    );
}

#[test]
fn transfers_stay_within_the_bounds() {
    let mut config = ParallelDownloadConfig::default();
    config.chunk_size = MAX_CHUNK_SIZE;
    config.concurrency = 3;
    let run = run_transfers(&config, 4 * MAX_CHUNK_SIZE + 1, vec![Ok(0), Ok(0), Ok(0), Ok(0), Ok(0)]);
    assert_eq!(run.started.len(), 5);
    assert_eq!(run.most_running, 3);
    assert!(run.started.iter().all(|r| r.end - r.start < MAX_CHUNK_SIZE));
}
