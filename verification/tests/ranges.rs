use rattler_package_streaming::chunk::{fetch_range, ChunkStep, PendingWrite};
use rattler_package_streaming::config::{ParallelDownloadConfig, MAX_CHUNK_SIZE};
use rattler_package_streaming::ranges::{byte_ranges, ByteRange};

const MIB: u64 = 1024 * 1024;

#[test]
fn default_config_is_eight_by_eight_by_eight() {
    let config = ParallelDownloadConfig::default();
    assert_eq!(config.min_size_for_parallel, 8 * MIB);
    assert_eq!(config.chunk_size, 8 * MIB);
    assert_eq!(config.concurrency, 8);
    assert!(config.is_valid());
}

#[test]
fn chunk_size_is_capped() {
    assert_eq!(MAX_CHUNK_SIZE, 256 * MIB);
    let mut config = ParallelDownloadConfig::default();
    config.chunk_size = MAX_CHUNK_SIZE;
    assert!(config.is_valid());
    config.chunk_size = MAX_CHUNK_SIZE + 1;
    assert!(!config.is_valid());
    config.chunk_size = 0;
    assert!(!config.is_valid());
}

#[test]
fn zero_concurrency_or_threshold_is_invalid() {
    let mut config = ParallelDownloadConfig::default();
    config.concurrency = 0;
    assert!(!config.is_valid());
    config.concurrency = 1;
    assert!(config.is_valid());
    config.min_size_for_parallel = 0;
    assert!(!config.is_valid());
    config.min_size_for_parallel = 1;
    assert!(config.is_valid());
}

#[test]
fn ranges_of_a_small_object() {
    let range = |start, end| ByteRange { start, end };
    assert_eq!(byte_ranges(10, 4), vec![range(0, 3), range(4, 7), range(8, 9)]);
    assert_eq!(byte_ranges(8, 4), vec![range(0, 3), range(4, 7)]);
    assert_eq!(byte_ranges(3, 4), vec![range(0, 2)]);
    assert_eq!(byte_ranges(4, 4), vec![range(0, 3)]);
    assert_eq!(byte_ranges(5, 1).len(), 5);
    assert_eq!(byte_ranges(0, 4), vec![]);
}

#[test]
fn ranges_at_the_end_of_the_offsets() {
    let chunk = 1u64 << 63;
    assert_eq!(
        byte_ranges(u64::MAX, chunk),
        vec![
            ByteRange { start: 0, end: chunk - 1 },
            ByteRange { start: chunk, end: u64::MAX - 1 },
        ]
    );
}

#[test]
fn typical_packages_split_into_few_chunks() {
    let chunk = ParallelDownloadConfig::default().chunk_size;
    assert_eq!(byte_ranges(12 * MIB, chunk).len(), 2);
    assert_eq!(byte_ranges(30 * MIB, chunk).len(), 4);
    assert_eq!(byte_ranges(38 * MIB, chunk).len(), 5);
    assert_eq!(byte_ranges(119 * MIB, chunk).len(), 15);
}

#[test]
fn every_offset_lies_in_one_range() {
    let ranges = byte_ranges(103, 10);
    for at in 0..103u64 {
        let holding = ranges.iter().filter(|r| r.start <= at && at <= r.end).count();
        assert_eq!(holding, 1);
    }
    for pair in ranges.windows(2) {
        assert_eq!(pair[0].end + 1, pair[1].start);
        assert_eq!(pair[0].end - pair[0].start + 1, 10);
    }
    assert_eq!(ranges[10], ByteRange { start: 100, end: 102 });
}

fn transferred(range: ByteRange, body: &[u8]) -> PendingWrite {
    let part = body[range.start as usize..=range.end as usize].to_vec();
    match fetch_range::<()>(range) {
        ChunkStep::SendRange(request) => match request.resume::<()>(Ok(206)) {
            ChunkStep::ReadBody(pending) => match pending.resume::<()>(Ok(part)) {
                ChunkStep::Write(write) => write,
                other => panic!("{:?}", other),
            },
            other => panic!("{:?}", other),
        },
        other => panic!("{:?}", other),
    }
}

#[test]
fn chunks_assemble_in_any_order() {
    let body: Vec<u8> = (0..50u8).map(|b| b.wrapping_mul(37)).collect();
    let ranges = byte_ranges(50, 8);
    for shift in 0..ranges.len() {
        let mut file = vec![0u8; 50];
        for k in 0..ranges.len() {
            let write = transferred(ranges[(k * 3 + shift) % ranges.len()], &body);
            let at = write.offset as usize;
            file[at..at + write.bytes.len()].copy_from_slice(&write.bytes);
        }
        assert_eq!(file, body);
    }
}
