//! Configuration of parallel range downloads.
use vstd::prelude::*;

verus! {

/// Hard upper bound on `chunk_size`: 256 MiB.
///
/// The body of a range response is buffered whole, so a huge chunk size would
/// cost that much memory per concurrent request.  A configuration above the
/// bound never engages the parallel path.
pub const MAX_CHUNK_SIZE: u64 = 256 * 1024 * 1024;

/// Configuration for opt-in parallel range downloads.
#[derive(Debug, Clone, Copy, PartialEq, Eq, Structural)]
pub struct ParallelDownloadConfig {
    /// Object size (bytes) from which on parallel range requests are used.
    /// Below it, a single request fetches the whole object.
    pub min_size_for_parallel: u64,
    /// Bytes per range request.  Must be > 0 and <= [`MAX_CHUNK_SIZE`].
    pub chunk_size: u64,
    /// Maximum concurrent range requests per object.  Must be > 0.
    pub concurrency: usize,
}

impl ParallelDownloadConfig {
    /// A configuration that splits downloads: nothing in it is zero, and a
    /// chunk fits the memory bound.
    pub open spec fn valid(self) -> bool {
        &&& 0 < self.chunk_size <= MAX_CHUNK_SIZE
        &&& self.concurrency > 0
        &&& self.min_size_for_parallel > 0
    }

    /// Whether the parallel path is taken for an object of which the server
    /// stated the size `total` (`None`: no size, or no byte ranges offered).
    pub open spec fn engages(self, total: Option<u64>) -> bool {
        self.valid() && total is Some && total->0 >= self.min_size_for_parallel
    }

    /// Returns `true` when the configuration is internally valid and would
    /// actually split downloads.
    pub fn is_valid(&self) -> (res: bool)
        ensures
            res == self.valid(),
    {
        self.chunk_size > 0 && self.chunk_size <= MAX_CHUNK_SIZE && self.concurrency > 0
            && self.min_size_for_parallel > 0
    }
}

impl Default for ParallelDownloadConfig {
    /// 8 MiB threshold, 8 MiB chunks, eight requests at a time.
    fn default() -> (res: Self)
        ensures
            res.min_size_for_parallel == 8 * 1024 * 1024,
            res.chunk_size == 8 * 1024 * 1024,
            res.concurrency == 8,
            res.valid(),
    {
        ParallelDownloadConfig {
            min_size_for_parallel: 8 * 1024 * 1024,
            chunk_size: 8 * 1024 * 1024,
            concurrency: 8,
        }
    }
}

} // verus!
