//! Progress of a response body that is streamed, and how its failures are
//! classed.
use vstd::prelude::*;

verus! {

/// How much of a response body has been received.
#[derive(Debug, Clone, Copy, PartialEq, Eq, Structural)]
pub struct DownloadProgress {
    /// Bytes received so far.
    pub received: u64,
    /// Size of the body, if the server stated it.
    pub total: Option<u64>,
}

impl DownloadProgress {
    /// Progress at the start of a body.
    pub fn new(total: Option<u64>) -> (res: DownloadProgress)
        ensures
            res == (DownloadProgress { received: 0, total }),
    {
        DownloadProgress { received: 0, total }
    }

    /// Progress after one more frame of the body.
    pub open spec fn after(self, frame_len: int) -> DownloadProgress {
        DownloadProgress { received: (self.received + frame_len) as u64, total: self.total }
    }

    /// Takes note of one more frame, and returns what a reporter is told: the
    /// bytes received so far, and the size of the body.
    pub fn on_frame(&mut self, frame_len: usize) -> (report: (u64, Option<u64>))
        requires
            old(self).received + frame_len <= u64::MAX,
        ensures
            *final(self) == old(self).after(frame_len as int),
            final(self).received == old(self).received + frame_len,
            final(self).total == old(self).total,
            report == (final(self).received, final(self).total),
    {
        self.received = self.received + frame_len as u64;
        (self.received, self.total)
    }
}

/// Progress after a list of frames.
pub open spec fn after_frames(start: DownloadProgress, frames: Seq<usize>) -> DownloadProgress
    decreases frames.len(),
{
    if frames.len() == 0 {
        start
    } else {
        after_frames(start, frames.drop_last()).after(frames.last() as int)
    }
}

/// The bytes of a list of frames.
pub open spec fn frame_bytes(frames: Seq<usize>) -> nat
    decreases frames.len(),
{
    if frames.len() == 0 {
        0
    } else {
        frame_bytes(frames.drop_last()) + frames.last() as nat
    }
}

/// What is reported as received is the size of all frames up to then, so it
/// never goes back, and the stated size of the body stays the same.
pub proof fn law_progress_counts_frames(total: Option<u64>, frames: Seq<usize>)
    requires
        frame_bytes(frames) <= u64::MAX,
    ensures
        after_frames(DownloadProgress { received: 0, total }, frames) == (DownloadProgress {
            received: frame_bytes(frames) as u64,
            total,
        }),
    decreases frames.len(),
{
    if frames.len() > 0 {
        law_progress_counts_frames(total, frames.drop_last());
    }
}

/// Kind of the I/O error that a failing body stream turns into.
#[derive(Debug, Clone, Copy, PartialEq, Eq, Structural)]
pub enum StreamErrorKind {
    Interrupted,
    InvalidData,
    Other,
}

/// Classes a failure of a body stream: one of the body itself is an
/// interruption, one of its decoding is invalid data.
pub fn stream_error_kind(is_body: bool, is_decode: bool) -> (res: StreamErrorKind)
    ensures
        res is Interrupted <==> is_body,
        res is InvalidData <==> !is_body && is_decode,
        res is Other <==> !is_body && !is_decode,
{
    if is_body {
        StreamErrorKind::Interrupted
    } else if is_decode {
        StreamErrorKind::InvalidData
    } else {
        StreamErrorKind::Other
    }
}

} // verus!
