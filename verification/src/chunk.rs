//! One range request of a parallel download: from the request to the bytes in
//! the file.
use reqwest::StatusCode;
use vstd::prelude::*;

use crate::error::ExtractError;
use crate::ranges::ByteRange;
use crate::text::{
    all_digits, decimal, law_decimal_reads_back, spelled_u64, u64_text, without_plus,
};

verus! {

/// The status of a response that holds the requested part of an object.
pub const PARTIAL_CONTENT: u16 = 206;

/// A number that can be the status code of a response.
pub open spec fn is_status_code(status: u16) -> bool {
    100 <= status <= 999
}

/// A status code as the `http` crate displays it: the number and its standard
/// reason phrase.
pub uninterp spec fn status_display(status: u16) -> Seq<char>;

/// Formats a `StatusCode` with its `Display`; the table of reason phrases behind
/// it is not spelled out.
#[verifier::external_body]
fn status_text(status: u16) -> (res: String)
    requires
        is_status_code(status),
    ensures
        res@ == status_display(status),
{
    format!("{}", StatusCode::from_u16(status).unwrap())
}

/// The value of the `Range` header that asks for a range.
pub open spec fn range_header(range: ByteRange) -> Seq<char> {
    "bytes="@ + decimal(range.start as nat) + "-"@ + decimal(range.end as nat)
}

/// The message about a response that does not hold the requested part.
pub open spec fn unexpected_status_message(status: Seq<char>) -> Seq<char> {
    "expected 206 Partial Content for range request, got "@ + status
}

/// Words the message about a response that does not hold the requested part,
/// given the status as text.
pub fn word_unexpected_status(status: &str) -> (res: String)
    ensures
        res@ == unexpected_status_message(status@),
{
    let mut res = "expected 206 Partial Content for range request, got ".to_owned();
    res.append(status);
    res
}

/// Step of the transfer of one range.  Each step but the last names work of the
/// application; its outcome is handed to the `resume` of what the step holds.
#[derive(Debug, PartialEq, Eq)]
pub enum ChunkStep<E> {
    /// Send a `GET` with the `Range` header of the request.
    SendRange(RangeRequest),
    /// Read the body of the response.
    ReadBody(PendingBody),
    /// Write bytes into the file.
    Write(PendingWrite),
    /// The transfer is over: the number of bytes written, or what failed.
    Finished(Result<u64, ExtractError<E>>),
}

/// A range that is to be requested.
#[derive(Debug, Clone, Copy, PartialEq, Eq, Structural)]
pub struct RangeRequest {
    pub range: ByteRange,
}

/// A response that holds the requested part, with its body still to be read.
#[derive(Debug, Clone, Copy, PartialEq, Eq, Structural)]
pub struct PendingBody {
    pub range: ByteRange,
}

/// Bytes that belong into the file from `offset` on.
#[derive(Debug, PartialEq, Eq)]
pub struct PendingWrite {
    pub offset: u64,
    pub bytes: Vec<u8>,
}

/// Begins the transfer of one range.
pub fn fetch_range<E>(range: ByteRange) -> (step: ChunkStep<E>)
    ensures
        step == ChunkStep::<E>::SendRange(RangeRequest { range }),
{
    ChunkStep::SendRange(RangeRequest { range })
}

impl RangeRequest {
    /// The value of the `Range` header of this request.
    pub fn header_value(&self) -> (res: String)
        ensures
            res@ == range_header(self.range),
    {
        let mut res = "bytes=".to_owned();
        res.append(u64_text(self.range.start).as_str());
        res.append("-");
        res.append(u64_text(self.range.end).as_str());
        res
    }

    /// What follows once the request was answered with a status, or failed.
    pub open spec fn leads_to<E>(self, outcome: Result<u16, E>, next: ChunkStep<E>) -> bool {
        match outcome {
            Err(e) => next == ChunkStep::<E>::Finished(Err(ExtractError::Outside(e))),
            Ok(status) => if status == PARTIAL_CONTENT {
                next == ChunkStep::<E>::ReadBody(PendingBody { range: self.range })
            } else {
                next matches ChunkStep::Finished(Err(ExtractError::UnexpectedStatus(message)))
                    && message@ == unexpected_status_message(status_display(status))
            },
        }
    }

    /// Takes the status of the response.  Anything but partial content, also a
    /// full body from a server that ignores ranges, ends the transfer with an
    /// error.
    pub fn resume<E>(self, outcome: Result<u16, E>) -> (next: ChunkStep<E>)
        requires
            outcome is Ok ==> is_status_code(outcome->Ok_0),
        ensures
            self.leads_to(outcome, next),
    {
        match outcome {
            Err(e) => ChunkStep::Finished(Err(ExtractError::Outside(e))),
            Ok(status) => if status != PARTIAL_CONTENT {
                let message = word_unexpected_status(status_text(status).as_str());
                ChunkStep::Finished(Err(ExtractError::UnexpectedStatus(message)))
            } else {
                ChunkStep::ReadBody(PendingBody { range: self.range })
            },
        }
    }
}

impl PendingBody {
    /// What follows once the body was read, or could not be.
    pub open spec fn after<E>(self, outcome: Result<Vec<u8>, E>) -> ChunkStep<E> {
        match outcome {
            Err(e) => ChunkStep::Finished(Err(ExtractError::Outside(e))),
            Ok(bytes) => ChunkStep::Write(PendingWrite { offset: self.range.start, bytes }),
        }
    }

    /// Takes the body of the response: it belongs where the range starts.
    pub fn resume<E>(self, outcome: Result<Vec<u8>, E>) -> (next: ChunkStep<E>)
        ensures
            next == self.after(outcome),
    {
        match outcome {
            Err(e) => ChunkStep::Finished(Err(ExtractError::Outside(e))),
            Ok(bytes) => ChunkStep::Write(PendingWrite { offset: self.range.start, bytes }),
        }
    }
}

impl PendingWrite {
    /// What follows once the bytes were written, or could not be.
    pub open spec fn after<E>(self, outcome: Result<(), E>) -> ChunkStep<E> {
        match outcome {
            Err(e) => ChunkStep::Finished(Err(ExtractError::Outside(e))),
            Ok(_) => ChunkStep::Finished(Ok(self.bytes@.len() as u64)),
        }
    }

    /// Takes the outcome of the write.
    pub fn resume<E>(self, outcome: Result<(), E>) -> (next: ChunkStep<E>)
        ensures
            next == self.after(outcome),
    {
        match outcome {
            Err(e) => ChunkStep::Finished(Err(ExtractError::Outside(e))),
            Ok(_) => ChunkStep::Finished(Ok(self.bytes.len() as u64)),
        }
    }
}

/// The transfer of a range, whatever comes back: it succeeds exactly if the
/// request is answered with partial content, the body can be read and the write
/// succeeds; what is then written is the body, at the start of the range, and
/// its length is returned.
pub proof fn law_transfer<E>(
    range: ByteRange,
    status: Result<u16, E>,
    body: Result<Vec<u8>, E>,
    write: Result<(), E>,
    answered: ChunkStep<E>,
    read: ChunkStep<E>,
    end: ChunkStep<E>,
)
    requires
        (RangeRequest { range }).leads_to(status, answered),
        match answered {
            ChunkStep::ReadBody(pending) => read == pending.after(body),
            _ => read == answered,
        },
        match read {
            ChunkStep::Write(pending) => end == pending.after(write),
            _ => end == read,
        },
    ensures
        end is Finished,
        end->Finished_0 is Ok <==> status == Ok::<u16, E>(PARTIAL_CONTENT) && body is Ok && write
            is Ok,
        end->Finished_0 is Ok ==> end->Finished_0->Ok_0 == body->Ok_0@.len() as u64,
        read is Write <==> status == Ok::<u16, E>(PARTIAL_CONTENT) && body is Ok,
        read is Write ==> read->Write_0 == (PendingWrite {
            offset: range.start,
            bytes: body->Ok_0,
        }),
{
}

/// A `Range` header says exactly which range is asked for: it names the unit and
/// then, in digits and parted by a hyphen, the first and the last byte.
pub proof fn law_range_header_reads_back(range: ByteRange)
    ensures
        exists|first: Seq<char>, last: Seq<char>|
            #![trigger all_digits(first), all_digits(last)]
            range_header(range) == "bytes="@ + first + "-"@ + last && all_digits(first)
                && all_digits(last) && spelled_u64(first) == Some(range.start) && spelled_u64(last)
                == Some(range.end),
{
    let first = decimal(range.start as nat);
    let last = decimal(range.end as nat);
    law_decimal_reads_back(range.start);
    law_decimal_reads_back(range.end);
    assert(without_plus(first) == first && without_plus(last) == last);
    assert(all_digits(first) && all_digits(last));
}

} // verus!
