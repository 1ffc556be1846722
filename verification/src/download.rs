//! The parallel download of one object into a temporary file.
use reqwest::header::HeaderMap;
use vstd::prelude::*;

use crate::assembly::{after_writes, blank, law_chunks_assemble, writes_part};
use crate::chunk::PendingWrite;
use crate::config::{ParallelDownloadConfig, MAX_CHUNK_SIZE};
use crate::error::ExtractError;
use crate::probe::{header_text, probe_object, stated_size};
use crate::ranges::{
    byte_ranges, chunk_ranges, law_range_sizes, law_ranges_contiguous, ByteRange,
};

verus! {

/// Step of a parallel download.  Each step but the last names work of the
/// application; its outcome is handed to the `resume` of what the step holds.
/// `T` is the application's temporary file, `E` what its work fails with.
#[derive(Debug, PartialEq, Eq)]
pub enum DownloadStep<T, E> {
    /// Send a `HEAD` request for the object.
    Probe(PendingProbe),
    /// Create a temporary file and give it the size of the object.
    CreateTemp(PendingTemp),
    /// Start the transfer of a range, without waiting for its end.
    StartTransfer(ByteRange, PendingStart<T, E>),
    /// Wait until one of the running transfers ends.
    AwaitTransfer(PendingEnd<T, E>),
    /// The download is over: the file that holds the object, `None` if the
    /// object is to be fetched with a single request, or what failed.
    Finished(Result<Option<T>, ExtractError<E>>),
}

/// A `HEAD` request that is to be sent.
#[derive(Debug, Clone, Copy, PartialEq, Eq, Structural)]
pub struct PendingProbe {
    pub config: ParallelDownloadConfig,
}

/// A temporary file that is to be created.
#[derive(Debug, PartialEq, Eq)]
pub struct PendingTemp {
    total: u64,
    ranges: Vec<ByteRange>,
    concurrency: usize,
}

/// The ranges of a download on their way into the file.
#[derive(Debug, PartialEq, Eq)]
struct Transfers<T, E> {
    temp: T,
    ranges: Vec<ByteRange>,
    concurrency: usize,
    /// So many ranges, from the first on, have been started.
    started: usize,
    /// How the transfers that have ended went, in the order in which they ended.
    results: Vec<Result<u64, ExtractError<E>>>,
}

/// A transfer is to be started.
#[derive(Debug, PartialEq, Eq)]
pub struct PendingStart<T, E> {
    transfers: Transfers<T, E>,
}

/// A running transfer is to be waited for.
#[derive(Debug, PartialEq, Eq)]
pub struct PendingEnd<T, E> {
    transfers: Transfers<T, E>,
}

/// Begins a download.  An invalid configuration costs nothing on the network:
/// the download is over before anything was sent.
pub fn parallel_download_to_temp<T, E>(config: &ParallelDownloadConfig) -> (step: DownloadStep<
    T,
    E,
>)
    ensures
        step == begun::<T, E>(*config),
{
    if !config.is_valid() {
        return DownloadStep::Finished(Ok(None));
    }
    DownloadStep::Probe(PendingProbe { config: *config })
}

/// The first step of a download.
pub open spec fn begun<T, E>(config: ParallelDownloadConfig) -> DownloadStep<T, E> {
    if config.valid() {
        DownloadStep::Probe(PendingProbe { config })
    } else {
        DownloadStep::Finished(Ok(None))
    }
}

impl PendingProbe {
    /// What follows once the size of the object is known, or is known not to be
    /// stated: the split into chunks where the configuration engages, and
    /// otherwise the end without a file.
    pub open spec fn sized<T, E>(self, total: Option<u64>, next: DownloadStep<T, E>) -> bool {
        if self.config.engages(total) {
            &&& next is CreateTemp
            &&& next->CreateTemp_0.spec_total() == total->0
            &&& next->CreateTemp_0.spec_ranges() == chunk_ranges(
                total->0 as int,
                self.config.chunk_size as int,
            )
            &&& next->CreateTemp_0.spec_concurrency() == self.config.concurrency
        } else {
            next == DownloadStep::<T, E>::Finished(Ok(None))
        }
    }

    /// What follows once the `HEAD` request was answered, or failed.
    pub open spec fn leads_to<T, E>(
        self,
        outcome: Result<&HeaderMap, E>,
        next: DownloadStep<T, E>,
    ) -> bool {
        match outcome {
            Err(e) => next == DownloadStep::<T, E>::Finished(Err(ExtractError::Outside(e))),
            Ok(headers) => self.sized(
                stated_size(
                    header_text(*headers, "accept-ranges"@),
                    header_text(*headers, "content-length"@),
                ),
                next,
            ),
        }
    }

    /// Takes the size of the object.
    pub fn resume_with_size<T, E>(self, total: Option<u64>) -> (next: DownloadStep<T, E>)
        ensures
            self.sized(total, next),
    {
        match total {
            Some(total) => if self.config.is_valid() && total
                >= self.config.min_size_for_parallel {
                DownloadStep::CreateTemp(
                    PendingTemp {
                        total,
                        ranges: byte_ranges(total, self.config.chunk_size),
                        concurrency: self.config.concurrency,
                    },
                )
            } else {
                DownloadStep::Finished(Ok(None))
            },
            None => DownloadStep::Finished(Ok(None)),
        }
    }

    /// Takes the headers of the response to the `HEAD` request.
    pub fn resume<T, E>(self, outcome: Result<&HeaderMap, E>) -> (next: DownloadStep<T, E>)
        ensures
            self.leads_to(outcome, next),
    {
        match outcome {
            Err(e) => DownloadStep::Finished(Err(ExtractError::Outside(e))),
            Ok(headers) => self.resume_with_size(probe_object(headers)),
        }
    }
}

/// The first failure in a list of outcomes.
pub open spec fn first_failure<X>(results: Seq<Result<u64, X>>) -> Option<X>
    decreases results.len(),
{
    if results.len() == 0 {
        None
    } else {
        match results[0] {
            Err(e) => Some(e),
            Ok(_) => first_failure(results.drop_first()),
        }
    }
}

/// The first failure is the one that only successes come before.
proof fn lemma_first_failure<X>(results: Seq<Result<u64, X>>, k: int)
    requires
        0 <= k <= results.len(),
        forall|i: int| 0 <= i < k ==> (#[trigger] results[i]) is Ok,
    ensures
        k == results.len() ==> first_failure(results) is None,
        k < results.len() && results[k] is Err ==> first_failure(results) == Some(
            results[k]->Err_0,
        ),
    decreases results.len(),
{
    if results.len() > 0 && k > 0 {
        assert(results[0] is Ok);
        let rest = results.drop_first();
        assert forall|i: int| 0 <= i < k - 1 implies (#[trigger] rest[i]) is Ok by {
            assert(rest[i] == results[i + 1]);
        }
        lemma_first_failure(rest, k - 1);
    }
}

/// Finds the first failure in a list of outcomes.
fn first_error<X>(results: Vec<Result<u64, X>>) -> (res: Option<X>)
    ensures
        res == first_failure(results@),
{
    for result in it: results
        invariant
            it.seq() == results@,
            forall|j: int| 0 <= j < it.index() ==> (#[trigger] results@[j]) is Ok,
    {
        assert(results@[it.index() as int] == result);
        match result {
            Err(e) => {
                proof {
                    lemma_first_failure(results@, it.index() as int);
                }
                return Some(e);
            },
            Ok(_) => {},
        }
    }
    proof {
        lemma_first_failure(results@, results@.len() as int);
    }
    None
}

/// How far the transfers of a download have come.
#[verifier::ext_equal]
pub struct TransferState<T, E> {
    pub temp: T,
    pub ranges: Seq<ByteRange>,
    pub concurrency: nat,
    /// So many ranges, from the first on, have been started.
    pub started: nat,
    /// How the transfers that have ended went, in the order in which they ended.
    pub results: Seq<Result<u64, ExtractError<E>>>,
}

impl<T, E> TransferState<T, E> {
    /// Nothing has been started.
    pub open spec fn initial(temp: T, ranges: Seq<ByteRange>, concurrency: nat) -> Self {
        TransferState { temp, ranges, concurrency, started: 0, results: Seq::empty() }
    }

    /// The number of transfers that have been started and have not ended.
    pub open spec fn running(self) -> int {
        self.started - self.results.len()
    }

    /// No transfer ends that was not started, and the number of running
    /// transfers is within the bound.
    pub open spec fn wf(self) -> bool {
        &&& self.concurrency > 0
        &&& self.results.len() <= self.started <= self.ranges.len()
        &&& self.running() <= self.concurrency
    }

    /// One transfer more has been started.
    pub open spec fn one_started(self) -> Self {
        TransferState { started: self.started + 1, ..self }
    }

    /// One transfer more has ended.
    pub open spec fn one_ended(self, result: Result<u64, ExtractError<E>>) -> Self {
        TransferState { results: self.results.push(result), ..self }
    }

    /// What is due: the next range is started as long as there is one and the
    /// bound allows for it; then a running transfer is waited for; and once all
    /// have ended, the first failure among them, if any, is that of the download.
    pub open spec fn due(self, step: DownloadStep<T, E>) -> bool {
        if self.started < self.ranges.len() && self.running() < self.concurrency {
            &&& step is StartTransfer
            &&& step->StartTransfer_0 == self.ranges[self.started as int]
            &&& step->StartTransfer_1@ == self.one_started()
        } else if self.running() > 0 {
            step is AwaitTransfer && step->AwaitTransfer_0@ == self
        } else {
            step == DownloadStep::<T, E>::Finished(
                match first_failure(self.results) {
                    Some(e) => Err(e),
                    None => Ok(Some(self.temp)),
                },
            )
        }
    }
}

impl<T, E> View for Transfers<T, E> {
    type V = TransferState<T, E>;

    closed spec fn view(&self) -> TransferState<T, E> {
        TransferState {
            temp: self.temp,
            ranges: self.ranges@,
            concurrency: self.concurrency as nat,
            started: self.started as nat,
            results: self.results@,
        }
    }
}

impl<T, E> View for PendingStart<T, E> {
    type V = TransferState<T, E>;

    closed spec fn view(&self) -> TransferState<T, E> {
        self.transfers@
    }
}

impl<T, E> View for PendingEnd<T, E> {
    type V = TransferState<T, E>;

    closed spec fn view(&self) -> TransferState<T, E> {
        self.transfers@
    }
}

impl<T, E> Transfers<T, E> {
    /// The next step of the transfers.
    fn advance(self) -> (next: DownloadStep<T, E>)
        requires
            self@.wf(),
        ensures
            self@.due(next),
    {
        let running: usize = self.started - self.results.len();
        if self.started < self.ranges.len() && running < self.concurrency {
            let range: ByteRange = self.ranges[self.started];
            let transfers = Transfers {
                temp: self.temp,
                ranges: self.ranges,
                concurrency: self.concurrency,
                started: self.started + 1,
                results: self.results,
            };
            return DownloadStep::StartTransfer(range, PendingStart { transfers });
        }
        if running > 0 {
            return DownloadStep::AwaitTransfer(PendingEnd { transfers: self });
        }
        match first_error(self.results) {
            Some(e) => DownloadStep::Finished(Err(e)),
            None => DownloadStep::Finished(Ok(Some(self.temp))),
        }
    }
}

impl PendingTemp {
    /// The size of the object.
    pub closed spec fn spec_total(self) -> u64 {
        self.total
    }

    /// The ranges that the download is split into.
    pub closed spec fn spec_ranges(self) -> Seq<ByteRange> {
        self.ranges@
    }

    /// The bound on the number of running transfers.
    pub closed spec fn spec_concurrency(self) -> usize {
        self.concurrency
    }

    #[verifier::type_invariant]
    spec fn inv(self) -> bool {
        self.concurrency > 0
    }

    /// The size of the object, which the file is to be given.
    pub fn total(&self) -> (res: u64)
        ensures
            res == self.spec_total(),
    {
        self.total
    }

    /// What follows once the file was created, or could not be.
    pub open spec fn leads_to<T, E>(
        self,
        outcome: Result<T, E>,
        next: DownloadStep<T, E>,
    ) -> bool {
        match outcome {
            Err(e) => next == DownloadStep::<T, E>::Finished(Err(ExtractError::Outside(e))),
            Ok(temp) => TransferState::<T, E>::initial(
                temp,
                self.spec_ranges(),
                self.spec_concurrency() as nat,
            ).due(next),
        }
    }

    /// Takes the temporary file.
    pub fn resume<T, E>(self, outcome: Result<T, E>) -> (next: DownloadStep<T, E>)
        ensures
            self.leads_to(outcome, next),
    {
        proof {
            use_type_invariant(&self);
        }
        match outcome {
            Err(e) => DownloadStep::Finished(Err(ExtractError::Outside(e))),
            Ok(temp) => {
                let transfers = Transfers {
                    temp,
                    ranges: self.ranges,
                    concurrency: self.concurrency,
                    started: 0,
                    results: Vec::new(),
                };
                assert(transfers@ == TransferState::<T, E>::initial(
                    temp,
                    self.spec_ranges(),
                    self.spec_concurrency() as nat,
                ));
                transfers.advance()
            },
        }
    }
}

impl<T, E> PendingStart<T, E> {
    #[verifier::type_invariant]
    spec fn inv(self) -> bool {
        self@.wf()
    }

    /// The file that the range goes into.
    pub fn temp(&self) -> (res: &T)
        ensures
            *res == self@.temp,
    {
        &self.transfers.temp
    }

    /// Goes on once the transfer was started.
    pub fn resume(self) -> (next: DownloadStep<T, E>)
        ensures
            self@.due(next),
    {
        proof {
            use_type_invariant(&self);
        }
        self.transfers.advance()
    }
}

impl<T, E> PendingEnd<T, E> {
    #[verifier::type_invariant]
    spec fn inv(self) -> bool {
        self@.wf() && self@.running() > 0
    }

    /// Takes the outcome of the transfer that has ended.
    pub fn resume(self, result: Result<u64, ExtractError<E>>) -> (next: DownloadStep<T, E>)
        ensures
            self@.one_ended(result).due(next),
    {
        proof {
            use_type_invariant(&self);
        }
        let mut transfers = self.transfers;
        transfers.results.push(result);
        assert(transfers@ == self@.one_ended(result));
        transfers.advance()
    }
}

/// The `i`-th outcome is a failure, and only successes come before it.
pub open spec fn fails_first<X>(results: Seq<Result<u64, X>>, i: int) -> bool {
    &&& 0 <= i < results.len()
    &&& results[i] is Err
    &&& forall|k: int| 0 <= k < i ==> (#[trigger] results[k]) is Ok
}

/// A download fails with the failure of the transfer that failed first, and with
/// none exactly if every transfer succeeded.
pub proof fn law_first_failure<X>(results: Seq<Result<u64, X>>)
    ensures
        first_failure(results) is None <==> forall|i: int|
            0 <= i < results.len() ==> (#[trigger] results[i]) is Ok,
        first_failure(results) is Some ==> exists|i: int| #[trigger]
            fails_first(results, i) && results[i]->Err_0 == first_failure(results)->0,
    decreases results.len(),
{
    if results.len() > 0 && results[0] is Ok {
        let rest = results.drop_first();
        law_first_failure(rest);
        if first_failure(rest) is Some {
            let i = choose|i: int| #[trigger]
                fails_first(rest, i) && rest[i]->Err_0 == first_failure(rest)->0;
            assert forall|k: int| 0 <= k < i + 1 implies (#[trigger] results[k]) is Ok by {
                if k > 0 {
                    assert(results[k] == rest[k - 1]);
                }
            }
            assert(results[i + 1] == rest[i]);
            assert(fails_first(results, i + 1));
        } else {
            assert forall|i: int| 0 <= i < results.len() implies (#[trigger] results[i]) is Ok by {
                if i > 0 {
                    assert(results[i] == rest[i - 1]);
                }
            }
        }
    } else if results.len() > 0 {
        assert(fails_first(results, 0));
    }
}

/// The outcome of a whole download, given what the probe, the creation of the
/// file and the transfers come to.
pub open spec fn download_outcome<T, E>(
    config: ParallelDownloadConfig,
    probe: Result<Option<u64>, E>,
    temp: Result<T, E>,
    results: Seq<Result<u64, ExtractError<E>>>,
) -> Result<Option<T>, ExtractError<E>> {
    if !config.valid() {
        Ok(None)
    } else {
        match (probe, temp) {
            (Err(e), _) => Err(ExtractError::Outside(e)),
            (Ok(total), _) if !config.engages(total) => Ok(None),
            (Ok(_), Err(e)) => Err(ExtractError::Outside(e)),
            (Ok(_), Ok(temp)) => match first_failure(results) {
                Some(e) => Err(e),
                None => Ok(Some(temp)),
            },
        }
    }
}

impl<T, E> DownloadStep<T, E> {
    /// `next` comes after this step of the transfers, if they end with the given
    /// results, in that order.
    pub open spec fn transfers_lead_to(
        self,
        results: Seq<Result<u64, ExtractError<E>>>,
        next: DownloadStep<T, E>,
    ) -> bool {
        match self {
            DownloadStep::StartTransfer(_, pending) => pending@.due(next),
            DownloadStep::AwaitTransfer(pending) => {
                &&& pending@.results.len() < results.len()
                &&& pending@.one_ended(results[pending@.results.len() as int]).due(next)
            },
            _ => false,
        }
    }

    /// The number of transfers that have been started and have not ended, once
    /// the step was done, or while it waits.
    pub open spec fn unfinished(self) -> int {
        match self {
            DownloadStep::StartTransfer(_, pending) => pending@.running(),
            DownloadStep::AwaitTransfer(pending) => pending@.running(),
            _ => 0,
        }
    }
}

/// The steps of a run of the transfers, complete or not, which end with the given
/// results, in that order.
pub open spec fn is_transfer_run<T, E>(
    results: Seq<Result<u64, ExtractError<E>>>,
    steps: Seq<DownloadStep<T, E>>,
) -> bool {
    &&& steps.len() > 0
    &&& forall|i: int|
        0 <= i < steps.len() - 1 ==> (#[trigger] steps[i]).transfers_lead_to(results, steps[i + 1])
}

/// The ranges whose transfer was started in a run.
pub open spec fn started_ranges<T, E>(steps: Seq<DownloadStep<T, E>>) -> Seq<ByteRange>
    decreases steps.len(),
{
    if steps.len() == 0 {
        Seq::empty()
    } else {
        let before = started_ranges(steps.drop_last());
        match steps.last() {
            DownloadStep::StartTransfer(range, _) => before.push(range),
            _ => before,
        }
    }
}

/// What holds of a state of the transfers that began as `first`.
spec fn reached<T, E>(
    first: TransferState<T, E>,
    results: Seq<Result<u64, ExtractError<E>>>,
    state: TransferState<T, E>,
) -> bool {
    &&& state.wf()
    &&& state.temp == first.temp
    &&& state.ranges == first.ranges
    &&& state.concurrency == first.concurrency
    &&& state.results.len() <= results.len()
    &&& state.results == results.take(state.results.len() as int)
}

/// What holds of the `i`-th step of the transfers, when `seen` has been started.
spec fn reached_step<T, E>(
    first: TransferState<T, E>,
    results: Seq<Result<u64, ExtractError<E>>>,
    step: DownloadStep<T, E>,
    seen: Seq<ByteRange>,
    i: int,
) -> bool {
    match step {
        DownloadStep::StartTransfer(_, pending) => {
            &&& reached(first, results, pending@)
            &&& seen == first.ranges.take(pending@.started as int)
            &&& pending@.started + pending@.results.len() == i + 1
        },
        DownloadStep::AwaitTransfer(pending) => {
            &&& reached(first, results, pending@)
            &&& pending@.running() > 0
            &&& pending@.started == first.ranges.len() || pending@.running() == first.concurrency
            &&& seen == first.ranges.take(pending@.started as int)
            &&& pending@.started + pending@.results.len() == i
        },
        DownloadStep::Finished(outcome) => {
            &&& seen == first.ranges
            &&& i == 2 * first.ranges.len()
            &&& results.len() >= first.ranges.len()
            &&& outcome == match first_failure(results.take(first.ranges.len() as int)) {
                Some(e) => Err(e),
                None => Ok::<Option<T>, ExtractError<E>>(Some(first.temp)),
            }
        },
        _ => false,
    }
}

proof fn lemma_due<T, E>(
    first: TransferState<T, E>,
    results: Seq<Result<u64, ExtractError<E>>>,
    state: TransferState<T, E>,
    next: DownloadStep<T, E>,
    seen: Seq<ByteRange>,
    i: int,
)
    requires
        reached(first, results, state),
        state.due(next),
        seen == first.ranges.take(state.started as int),
        state.started + state.results.len() == i,
    ensures
        reached_step(
            first,
            results,
            next,
            match next {
                DownloadStep::StartTransfer(range, _) => seen.push(range),
                _ => seen,
            },
            i,
        ),
{
    if next is StartTransfer {
        assert(seen.push(next->StartTransfer_0) =~= first.ranges.take(
            (state.started + 1) as int,
        ));
    } else if next is Finished {
        assert(seen =~= first.ranges);
    }
}

proof fn lemma_transfer_run<T, E>(
    first: TransferState<T, E>,
    results: Seq<Result<u64, ExtractError<E>>>,
    steps: Seq<DownloadStep<T, E>>,
    i: int,
)
    requires
        first == TransferState::<T, E>::initial(first.temp, first.ranges, first.concurrency),
        first.concurrency > 0,
        is_transfer_run(results, steps),
        first.due(steps[0]),
        0 <= i < steps.len(),
    ensures
        reached_step(first, results, steps[i], started_ranges(steps.take(i + 1)), i),
    decreases i,
{
    let seen = started_ranges(steps.take(i));
    assert(steps.take(i + 1).drop_last() =~= steps.take(i));
    assert(steps.take(i + 1).last() == steps[i]);
    if i == 0 {
        assert(seen =~= first.ranges.take(0));
        assert(first.results =~= results.take(0));
        lemma_due(first, results, first, steps[0], seen, 0);
    } else {
        lemma_transfer_run(first, results, steps, i - 1);
        assert(steps[i - 1].transfers_lead_to(results, steps[i - 1 + 1]));
        match steps[i - 1] {
            DownloadStep::StartTransfer(_, pending) => {
                lemma_due(first, results, pending@, steps[i], seen, i);
            },
            DownloadStep::AwaitTransfer(pending) => {
                let k = pending@.results.len() as int;
                let state = pending@.one_ended(results[k]);
                assert(state.results =~= results.take(k + 1));
                lemma_due(first, results, state, steps[i], seen, i);
            },
            _ => {},
        }
    }
}

/// At every moment of a download, at most `concurrency` of its transfers are
/// unfinished, and what was started are the first so many ranges, each once and
/// in order.  The download is over when every range was started and has ended,
/// and then only.
pub proof fn law_transfers<T, E>(
    pending: PendingTemp,
    temp: T,
    results: Seq<Result<u64, ExtractError<E>>>,
    steps: Seq<DownloadStep<T, E>>,
    i: int,
)
    requires
        pending.spec_concurrency() > 0,
        is_transfer_run(results, steps),
        pending.leads_to(Ok::<T, E>(temp), steps[0]),
        0 <= i < steps.len(),
    ensures
        0 <= steps[i].unfinished() <= pending.spec_concurrency(),
        started_ranges(steps.take(i + 1)).is_prefix_of(pending.spec_ranges()),
        steps.len() <= 2 * pending.spec_ranges().len() + 1,
        steps[i] is Finished <==> i == 2 * pending.spec_ranges().len(),
        steps[i] is Finished ==> started_ranges(steps.take(i + 1)) == pending.spec_ranges(),
        steps[i] is Finished ==> results.len() >= pending.spec_ranges().len(),
{
    let first = TransferState::<T, E>::initial(
        temp,
        pending.spec_ranges(),
        pending.spec_concurrency() as nat,
    );
    let last = steps.len() - 1;
    lemma_transfer_run(first, results, steps, i);
    lemma_transfer_run(first, results, steps, last);
    if steps.len() > 2 * pending.spec_ranges().len() + 1 {
        let n = 2 * pending.spec_ranges().len() as int;
        lemma_transfer_run(first, results, steps, n);
        assert(steps[n].transfers_lead_to(results, steps[n + 1]));
    }
}

/// The bytes that some of the ranges ask for together.
pub open spec fn requested_bytes(ranges: Seq<ByteRange>, picks: Seq<int>) -> int
    decreases picks.len(),
{
    if picks.len() == 0 {
        0
    } else {
        requested_bytes(ranges, picks.drop_last()) + ranges[picks.last()].size()
    }
}

proof fn lemma_requested_bytes(ranges: Seq<ByteRange>, picks: Seq<int>, chunk: int)
    requires
        forall|i: int| 0 <= i < ranges.len() ==> (#[trigger] ranges[i]).size() <= chunk,
        forall|k: int| 0 <= k < picks.len() ==> 0 <= #[trigger] picks[k] < ranges.len(),
    ensures
        requested_bytes(ranges, picks) <= picks.len() * chunk,
    decreases picks.len(),
{
    if picks.len() > 0 {
        let n = picks.len() as int;
        lemma_requested_bytes(ranges, picks.drop_last(), chunk);
        assert(ranges[picks[n - 1]].size() <= chunk);
        assert(n * chunk == (n - 1) * chunk + chunk) by (nonlinear_arith);
    }
}

/// What is transferred stays within the bounds of the configuration.  Some
/// request is sent, and each asks for at most `chunk_size` bytes, which is at most
/// [`MAX_CHUNK_SIZE`].  At every moment at most `concurrency` requests are
/// unfinished, and whichever ranges (`picks`) these are, they ask for at most
/// `concurrency * chunk_size` bytes together.
pub proof fn law_transfers_bounded<T, E>(
    config: ParallelDownloadConfig,
    total: Option<u64>,
    created: DownloadStep<T, E>,
    temp: T,
    results: Seq<Result<u64, ExtractError<E>>>,
    steps: Seq<DownloadStep<T, E>>,
    i: int,
    picks: Seq<int>,
)
    requires
        (PendingProbe { config }).sized(total, created),
        created is CreateTemp,
        created->CreateTemp_0.leads_to(Ok::<T, E>(temp), steps[0]),
        is_transfer_run(results, steps),
        0 <= i < steps.len(),
        picks.len() == steps[i].unfinished(),
        forall|k: int|
            0 <= k < picks.len() ==> 0 <= #[trigger] picks[k] < started_ranges(
                steps.take(i + 1),
            ).len(),
    ensures
        created->CreateTemp_0.spec_ranges().len() > 0,
        forall|k: int|
            0 <= k < created->CreateTemp_0.spec_ranges().len() ==> 0 < (
            #[trigger] created->CreateTemp_0.spec_ranges()[k]).size() <= config.chunk_size,
        config.chunk_size <= MAX_CHUNK_SIZE,
        steps[i].unfinished() <= config.concurrency,
        requested_bytes(started_ranges(steps.take(i + 1)), picks) <= config.concurrency
            * config.chunk_size,
{
    let chunk = config.chunk_size as int;
    let ranges = created->CreateTemp_0.spec_ranges();
    law_range_sizes(total->0, config.chunk_size);
    law_ranges_contiguous(total->0, config.chunk_size);
    law_transfers(created->CreateTemp_0, temp, results, steps, i);
    let started = started_ranges(steps.take(i + 1));
    assert forall|k: int| 0 <= k < started.len() implies (#[trigger] started[k]).size() <= chunk by {
        assert(started[k] == ranges[k]);
    }
    lemma_requested_bytes(started, picks, chunk);
    let n = picks.len() as int;
    let bound = config.concurrency as int;
    assert(n * chunk <= bound * chunk) by (nonlinear_arith)
        requires
            n <= bound,
            chunk >= 0,
    ;
}

/// A download comes to an end, and the outcome is the file only if the
/// configuration is valid, the server states a size from the threshold on and
/// offers byte ranges, and nothing fails.  It ends without a file where the single
/// request is called for.  `results` is how the transfers went, in the order in
/// which they ended; `steps` are the steps once the file is there, or its creation
/// failed.
pub proof fn law_download_outcome<T, E>(
    config: ParallelDownloadConfig,
    headers: Result<&HeaderMap, E>,
    temp: Result<T, E>,
    results: Seq<Result<u64, ExtractError<E>>>,
    probed: DownloadStep<T, E>,
    steps: Seq<DownloadStep<T, E>>,
    end: DownloadStep<T, E>,
)
    requires
        match begun::<T, E>(config) {
            DownloadStep::Probe(pending) => pending.leads_to(headers, probed),
            step => probed == step,
        },
        match probed {
            DownloadStep::CreateTemp(pending) => {
                &&& pending.leads_to(temp, steps[0])
                &&& is_transfer_run(results, steps)
                &&& results.len() == pending.spec_ranges().len()
                &&& end == steps.last()
                &&& !(end is StartTransfer) && !(end is AwaitTransfer)
            },
            step => end == step,
        },
    ensures
        end == DownloadStep::<T, E>::Finished(
            download_outcome(
                config,
                match headers {
                    Ok(headers) => Ok(
                        stated_size(
                            header_text(*headers, "accept-ranges"@),
                            header_text(*headers, "content-length"@),
                        ),
                    ),
                    Err(e) => Err(e),
                },
                temp,
                results,
            ),
        ),
{
    if probed is CreateTemp {
        let pending = probed->CreateTemp_0;
        match temp {
            Ok(file) => {
                let first = TransferState::<T, E>::initial(
                    file,
                    pending.spec_ranges(),
                    pending.spec_concurrency() as nat,
                );
                lemma_transfer_run(first, results, steps, steps.len() - 1);
                assert(results.take(results.len() as int) =~= results);
            },
            Err(_) => {
                if steps.len() > 1 {
                    assert(steps[0].transfers_lead_to(results, steps[1]));
                }
            },
        }
    }
}

/// A parallel download yields the object: if the size that the server stated is
/// that of the object, and every range that the download started was answered
/// with its part of the object and written, in whatever order, then at the end of
/// the download the file that was created with that size holds the object.
pub proof fn law_download_holds_object<T, E>(
    config: ParallelDownloadConfig,
    body: Seq<u8>,
    total: u64,
    created: DownloadStep<T, E>,
    temp: T,
    results: Seq<Result<u64, ExtractError<E>>>,
    steps: Seq<DownloadStep<T, E>>,
    order: Seq<int>,
    writes: Seq<PendingWrite>,
)
    requires
        (PendingProbe { config }).sized(Some(total), created),
        created is CreateTemp,
        body.len() == total,
        created->CreateTemp_0.leads_to(Ok::<T, E>(temp), steps[0]),
        is_transfer_run(results, steps),
        steps.last() is Finished,
        writes.len() == order.len(),
        forall|k: int|
            0 <= k < order.len() ==> 0 <= #[trigger] order[k] < started_ranges(steps).len(),
        forall|i: int|
            0 <= i < started_ranges(steps).len() ==> #[trigger] order.contains(i),
        forall|k: int|
            0 <= k < order.len() ==> writes_part(
                #[trigger] writes[k],
                body,
                started_ranges(steps)[order[k]],
            ),
    ensures
        after_writes(blank(created->CreateTemp_0.spec_total() as nat), writes) == body,
{
    law_transfers(created->CreateTemp_0, temp, results, steps, steps.len() - 1);
    assert(steps.take(steps.len() as int) =~= steps);
    law_chunks_assemble(body, config.chunk_size, order, writes);
}

/// The number of steps that wait for the end of a transfer.
pub open spec fn awaited<T, E>(steps: Seq<DownloadStep<T, E>>) -> nat
    decreases steps.len(),
{
    if steps.len() == 0 {
        0
    } else {
        awaited(steps.drop_last()) + if steps.last() is AwaitTransfer {
            1nat
        } else {
            0
        }
    }
}

/// `next` is what the call after this step of the transfers gives, if the transfer
/// that is waited for ends with this result.
pub open spec fn transfer_calls<T, E>(
    step: DownloadStep<T, E>,
    result: Result<u64, ExtractError<E>>,
    next: DownloadStep<T, E>,
) -> bool {
    match step {
        DownloadStep::StartTransfer(_, pending) => call_ensures(
            PendingStart::<T, E>::resume,
            (pending,),
            next,
        ),
        DownloadStep::AwaitTransfer(pending) => call_ensures(
            PendingEnd::<T, E>::resume,
            (pending, result),
            next,
        ),
        _ => false,
    }
}

/// The step after the `i`-th is what the call gives, if the transfers end with the
/// given results, in that order.
pub open spec fn transfer_calls_at<T, E>(
    results: Seq<Result<u64, ExtractError<E>>>,
    steps: Seq<DownloadStep<T, E>>,
    i: int,
) -> bool {
    transfer_calls(steps[i], results[awaited(steps.take(i)) as int], steps[i + 1])
}

/// The steps of the transfers as the calls give them, complete or not, if the
/// transfers end with the given results, in that order.
pub open spec fn is_transfer_call_run<T, E>(
    results: Seq<Result<u64, ExtractError<E>>>,
    steps: Seq<DownloadStep<T, E>>,
) -> bool {
    &&& steps.len() > 0
    &&& awaited(steps.drop_last()) <= results.len()
    &&& forall|i: int|
        0 <= i < steps.len() - 1 ==> #[trigger] transfer_calls_at(results, steps, i)
}

proof fn lemma_awaited<T, E>(steps: Seq<DownloadStep<T, E>>, i: int, j: int)
    requires
        0 <= i <= j <= steps.len(),
    ensures
        awaited(steps.take(i)) <= awaited(steps.take(j)),
        i < j && steps[i] is AwaitTransfer ==> awaited(steps.take(i)) < awaited(steps.take(j)),
    decreases j - i,
{
    if i < j {
        assert(steps.take(j).drop_last() =~= steps.take(j - 1));
        lemma_awaited(steps, i, j - 1);
        if i < j - 1 {
            assert(steps.take(j).last() == steps[j - 1]);
        }
    }
}

proof fn lemma_transfer_call_run<T, E>(
    first: TransferState<T, E>,
    results: Seq<Result<u64, ExtractError<E>>>,
    steps: Seq<DownloadStep<T, E>>,
    i: int,
)
    requires
        first == TransferState::<T, E>::initial(first.temp, first.ranges, first.concurrency),
        first.concurrency > 0,
        is_transfer_call_run(results, steps),
        first.due(steps[0]),
        0 <= i < steps.len(),
    ensures
        reached_step(first, results, steps[i], started_ranges(steps.take(i + 1)), i),
        awaited(steps.take(i)) + started_ranges(steps.take(i)).len() == i,
        i > 0 ==> steps[i - 1].transfers_lead_to(results, steps[i]),
    decreases i,
{
    let seen = started_ranges(steps.take(i));
    assert(steps.take(i + 1).drop_last() =~= steps.take(i));
    assert(steps.take(i + 1).last() == steps[i]);
    if i == 0 {
        assert(seen =~= first.ranges.take(0));
        assert(first.results =~= results.take(0));
        lemma_due(first, results, first, steps[0], seen, 0);
    } else {
        lemma_transfer_call_run(first, results, steps, i - 1);
        assert(steps.take(i).drop_last() =~= steps.take(i - 1));
        assert(steps.take(i).last() == steps[i - 1]);
        assert(transfer_calls_at(results, steps, i - 1));
        match steps[i - 1] {
            DownloadStep::StartTransfer(_, pending) => {
                lemma_due(first, results, pending@, steps[i], seen, i);
            },
            DownloadStep::AwaitTransfer(pending) => {
                let k = pending@.results.len() as int;
                assert(k == awaited(steps.take(i - 1)));
                assert(steps.drop_last() =~= steps.take(steps.len() - 1));
                lemma_awaited(steps, i - 1, steps.len() - 1);
                let state = pending@.one_ended(results[k]);
                assert(state.results =~= results.take(k + 1));
                lemma_due(first, results, state, steps[i], seen, i);
            },
            _ => {},
        }
    }
}

pub(crate) proof fn lemma_transfer_calls<T, E>(
    config: ParallelDownloadConfig,
    total: u64,
    created: DownloadStep<T, E>,
    ranges: Seq<ByteRange>,
    temp: T,
    results: Seq<Result<u64, ExtractError<E>>>,
    steps: Seq<DownloadStep<T, E>>,
    i: int,
    file: &T,
)
    requires
        (PendingProbe { config }).sized(Some(total), created),
        created is CreateTemp,
        ranges == chunk_ranges(total as int, config.chunk_size as int),
        call_ensures(PendingTemp::resume::<T, E>, (created->CreateTemp_0, Ok(temp)), steps[0]),
        is_transfer_call_run(results, steps),
        0 <= i < steps.len(),
        steps[i] is StartTransfer ==> call_ensures(
            PendingStart::<T, E>::temp,
            (&steps[i]->StartTransfer_1,),
            file,
        ),
    ensures
        started_ranges(steps.take(i + 1)).is_prefix_of(ranges),
        0 <= started_ranges(steps.take(i + 1)).len() - awaited(steps.take(i))
            <= config.concurrency,
        steps[i] is StartTransfer ==> *file == temp,
        steps[i] is AwaitTransfer ==> started_ranges(steps.take(i + 1)).len() == ranges.len()
            || started_ranges(steps.take(i + 1)).len() - awaited(steps.take(i))
            == config.concurrency,
        steps.len() <= 2 * ranges.len() + 1,
        steps[i] is Finished <==> i == 2 * ranges.len(),
        steps[i] is Finished || steps[i] is StartTransfer || steps[i] is AwaitTransfer,
        steps[i] is Finished ==> started_ranges(steps.take(i + 1)) == ranges && results.len()
            >= ranges.len(),
        steps[i] is Finished ==> (steps[i]->Finished_0 is Ok <==> forall|k: int|
            0 <= k < ranges.len() ==> (#[trigger] results[k]) is Ok),
        steps[i] is Finished && steps[i]->Finished_0 is Ok ==> steps[i]->Finished_0->Ok_0 == Some(
            temp,
        ),
        steps[i] is Finished && steps[i]->Finished_0 is Err ==> exists|k: int|
            k < ranges.len() && #[trigger] fails_first(results, k) && results[k]->Err_0
                == steps[i]->Finished_0->Err_0,
{
    let pending = created->CreateTemp_0;
    let first = TransferState::<T, E>::initial(
        temp,
        pending.spec_ranges(),
        pending.spec_concurrency() as nat,
    );
    lemma_transfer_call_run(first, results, steps, i);
    assert forall|j: int| 0 <= j < steps.len() - 1 implies (#[trigger] steps[j]).transfers_lead_to(
        results,
        steps[j + 1],
    ) by {
        lemma_transfer_call_run(first, results, steps, j + 1);
    }
    law_transfers(pending, temp, results, steps, i);
    assert(steps.take(i + 1).drop_last() =~= steps.take(i));
    assert(steps.take(i + 1).last() == steps[i]);
    if steps[i] is Finished {
        let n = ranges.len() as int;
        let ended = results.take(n);
        law_first_failure(ended);
        if first_failure(ended) is Some {
            let k = choose|k: int| #[trigger]
                fails_first(ended, k) && ended[k]->Err_0 == first_failure(ended)->0;
            assert forall|j: int| 0 <= j < k implies (#[trigger] results[j]) is Ok by {
                assert(ended[j] is Ok);
            }
            assert(ended[k] == results[k]);
            assert(fails_first(results, k));
        } else {
            assert forall|k: int| 0 <= k < n implies (#[trigger] results[k]) is Ok by {
                assert(ended[k] is Ok);
            }
        }
    }
}

/// The transfers of an object, as the calls give them.  The ranges that are started
/// are those that the object is split into, from the first on and in order, and go
/// into the file that was created.  Of those that were started at most
/// `concurrency` have not ended, and a transfer is waited for only if that many are
/// running or every range was started.  After two steps for each range the
/// download is over, and not before: the file is handed out exactly if every
/// transfer succeeded, and otherwise the first failure is that of the download.
pub proof fn law_transfer_calls<T, E>(
    config: ParallelDownloadConfig,
    total: u64,
    created: DownloadStep<T, E>,
    ranges: Vec<ByteRange>,
    temp: T,
    results: Seq<Result<u64, ExtractError<E>>>,
    steps: Seq<DownloadStep<T, E>>,
    i: int,
    file: &T,
)
    requires
        call_ensures(
            PendingProbe::resume_with_size::<T, E>,
            (PendingProbe { config }, Some(total)),
            created,
        ),
        created is CreateTemp,
        call_ensures(byte_ranges, (total, config.chunk_size), ranges),
        call_ensures(PendingTemp::resume::<T, E>, (created->CreateTemp_0, Ok(temp)), steps[0]),
        is_transfer_call_run(results, steps),
        0 <= i < steps.len(),
        steps[i] is StartTransfer ==> call_ensures(
            PendingStart::<T, E>::temp,
            (&steps[i]->StartTransfer_1,),
            file,
        ),
    ensures
        started_ranges(steps.take(i + 1)).is_prefix_of(ranges@),
        0 <= started_ranges(steps.take(i + 1)).len() - awaited(steps.take(i))
            <= config.concurrency,
        steps[i] is StartTransfer ==> *file == temp,
        steps[i] is AwaitTransfer ==> started_ranges(steps.take(i + 1)).len() == ranges@.len()
            || started_ranges(steps.take(i + 1)).len() - awaited(steps.take(i))
            == config.concurrency,
        steps.len() <= 2 * ranges@.len() + 1,
        steps[i] is Finished <==> i == 2 * ranges@.len(),
        steps[i] is Finished || steps[i] is StartTransfer || steps[i] is AwaitTransfer,
        steps[i] is Finished ==> started_ranges(steps.take(i + 1)) == ranges@ && results.len()
            >= ranges@.len(),
        steps[i] is Finished ==> (steps[i]->Finished_0 is Ok <==> forall|k: int|
            0 <= k < ranges@.len() ==> (#[trigger] results[k]) is Ok),
        steps[i] is Finished && steps[i]->Finished_0 is Ok ==> steps[i]->Finished_0->Ok_0 == Some(
            temp,
        ),
        steps[i] is Finished && steps[i]->Finished_0 is Err ==> exists|k: int|
            k < ranges@.len() && #[trigger] fails_first(results, k) && results[k]->Err_0
                == steps[i]->Finished_0->Err_0,
{
    lemma_transfer_calls(config, total, created, ranges@, temp, results, steps, i, file);
}

} // verus!
