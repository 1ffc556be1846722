//! The extraction of a package: from its URL to the unpacked files.
use url::Url;
use vstd::prelude::*;

use crate::archive::{archive_of_path, CondaArchiveType};
use crate::config::ParallelDownloadConfig;
use crate::error::ExtractError;
use crate::location::{url_path, url_text};
use crate::reader::{
    get_reader, get_reader_with_config, plain_request, ReaderRequest, Sha256Hash,
};
use crate::text::{contains, occurs_in};

verus! {

/// Part of the message with which a streaming zip reader gives up on an archive
/// whose local headers leave out the sizes (zip data descriptors).  Such an
/// archive can be read only from a buffer that allows for seeking.
pub const DATA_DESCRIPTOR_ERROR_MESSAGE: &'static str =
    "The file length is not available in the local header";

/// How an archive is unpacked.
#[derive(Debug, Clone, Copy, PartialEq, Eq, Structural)]
pub enum ArchiveExtractor {
    /// A `.tar.bz2` archive, as it streams in.
    TarBz2,
    /// A `.conda` archive, as it streams in.
    Conda,
    /// A `.conda` archive, read into a buffer first.
    CondaViaBuffering,
}

/// A failure to unpack an archive.
#[derive(Debug, PartialEq, Eq)]
pub struct ExtractFailure<E> {
    /// The message, if the zip reader found the archive unsupported.
    pub unsupported_archive: Option<String>,
    /// The failure itself.
    pub error: E,
}

impl<E> ExtractFailure<E> {
    /// The archive was given up because of zip data descriptors.
    pub open spec fn needs_buffer(self) -> bool {
        match self.unsupported_archive {
            Some(message) => occurs_in(message@, DATA_DESCRIPTOR_ERROR_MESSAGE@),
            None => false,
        }
    }

    /// Whether the archive was given up because of zip data descriptors.
    pub fn needs_buffering(&self) -> (res: bool)
        ensures
            res == self.needs_buffer(),
    {
        match &self.unsupported_archive {
            Some(message) => contains(message.as_str(), DATA_DESCRIPTOR_ERROR_MESSAGE),
            None => false,
        }
    }
}

/// Step of an extraction.  Each step but the last names work of the application;
/// its outcome is handed to the `resume` of what the step holds.  `S` is the
/// application's reader, `O` what an extraction yields, `E` what the work fails
/// with.
#[derive(Debug, PartialEq, Eq)]
pub enum ExtractionStep<S, O, E> {
    /// Open the package as the request says.
    GetReader(PendingReader),
    /// Unpack what the reader yields.
    Extract(PendingExtract, S),
    /// Log that streaming failed and the package is fetched again.
    FallBack(PendingFallback),
    /// Tell the reporter that a download is complete.
    ReportComplete(PendingComplete<O>),
    /// The extraction is over.
    Finished(Result<O, ExtractError<E>>),
}

/// A package is to be opened.
#[derive(Debug, Clone, Copy, PartialEq, Eq)]
pub struct PendingReader {
    pub request: ReaderRequest,
    pub extractor: ArchiveExtractor,
}

/// An archive is to be unpacked.
#[derive(Debug, Clone, Copy, PartialEq, Eq)]
pub struct PendingExtract {
    pub request: ReaderRequest,
    pub extractor: ArchiveExtractor,
}

/// The fall back to a buffer is to be logged.
#[derive(Debug, Clone, Copy, PartialEq, Eq)]
pub struct PendingFallback {
    pub request: ReaderRequest,
}

/// A reporter is to be told that a download is complete.
#[derive(Debug, PartialEq, Eq)]
pub enum PendingComplete<O> {
    /// It was the last download: the extraction succeeded.
    Finish(O),
    /// The package is fetched again as the request says.
    Retry(ReaderRequest),
}

/// The first step of an extraction.
pub open spec fn begun<S, O, E>(
    request: ReaderRequest,
    extractor: ArchiveExtractor,
) -> ExtractionStep<S, O, E> {
    ExtractionStep::GetReader(PendingReader { request, extractor })
}

/// The first step of an extraction whose archive type the path of the URL tells.
pub open spec fn begun_by_path<S, O, E>(
    path: Seq<char>,
    request: ReaderRequest,
) -> ExtractionStep<S, O, E> {
    match archive_of_path(path) {
        Some(CondaArchiveType::TarBz2) => begun(request, ArchiveExtractor::TarBz2),
        Some(CondaArchiveType::Conda) => begun(request, ArchiveExtractor::Conda),
        None => ExtractionStep::Finished(Err(ExtractError::UnsupportedArchiveType)),
    }
}

/// Begins to extract a `.tar.bz2` package.
pub fn extract_tar_bz2<S, O, E>(
    url: &Url,
    expected_sha256: Option<Sha256Hash>,
    has_reporter: bool,
) -> (step: ExtractionStep<S, O, E>)
    ensures
        step == begun::<S, O, E>(
            plain_request(url_text(*url), expected_sha256, has_reporter),
            ArchiveExtractor::TarBz2,
        ),
{
    ExtractionStep::GetReader(
        PendingReader {
            request: get_reader(url, expected_sha256, has_reporter),
            extractor: ArchiveExtractor::TarBz2,
        },
    )
}

/// Begins to extract a `.conda` package.
pub fn extract_conda<S, O, E>(
    url: &Url,
    expected_sha256: Option<Sha256Hash>,
    has_reporter: bool,
) -> (step: ExtractionStep<S, O, E>)
    ensures
        step == begun::<S, O, E>(
            plain_request(url_text(*url), expected_sha256, has_reporter),
            ArchiveExtractor::Conda,
        ),
{
    ExtractionStep::GetReader(
        PendingReader {
            request: get_reader(url, expected_sha256, has_reporter),
            extractor: ArchiveExtractor::Conda,
        },
    )
}

/// Begins to extract a package whose type the path of its URL tells.
pub fn extract<S, O, E>(
    url: &Url,
    expected_sha256: Option<Sha256Hash>,
    has_reporter: bool,
) -> (step: ExtractionStep<S, O, E>)
    ensures
        step == begun_by_path::<S, O, E>(
            url_path(*url),
            plain_request(url_text(*url), expected_sha256, has_reporter),
        ),
{
    extract_by_path(url.path(), get_reader(url, expected_sha256, has_reporter))
}

/// Same as [`extract_tar_bz2`], with an opt-in to parallel ranges.
pub fn extract_tar_bz2_with_config<S, O, E>(
    url: &Url,
    expected_sha256: Option<Sha256Hash>,
    has_reporter: bool,
    config: &ParallelDownloadConfig,
) -> (step: ExtractionStep<S, O, E>)
    ensures
        step == begun::<S, O, E>(
            ReaderRequest {
                config: Some(*config),
                ..plain_request(url_text(*url), expected_sha256, has_reporter)
            },
            ArchiveExtractor::TarBz2,
        ),
{
    ExtractionStep::GetReader(
        PendingReader {
            request: get_reader_with_config(url, expected_sha256, has_reporter, config),
            extractor: ArchiveExtractor::TarBz2,
        },
    )
}

/// Same as [`extract_conda`], with an opt-in to parallel ranges.
pub fn extract_conda_with_config<S, O, E>(
    url: &Url,
    expected_sha256: Option<Sha256Hash>,
    has_reporter: bool,
    config: &ParallelDownloadConfig,
) -> (step: ExtractionStep<S, O, E>)
    ensures
        step == begun::<S, O, E>(
            ReaderRequest {
                config: Some(*config),
                ..plain_request(url_text(*url), expected_sha256, has_reporter)
            },
            ArchiveExtractor::Conda,
        ),
{
    ExtractionStep::GetReader(
        PendingReader {
            request: get_reader_with_config(url, expected_sha256, has_reporter, config),
            extractor: ArchiveExtractor::Conda,
        },
    )
}

/// Same as [`extract`], with an opt-in to parallel ranges.
pub fn extract_with_config<S, O, E>(
    url: &Url,
    expected_sha256: Option<Sha256Hash>,
    has_reporter: bool,
    config: &ParallelDownloadConfig,
) -> (step: ExtractionStep<S, O, E>)
    ensures
        step == begun_by_path::<S, O, E>(
            url_path(*url),
            ReaderRequest {
                config: Some(*config),
                ..plain_request(url_text(*url), expected_sha256, has_reporter)
            },
        ),
{
    extract_by_path(
        url.path(),
        get_reader_with_config(url, expected_sha256, has_reporter, config),
    )
}

/// Begins to extract a package whose type a path tells.
pub fn extract_by_path<S, O, E>(path: &str, request: ReaderRequest) -> (step: ExtractionStep<
    S,
    O,
    E,
>)
    ensures
        step == begun_by_path::<S, O, E>(path@, request),
{
    match CondaArchiveType::try_from(path) {
        Some(CondaArchiveType::TarBz2) => ExtractionStep::GetReader(
            PendingReader { request, extractor: ArchiveExtractor::TarBz2 },
        ),
        Some(CondaArchiveType::Conda) => ExtractionStep::GetReader(
            PendingReader { request, extractor: ArchiveExtractor::Conda },
        ),
        None => ExtractionStep::Finished(Err(ExtractError::UnsupportedArchiveType)),
    }
}

impl PendingReader {
    /// What follows once the package was opened, or could not be.
    pub open spec fn after<S, O, E>(self, outcome: Result<S, ExtractError<E>>) -> ExtractionStep<
        S,
        O,
        E,
    > {
        match outcome {
            Ok(reader) => ExtractionStep::Extract(
                PendingExtract { request: self.request, extractor: self.extractor },
                reader,
            ),
            Err(e) => ExtractionStep::Finished(Err(e)),
        }
    }

    /// Takes the reader.
    pub fn resume<S, O, E>(self, outcome: Result<S, ExtractError<E>>) -> (next: ExtractionStep<
        S,
        O,
        E,
    >)
        ensures
            next == self.after::<S, O, E>(outcome),
    {
        match outcome {
            Ok(reader) => ExtractionStep::Extract(
                PendingExtract { request: self.request, extractor: self.extractor },
                reader,
            ),
            Err(e) => ExtractionStep::Finished(Err(e)),
        }
    }
}

impl PendingExtract {
    /// What follows once the archive was unpacked, or could not be: a success is
    /// reported, if somebody wants to know, and ends the extraction; a `.conda`
    /// archive that streamed in and needs a buffer is tried again from one; any
    /// other failure ends the extraction.
    pub open spec fn after<S, O, E>(self, outcome: Result<O, ExtractFailure<E>>) -> ExtractionStep<
        S,
        O,
        E,
    > {
        match outcome {
            Ok(output) => if self.request.has_reporter {
                ExtractionStep::ReportComplete(PendingComplete::Finish(output))
            } else {
                ExtractionStep::Finished(Ok(output))
            },
            Err(failure) => if self.extractor is Conda && failure.needs_buffer() {
                ExtractionStep::FallBack(PendingFallback { request: self.request })
            } else {
                ExtractionStep::Finished(Err(ExtractError::Outside(failure.error)))
            },
        }
    }

    /// Takes the outcome of the unpacking.
    pub fn resume<S, O, E>(self, outcome: Result<O, ExtractFailure<E>>) -> (next: ExtractionStep<
        S,
        O,
        E,
    >)
        ensures
            next == self.after::<S, O, E>(outcome),
    {
        match outcome {
            Ok(output) => if self.request.has_reporter {
                ExtractionStep::ReportComplete(PendingComplete::Finish(output))
            } else {
                ExtractionStep::Finished(Ok(output))
            },
            Err(failure) => if self.extractor == ArchiveExtractor::Conda
                && failure.needs_buffering() {
                ExtractionStep::FallBack(PendingFallback { request: self.request })
            } else {
                ExtractionStep::Finished(Err(ExtractError::Outside(failure.error)))
            },
        }
    }
}

impl PendingFallback {
    /// What follows once the fall back was logged: the failed download counts as
    /// complete, and the package is fetched again in the same way.
    pub open spec fn next<S, O, E>(self) -> ExtractionStep<S, O, E> {
        if self.request.has_reporter {
            ExtractionStep::ReportComplete(PendingComplete::Retry(self.request))
        } else {
            begun(self.request, ArchiveExtractor::CondaViaBuffering)
        }
    }

    /// Goes on once the fall back was logged.
    pub fn resume<S, O, E>(self) -> (next: ExtractionStep<S, O, E>)
        ensures
            next == self.next::<S, O, E>(),
    {
        if self.request.has_reporter {
            ExtractionStep::ReportComplete(PendingComplete::Retry(self.request))
        } else {
            ExtractionStep::GetReader(
                PendingReader {
                    request: self.request,
                    extractor: ArchiveExtractor::CondaViaBuffering,
                },
            )
        }
    }
}

impl<O> PendingComplete<O> {
    /// What follows once the reporter was told.
    pub open spec fn next<S, E>(self) -> ExtractionStep<S, O, E> {
        match self {
            PendingComplete::Finish(output) => ExtractionStep::Finished(Ok(output)),
            PendingComplete::Retry(request) => begun(request, ArchiveExtractor::CondaViaBuffering),
        }
    }

    /// Goes on once the reporter was told.
    pub fn resume<S, E>(self) -> (next: ExtractionStep<S, O, E>)
        ensures
            next == self.next::<S, E>(),
    {
        match self {
            PendingComplete::Finish(output) => ExtractionStep::Finished(Ok(output)),
            PendingComplete::Retry(request) => ExtractionStep::GetReader(
                PendingReader { request, extractor: ArchiveExtractor::CondaViaBuffering },
            ),
        }
    }
}

impl<S, O, E> ExtractionStep<S, O, E> {
    /// `next` can come after this step, with some outcome of the work it names.
    pub open spec fn can_lead_to(self, next: ExtractionStep<S, O, E>) -> bool {
        match self {
            ExtractionStep::GetReader(pending) => exists|outcome: Result<S, ExtractError<E>>|
                next == #[trigger] pending.after::<S, O, E>(outcome),
            ExtractionStep::Extract(pending, _) => exists|outcome: Result<O, ExtractFailure<E>>|
                next == #[trigger] pending.after::<S, O, E>(outcome),
            ExtractionStep::FallBack(pending) => next == pending.next::<S, O, E>(),
            ExtractionStep::ReportComplete(pending) => next == pending.next::<S, E>(),
            ExtractionStep::Finished(_) => false,
        }
    }

    /// How far the extraction has come.
    spec fn rank(self) -> int {
        match self {
            ExtractionStep::GetReader(pending) => if pending.extractor is CondaViaBuffering {
                4
            } else {
                0
            },
            ExtractionStep::Extract(pending, _) => if pending.extractor is CondaViaBuffering {
                5
            } else {
                1
            },
            ExtractionStep::FallBack(_) => 2,
            ExtractionStep::ReportComplete(PendingComplete::Retry(_)) => 3,
            ExtractionStep::ReportComplete(PendingComplete::Finish(_)) => 6,
            ExtractionStep::Finished(_) => 7,
        }
    }
}

/// The steps of a run, complete or not, that extracts a package.
pub open spec fn is_run<S, O, E>(
    request: ReaderRequest,
    extractor: ArchiveExtractor,
    steps: Seq<ExtractionStep<S, O, E>>,
) -> bool {
    &&& steps.len() > 0
    &&& steps[0] == begun::<S, O, E>(request, extractor)
    &&& forall|i: int|
        0 <= i < steps.len() - 1 ==> (#[trigger] steps[i]).can_lead_to(steps[i + 1])
}

/// How often the package is opened in a run.
pub open spec fn readers<S, O, E>(steps: Seq<ExtractionStep<S, O, E>>) -> nat {
    steps.filter(|step: ExtractionStep<S, O, E>| step is GetReader).len()
}

/// How often the reporter is told of a complete download in a run.
pub open spec fn completes<S, O, E>(steps: Seq<ExtractionStep<S, O, E>>) -> nat {
    steps.filter(|step: ExtractionStep<S, O, E>| step is ReportComplete).len()
}

/// A step that an extraction can come to.
pub open spec fn allows<S, O, E>(
    request: ReaderRequest,
    extractor: ArchiveExtractor,
    step: ExtractionStep<S, O, E>,
) -> bool {
    match step {
        ExtractionStep::GetReader(pending) => pending.request == request && (pending.extractor
            == extractor || extractor is Conda && pending.extractor is CondaViaBuffering),
        ExtractionStep::Extract(pending, _) => pending.request == request && (pending.extractor
            == extractor || extractor is Conda && pending.extractor is CondaViaBuffering),
        ExtractionStep::FallBack(pending) => pending.request == request && extractor is Conda,
        ExtractionStep::ReportComplete(PendingComplete::Retry(again)) => request.has_reporter
            && again == request && extractor is Conda,
        ExtractionStep::ReportComplete(PendingComplete::Finish(_)) => request.has_reporter,
        ExtractionStep::Finished(_) => true,
    }
}

/// How many readers were opened and how many completions reported up to a step.
spec fn counted<S, O, E>(
    request: ReaderRequest,
    step: ExtractionStep<S, O, E>,
    opened: nat,
    completed: nat,
) -> bool {
    &&& !request.has_reporter ==> completed == 0
    &&& 1 <= opened <= 2
    &&& match step {
        ExtractionStep::GetReader(pending) => opened == if pending.extractor is CondaViaBuffering {
            2nat
        } else {
            1nat
        } && (request.has_reporter ==> completed + 1 == opened),
        ExtractionStep::Extract(pending, _) => opened == if pending.extractor is CondaViaBuffering {
            2nat
        } else {
            1nat
        } && (request.has_reporter ==> completed + 1 == opened),
        ExtractionStep::FallBack(_) => opened == 1 && completed == 0,
        ExtractionStep::ReportComplete(PendingComplete::Retry(_)) => opened == 1 && completed == 1,
        ExtractionStep::ReportComplete(PendingComplete::Finish(_)) => completed == opened,
        ExtractionStep::Finished(Ok(_)) => request.has_reporter ==> completed == opened,
        ExtractionStep::Finished(Err(_)) => request.has_reporter ==> completed + 1 == opened,
    }
}

/// One step more counts itself.
proof fn lemma_counts<S, O, E>(steps: Seq<ExtractionStep<S, O, E>>, i: int)
    requires
        0 <= i < steps.len(),
    ensures
        readers(steps.take(i + 1)) == readers(steps.take(i)) + if steps[i] is GetReader {
            1nat
        } else {
            0nat
        },
        completes(steps.take(i + 1)) == completes(steps.take(i)) + if steps[i] is ReportComplete {
            1nat
        } else {
            0nat
        },
{
    reveal(Seq::filter);
    assert(steps.take(i + 1).drop_last() =~= steps.take(i));
    assert(steps.take(i + 1).last() == steps[i]);
}

proof fn lemma_extraction_run<S, O, E>(
    request: ReaderRequest,
    extractor: ArchiveExtractor,
    steps: Seq<ExtractionStep<S, O, E>>,
    i: int,
)
    requires
        !(extractor is CondaViaBuffering),
        is_run(request, extractor, steps),
        0 <= i < steps.len(),
    ensures
        allows(request, extractor, steps[i]),
        steps[i].rank() >= i,
        counted(request, steps[i], readers(steps.take(i + 1)), completes(steps.take(i + 1))),
    decreases i,
{
    lemma_counts(steps, i);
    if i == 0 {
        reveal(Seq::filter);
        assert(steps.take(0) =~= Seq::empty());
    } else {
        lemma_extraction_run(request, extractor, steps, i - 1);
        assert(steps[i - 1].can_lead_to(steps[i - 1 + 1]));
        assert(steps.take(i - 1 + 1) == steps.take(i));
    }
}

/// An extraction comes to an end: no run has more than eight steps, and the
/// package is opened twice at most, both times as the caller asked for.  Only a
/// `.conda` archive is ever fetched again, and the second time it is buffered.
pub proof fn law_extraction_retries_once<S, O, E>(
    request: ReaderRequest,
    extractor: ArchiveExtractor,
    steps: Seq<ExtractionStep<S, O, E>>,
    i: int,
)
    requires
        !(extractor is CondaViaBuffering),
        is_run(request, extractor, steps),
        0 <= i < steps.len(),
    ensures
        steps.len() <= 8,
        readers(steps.take(i + 1)) <= 2,
        allows(request, extractor, steps[i]),
        steps[i] is GetReader ==> steps[i]->GetReader_0 == if i == 0 {
            PendingReader { request, extractor }
        } else {
            PendingReader { request, extractor: ArchiveExtractor::CondaViaBuffering }
        },
{
    lemma_extraction_run(request, extractor, steps, i);
    lemma_extraction_run(request, extractor, steps, steps.len() - 1);
    if i > 0 && steps[i] is GetReader {
        assert(steps[i - 1].can_lead_to(steps[i - 1 + 1]));
        lemma_extraction_run(request, extractor, steps, i - 1);
    }
}

/// What a reporter is told adds up.  Opening the package reports one start.  At
/// no point are there more completions than starts; after a success there are as
/// many, and after a failure the last start is left without a completion.
/// Without a reporter nothing is reported.
pub proof fn law_reports_add_up<S, O, E>(
    request: ReaderRequest,
    extractor: ArchiveExtractor,
    steps: Seq<ExtractionStep<S, O, E>>,
    i: int,
)
    requires
        !(extractor is CondaViaBuffering),
        is_run(request, extractor, steps),
        0 <= i < steps.len(),
    ensures
        completes(steps.take(i + 1)) <= readers(steps.take(i + 1)),
        !request.has_reporter ==> completes(steps.take(i + 1)) == 0,
        request.has_reporter && (steps[i] matches ExtractionStep::Finished(Ok(_))) ==> completes(
            steps.take(i + 1),
        ) == readers(steps.take(i + 1)),
        request.has_reporter && (steps[i] matches ExtractionStep::Finished(Err(_))) ==> completes(
            steps.take(i + 1),
        ) + 1 == readers(steps.take(i + 1)),
{
    lemma_extraction_run(request, extractor, steps, i);
}

/// The result of a whole extraction, given what its work comes to: opening the
/// package and unpacking it, and the same a second time where that is needed.
pub open spec fn extraction_result<S, O, E>(
    extractor: ArchiveExtractor,
    reader: Result<S, ExtractError<E>>,
    unpacked: Result<O, ExtractFailure<E>>,
    second_reader: Result<S, ExtractError<E>>,
    second_unpacked: Result<O, ExtractFailure<E>>,
) -> Result<O, ExtractError<E>> {
    match (reader, unpacked) {
        (Err(e), _) => Err(e),
        (Ok(_), Ok(output)) => Ok(output),
        (Ok(_), Err(failure)) => if extractor is Conda && failure.needs_buffer() {
            match (second_reader, second_unpacked) {
                (Err(e), _) => Err(e),
                (Ok(_), Ok(output)) => Ok(output),
                (Ok(_), Err(failure)) => Err(ExtractError::Outside(failure.error)),
            }
        } else {
            Err(ExtractError::Outside(failure.error))
        },
    }
}

/// The step that is due once all that is to be logged and reported was.
pub open spec fn told<S, O, E>(step: ExtractionStep<S, O, E>) -> ExtractionStep<S, O, E> {
    let logged = match step {
        ExtractionStep::FallBack(pending) => pending.next::<S, O, E>(),
        _ => step,
    };
    match logged {
        ExtractionStep::ReportComplete(pending) => pending.next::<S, E>(),
        _ => logged,
    }
}

/// What an extraction comes to depends on its work alone: neither the reporter
/// nor the way in which the package is fetched has a part in it, a package that
/// streams in well is unpacked once, and no failure is made up or lost.
pub proof fn law_extraction_result<S, O, E>(
    request: ReaderRequest,
    extractor: ArchiveExtractor,
    reader: Result<S, ExtractError<E>>,
    unpacked: Result<O, ExtractFailure<E>>,
    second_reader: Result<S, ExtractError<E>>,
    second_unpacked: Result<O, ExtractFailure<E>>,
)
    requires
        !(extractor is CondaViaBuffering),
    ensures
        ({
            let opened = begun::<S, O, E>(request, extractor)->GetReader_0.after::<S, O, E>(reader);
            let first = match opened {
                ExtractionStep::Extract(pending, _) => told(pending.after::<S, O, E>(unpacked)),
                step => step,
            };
            let opened_again = match first {
                ExtractionStep::GetReader(pending) => pending.after::<S, O, E>(second_reader),
                step => step,
            };
            let end = match opened_again {
                ExtractionStep::Extract(pending, _) => told(pending.after::<S, O, E>(second_unpacked)),
                step => step,
            };
            end == ExtractionStep::<S, O, E>::Finished(
                extraction_result(extractor, reader, unpacked, second_reader, second_unpacked),
            )
        }),
{
}

} // verus!
