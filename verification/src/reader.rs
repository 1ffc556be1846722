//! The source that a package is read from.
use url::Url;
use vstd::prelude::*;

use crate::config::ParallelDownloadConfig;
use crate::download::{download_outcome, law_first_failure};
use crate::error::ExtractError;
use crate::location::{is_file_url, local_file, names_file, url_path, url_text};
use crate::progress::DownloadProgress;
use crate::text::{hex_text, lower_hex};

verus! {

/// A SHA-256 digest.
pub type Sha256Hash = [u8; 32];

/// The request header that carries the expected digest of the body.  A registry
/// client checks the response against it.
pub const EXPECTED_SHA256_HEADER: &'static str = "X-Expected-Sha256";

/// Everything that decides how a package is read.
#[derive(Debug, Clone, Copy, PartialEq, Eq)]
pub struct ReaderRequest {
    /// The package is a local file.
    pub is_file: bool,
    /// The digest that the body is expected to have.
    pub expected_sha256: Option<Sha256Hash>,
    /// How to split the download, if the caller opted in to that.
    pub config: Option<ParallelDownloadConfig>,
    /// Somebody wants to be told about progress.
    pub has_reporter: bool,
}

/// Step of opening a package.  Each step but `NoFilePath` and `Finished` names work
/// of the application; its outcome is handed to the `resume` of what the step holds.
/// `T` is the application's temporary file, `E` what its work fails with.
#[derive(Debug, PartialEq, Eq)]
pub enum ReaderStep<T, E> {
    /// Tell the reporter that the download starts.
    ReportStart(PendingSource),
    /// Hand over the URL, so that its path in the file system is found.
    LocateFile(PendingLocation),
    /// The URL names a local file, but has no path on this platform: there is
    /// nothing to read, and the caller is in error.
    NoFilePath,
    /// Open a local file.
    OpenFile(PendingFile),
    /// Download the object in parallel ranges.
    ParallelDownload(PendingParallel),
    /// Open the temporary file that holds the object.
    OpenTemp(PendingTempFile<T>),
    /// Send a `GET` for the whole object.
    SendGet(PendingGet),
    /// The package can be read, or opening it failed.
    Finished(Result<ReaderSource<T>, ExtractError<E>>),
}

/// What a package is read from.
#[derive(Debug, PartialEq, Eq)]
pub enum ReaderSource<T> {
    /// The local file.
    LocalFile,
    /// The temporary file, which has to be kept until everything was read.
    TempFile(T),
    /// The body of the response, of which the progress is counted.
    Response(DownloadProgress),
}

/// The choice of a source is due.
#[derive(Debug, Clone, Copy, PartialEq, Eq)]
pub struct PendingSource {
    pub request: ReaderRequest,
}

/// The path of a local file is to be found.
#[derive(Debug, Clone, Copy, PartialEq, Eq)]
pub struct PendingLocation {}

/// A local file is to be opened.
#[derive(Debug, PartialEq, Eq)]
pub struct PendingFile {
    pub path: std::path::PathBuf,
}

/// A parallel download is to be made.
#[derive(Debug, Clone, Copy, PartialEq, Eq)]
pub struct PendingParallel {
    pub config: ParallelDownloadConfig,
}

/// A temporary file is to be opened.
#[derive(Debug, PartialEq, Eq)]
pub struct PendingTempFile<T> {
    pub temp: T,
}

/// A `GET` for the whole object is to be sent.
#[derive(Debug, Clone, Copy, PartialEq, Eq)]
pub struct PendingGet {
    /// The digest to send along, if any.
    pub expected_sha256: Option<Sha256Hash>,
}

/// How to read a package with a single request.
pub fn get_reader(url: &Url, expected_sha256: Option<Sha256Hash>, has_reporter: bool) -> (request:
    ReaderRequest)
    ensures
        request == plain_request(url_text(*url), expected_sha256, has_reporter),
{
    ReaderRequest { is_file: is_file_url(url), expected_sha256, config: None, has_reporter }
}

/// How to read a package, possibly in parallel ranges.
pub fn get_reader_with_config(
    url: &Url,
    expected_sha256: Option<Sha256Hash>,
    has_reporter: bool,
    config: &ParallelDownloadConfig,
) -> (request: ReaderRequest)
    ensures
        request == (ReaderRequest {
            config: Some(*config),
            ..plain_request(url_text(*url), expected_sha256, has_reporter)
        }),
{
    ReaderRequest {
        is_file: is_file_url(url),
        expected_sha256,
        config: Some(*config),
        has_reporter,
    }
}

/// The request for a package that the caller did not opt in to split.
pub open spec fn plain_request(
    url: Seq<char>,
    expected_sha256: Option<Sha256Hash>,
    has_reporter: bool,
) -> ReaderRequest {
    ReaderRequest { is_file: names_file(url), expected_sha256, config: None, has_reporter }
}

impl ReaderRequest {
    /// The work that yields the source: a local file is located; an object is
    /// downloaded in parallel if the caller opted in and no digest is expected;
    /// otherwise a single request fetches it, with the digest if there is one.
    pub open spec fn source<T, E>(self) -> ReaderStep<T, E> {
        if self.is_file {
            ReaderStep::LocateFile(PendingLocation {  })
        } else if self.config is Some && self.expected_sha256 is None {
            ReaderStep::ParallelDownload(PendingParallel { config: self.config->0 })
        } else {
            ReaderStep::SendGet(PendingGet { expected_sha256: self.expected_sha256 })
        }
    }

    /// The first step of opening a package.
    pub open spec fn begun<T, E>(self) -> ReaderStep<T, E> {
        if self.has_reporter {
            ReaderStep::ReportStart(PendingSource { request: self })
        } else {
            self.source()
        }
    }

    fn choose_source<T, E>(&self) -> (step: ReaderStep<T, E>)
        ensures
            step == self.source::<T, E>(),
    {
        if self.is_file {
            return ReaderStep::LocateFile(PendingLocation {  });
        }
        match (self.config, self.expected_sha256) {
            (Some(config), None) => ReaderStep::ParallelDownload(PendingParallel { config }),
            (_, expected_sha256) => ReaderStep::SendGet(PendingGet { expected_sha256 }),
        }
    }

    /// Begins to open the package.
    pub fn begin<T, E>(&self) -> (step: ReaderStep<T, E>)
        ensures
            step == self.begun::<T, E>(),
    {
        if self.has_reporter {
            ReaderStep::ReportStart(PendingSource { request: *self })
        } else {
            self.choose_source()
        }
    }
}

impl PendingSource {
    /// Goes on once the reporter was told.
    pub fn resume<T, E>(self) -> (next: ReaderStep<T, E>)
        ensures
            next == self.request.source::<T, E>(),
    {
        self.request.choose_source()
    }
}

impl PendingLocation {
    /// What follows once the path of the file was found, or was found not to
    /// exist.
    pub open spec fn after<T, E>(self, path: Option<std::path::PathBuf>) -> ReaderStep<T, E> {
        match path {
            Some(path) => ReaderStep::OpenFile(PendingFile { path }),
            None => ReaderStep::NoFilePath,
        }
    }

    /// Takes the path of the file.
    pub fn resume_with_path<T, E>(self, path: Option<std::path::PathBuf>) -> (next: ReaderStep<
        T,
        E,
    >)
        ensures
            next == self.after::<T, E>(path),
    {
        match path {
            Some(path) => ReaderStep::OpenFile(PendingFile { path }),
            None => ReaderStep::NoFilePath,
        }
    }

    /// Takes the URL, and finds the path of the file that it names.
    pub fn resume<T, E>(self, url: &Url) -> (next: ReaderStep<T, E>)
        ensures
            next is OpenFile || next is NoFilePath,
            next is OpenFile ==> names_file(url_text(*url)),
            next is OpenFile ==> url_path(*url).len() > 0 && url_path(*url)[0] == '/',
            names_file(url_text(*url)) ==> call_ensures(
                Url::to_file_path,
                (url,),
                match next {
                    ReaderStep::OpenFile(pending) => Ok(pending.path),
                    _ => Err(()),
                },
            ),
    {
        self.resume_with_path(local_file(url))
    }
}

impl PendingFile {
    /// What follows once the file was opened, or could not be.
    pub open spec fn after<T, E>(self, outcome: Result<(), E>) -> ReaderStep<T, E> {
        match outcome {
            Ok(_) => ReaderStep::Finished(Ok(ReaderSource::LocalFile)),
            Err(e) => ReaderStep::Finished(Err(ExtractError::Outside(e))),
        }
    }

    /// Takes the outcome of opening the file.
    pub fn resume<T, E>(self, outcome: Result<(), E>) -> (next: ReaderStep<T, E>)
        ensures
            next == self.after::<T, E>(outcome),
    {
        match outcome {
            Ok(_) => ReaderStep::Finished(Ok(ReaderSource::LocalFile)),
            Err(e) => ReaderStep::Finished(Err(ExtractError::Outside(e))),
        }
    }
}

impl PendingParallel {
    /// What follows the parallel download: its file, if there is one, and in
    /// every other case the single request.
    pub open spec fn after<T, E>(
        self,
        outcome: Result<Option<T>, ExtractError<E>>,
    ) -> ReaderStep<T, E> {
        match outcome {
            Ok(Some(temp)) => ReaderStep::OpenTemp(PendingTempFile { temp }),
            _ => ReaderStep::SendGet(PendingGet { expected_sha256: None }),
        }
    }

    /// Takes the outcome of the parallel download.  A failure is not passed on.
    pub fn resume<T, E>(self, outcome: Result<Option<T>, ExtractError<E>>) -> (next: ReaderStep<
        T,
        E,
    >)
        ensures
            next == self.after(outcome),
    {
        match outcome {
            Ok(Some(temp)) => ReaderStep::OpenTemp(PendingTempFile { temp }),
            _ => ReaderStep::SendGet(PendingGet { expected_sha256: None }),
        }
    }
}

impl<T> PendingTempFile<T> {
    /// What follows once the temporary file was opened, or could not be: then
    /// the single request fetches the object after all.
    pub open spec fn after<E>(self, outcome: Result<(), E>) -> ReaderStep<T, E> {
        match outcome {
            Ok(_) => ReaderStep::Finished(Ok(ReaderSource::TempFile(self.temp))),
            Err(_) => ReaderStep::SendGet(PendingGet { expected_sha256: None }),
        }
    }

    /// Takes the outcome of opening the temporary file.  A failure is not passed
    /// on.
    pub fn resume<E>(self, outcome: Result<(), E>) -> (next: ReaderStep<T, E>)
        ensures
            next == self.after(outcome),
    {
        match outcome {
            Ok(_) => ReaderStep::Finished(Ok(ReaderSource::TempFile(self.temp))),
            Err(_) => ReaderStep::SendGet(PendingGet { expected_sha256: None }),
        }
    }
}

impl PendingGet {
    /// The value of the [`EXPECTED_SHA256_HEADER`] of this request: the digest
    /// in lower-case hexadecimal.  `None` if the request carries no such header.
    pub fn header_value(&self) -> (res: Option<String>)
        ensures
            match (self.expected_sha256, res) {
                (Some(digest), Some(text)) => text@ == lower_hex(digest@),
                (None, None) => true,
                _ => false,
            },
    {
        match self.expected_sha256 {
            Some(digest) => Some(hex_text(digest.as_slice())),
            None => None,
        }
    }

    /// What follows once the request was answered, or failed.
    pub open spec fn after<T, E>(self, outcome: Result<Option<u64>, E>) -> ReaderStep<T, E> {
        match outcome {
            Ok(total) => ReaderStep::Finished(
                Ok(ReaderSource::Response(DownloadProgress { received: 0, total })),
            ),
            Err(e) => ReaderStep::Finished(Err(ExtractError::Outside(e))),
        }
    }

    /// Takes the content length of the response.
    pub fn resume<T, E>(self, outcome: Result<Option<u64>, E>) -> (next: ReaderStep<T, E>)
        ensures
            next == self.after::<T, E>(outcome),
    {
        match outcome {
            Ok(total) => ReaderStep::Finished(
                Ok(ReaderSource::Response(DownloadProgress::new(total))),
            ),
            Err(e) => ReaderStep::Finished(Err(ExtractError::Outside(e))),
        }
    }
}

impl<T, E> ReaderStep<T, E> {
    /// `next` can come after this step, with some outcome of the work it names.
    pub open spec fn can_lead_to(self, next: ReaderStep<T, E>) -> bool {
        match self {
            ReaderStep::ReportStart(pending) => next == pending.request.source::<T, E>(),
            ReaderStep::LocateFile(pending) => exists|path: Option<std::path::PathBuf>|
                next == #[trigger] pending.after::<T, E>(path),
            ReaderStep::NoFilePath => false,
            ReaderStep::OpenFile(pending) => exists|outcome: Result<(), E>|
                next == #[trigger] pending.after::<T, E>(outcome),
            ReaderStep::ParallelDownload(pending) => exists|
                outcome: Result<Option<T>, ExtractError<E>>,
            |
                next == #[trigger] pending.after(outcome),
            ReaderStep::OpenTemp(pending) => exists|outcome: Result<(), E>|
                next == #[trigger] pending.after(outcome),
            ReaderStep::SendGet(pending) => exists|outcome: Result<Option<u64>, E>|
                next == #[trigger] pending.after::<T, E>(outcome),
            ReaderStep::Finished(_) => false,
        }
    }

    /// How far opening the package has come.
    spec fn rank(self) -> int {
        match self {
            ReaderStep::ReportStart(_) => 0,
            ReaderStep::LocateFile(_) => 1,
            ReaderStep::ParallelDownload(_) => 1,
            ReaderStep::OpenFile(_) => 2,
            ReaderStep::OpenTemp(_) => 2,
            ReaderStep::SendGet(_) => 3,
            ReaderStep::NoFilePath => 4,
            ReaderStep::Finished(_) => 4,
        }
    }
}

impl ReaderRequest {
    /// The steps of a run, complete or not, that opens the package.
    pub open spec fn is_run<T, E>(self, steps: Seq<ReaderStep<T, E>>) -> bool {
        &&& steps.len() > 0
        &&& steps[0] == self.begun::<T, E>()
        &&& forall|i: int|
            0 <= i < steps.len() - 1 ==> (#[trigger] steps[i]).can_lead_to(steps[i + 1])
    }

    /// A step that this request allows for.
    pub open spec fn allows<T, E>(self, step: ReaderStep<T, E>) -> bool {
        let splits = !self.is_file && self.expected_sha256 is None && self.config is Some;
        match step {
            ReaderStep::ReportStart(pending) => self.has_reporter && pending.request == self,
            ReaderStep::LocateFile(_) => self.is_file,
            ReaderStep::NoFilePath => self.is_file,
            ReaderStep::OpenFile(_) => self.is_file,
            ReaderStep::ParallelDownload(pending) => splits && self.config == Some(pending.config),
            ReaderStep::OpenTemp(_) => splits,
            ReaderStep::SendGet(pending) => !self.is_file && pending.expected_sha256
                == self.expected_sha256,
            ReaderStep::Finished(Ok(ReaderSource::LocalFile)) => self.is_file,
            ReaderStep::Finished(Ok(ReaderSource::TempFile(_))) => splits,
            ReaderStep::Finished(Ok(ReaderSource::Response(progress))) => !self.is_file
                && progress.received == 0,
            ReaderStep::Finished(Err(_)) => true,
        }
    }
}

proof fn lemma_reader_step<T, E>(
    request: ReaderRequest,
    step: ReaderStep<T, E>,
    next: ReaderStep<T, E>,
)
    requires
        request.allows(step),
        step.can_lead_to(next),
    ensures
        request.allows(next),
        next.rank() > step.rank(),
        !(next is ReportStart),
{
}

proof fn lemma_reader_run<T, E>(request: ReaderRequest, steps: Seq<ReaderStep<T, E>>, i: int)
    requires
        request.is_run(steps),
        0 <= i < steps.len(),
    ensures
        request.allows(steps[i]),
        steps[i].rank() >= i,
        steps[i] is ReportStart <==> i == 0 && request.has_reporter,
    decreases i,
{
    if i > 0 {
        lemma_reader_run(request, steps, i - 1);
        assert(steps[i - 1].can_lead_to(steps[i - 1 + 1]));
        lemma_reader_step(request, steps[i - 1], steps[i]);
    }
}

/// Whatever the work comes to, opening a package takes five steps at most, and
/// the reporter, if there is one, is told of the start once, before anything
/// else is done.
pub proof fn law_reader_reports_start_once<T, E>(
    request: ReaderRequest,
    steps: Seq<ReaderStep<T, E>>,
    i: int,
)
    requires
        request.is_run(steps),
        0 <= i < steps.len(),
    ensures
        steps.len() <= 5,
        steps[i] is ReportStart <==> i == 0 && request.has_reporter,
{
    lemma_reader_run(request, steps, i);
    lemma_reader_run(request, steps, steps.len() - 1);
}

/// Every step of every run is one that the request allows for.  In particular a
/// local file is never requested from a server; and where a digest is expected,
/// no download is split and every request for the object carries the digest.
pub proof fn law_reader_keeps_to_request<T, E>(
    request: ReaderRequest,
    steps: Seq<ReaderStep<T, E>>,
    i: int,
)
    requires
        request.is_run(steps),
        0 <= i < steps.len(),
    ensures
        request.allows(steps[i]),
        request.is_file ==> !(steps[i] is ParallelDownload) && !(steps[i] is SendGet),
        request.expected_sha256 is Some ==> !(steps[i] is ParallelDownload) && (steps[i] is SendGet
            ==> steps[i]->SendGet_0.expected_sha256 == request.expected_sha256),
        request.config is None ==> !(steps[i] is ParallelDownload),
{
    lemma_reader_run(request, steps, i);
}

/// A parallel path that comes to nothing, because the download was not called
/// for or failed or because its file cannot be opened, goes unnoticed: what
/// follows is what a caller gets who did not opt in to it.
pub proof fn law_parallel_falls_back<T, E>(
    request: ReaderRequest,
    outcome: Result<Option<T>, ExtractError<E>>,
    opened: Result<(), E>,
)
    requires
        request.source::<T, E>() is ParallelDownload,
    ensures
        ({
            let next = request.source::<T, E>()->ParallelDownload_0.after(outcome);
            let single = (ReaderRequest { config: None, ..request }).source::<T, E>();
            &&& !(outcome matches Ok(Some(_))) ==> next == single
            &&& next is OpenTemp && opened is Err ==> next->OpenTemp_0.after(opened) == single
        }),
{
}

/// Where the caller opted in, an object is read from the file of the parallel
/// download exactly if the configuration engages for the size that the server
/// stated and neither the probe, nor the creation of the file, nor any transfer,
/// nor the opening of the file fails.  In every other case the single request
/// fetches it: also where a server answers ranges with the full body, which fails
/// the transfer.
pub proof fn law_split_or_single<T, E>(
    request: ReaderRequest,
    probe: Result<Option<u64>, E>,
    temp: Result<T, E>,
    results: Seq<Result<u64, ExtractError<E>>>,
    opened: Result<(), E>,
)
    requires
        request.source::<T, E>() is ParallelDownload,
    ensures
        ({
            let pending = request.source::<T, E>()->ParallelDownload_0;
            let downloaded = pending.after(download_outcome(pending.config, probe, temp, results));
            let next = match downloaded {
                ReaderStep::OpenTemp(pending) => pending.after(opened),
                step => step,
            };
            let all_well = probe is Ok && pending.config.engages(probe->Ok_0) && temp is Ok && (
            forall|i: int| 0 <= i < results.len() ==> (#[trigger] results[i]) is Ok) && opened
                is Ok;
            if all_well {
                next == ReaderStep::<T, E>::Finished(Ok(ReaderSource::TempFile(temp->Ok_0)))
            } else {
                next == ReaderStep::<T, E>::SendGet(
                    PendingGet { expected_sha256: request.expected_sha256 },
                )
            }
        }),
{
    law_first_failure(results);
}

} // verus!
