//! The extraction engine.
//!
//! An extraction job is a state machine. It is created idle, started once, and
//! then driven: it names the operation to perform next, the driver performs it
//! and hands back the reply, until the job stops, completed or failed. Progress
//! and status events go into the two queues that the driver passes along.
//!
//! The steps of a job, each a hard precondition of the next: the archive format
//! must be supported; the output directory must not be marked read-only; the
//! archive must open and enumerate; then every entry is materialised, in
//! archive order, and a progress event follows each of them. The first failure
//! ends the job: no entry is retried and nothing that was written is removed.
//!
//! The name of an entry is joined onto the output directory as it stands. A
//! job can be set to contain its paths instead: it then refuses an archive
//! with an entry that leads out of the output directory, before any write.

use vstd::prelude::*;
use crate::entry::{entry_views, ArchiveEntry, EntryKind, EntryView};
use crate::error::{
    error_of_fault, status_views, terminal_status, terminal_status_view, ExtractionError,
    StatusEvent, StatusView,
};
use crate::event::{step_event, terminal_event, EventQueue, ProgressEvent};
use crate::format::{format_of_path, ArchiveFormat};
use crate::path::{is_contained, joined, resolve_output_path, stays_inside};
use crate::protocol::{Reply, ReplyView, Request, RequestView};

verus! {

/// Where a job stands.
#[derive(Clone, Copy, Debug, PartialEq, Eq, Structural)]
pub enum Stage {
    /// Created, not started.
    Idle,
    /// Waiting to hear whether the output directory can be written to.
    CheckingOutput,
    /// Waiting for the entries of the archive.
    OpeningArchive,
    /// Waiting for the entry at `index` to be materialised.
    Extracting { index: usize },
    /// Every entry was materialised.
    Completed,
    /// The job was aborted.
    Failed { error: ExtractionError },
}

/// What a job does about entries whose names lead out of the output directory.
#[derive(Clone, Copy, Debug, PartialEq, Eq, Structural)]
pub enum PathPolicy {
    /// Every name is joined onto the output directory as it stands, so a name
    /// that is absolute or climbs with `..` resolves outside of it.
    AsNamed,
    /// An archive with an entry whose name does not stay inside the output
    /// directory is refused as a whole, before anything is written.
    Contained,
}

/// The states of a job as its consumer tells them apart.
#[derive(Clone, Copy, Debug, PartialEq, Eq, Structural)]
pub enum Phase {
    Idle,
    Running,
    Completed,
    Failed,
}

/// The phase that a stage belongs to.
pub open spec fn phase_of(stage: Stage) -> Phase {
    match stage {
        Stage::Idle => Phase::Idle,
        Stage::CheckingOutput | Stage::OpeningArchive | Stage::Extracting { .. } => Phase::Running,
        Stage::Completed => Phase::Completed,
        Stage::Failed { .. } => Phase::Failed,
    }
}

/// How a job in the given stage ended, if it has.
pub open spec fn outcome_of(stage: Stage) -> Option<Result<(), ExtractionError>> {
    match stage {
        Stage::Completed => Some(Ok(())),
        Stage::Failed { error } => Some(Err(error)),
        _ => None,
    }
}

/// One extraction of one archive into one output directory.
pub struct ExtractionJob {
    archive_path: String,
    output_dir: String,
    format: ArchiveFormat,
    policy: PathPolicy,
    stage: Stage,
    entries: Vec<ArchiveEntry>,
}

/// A job as plain values.
pub struct JobView {
    pub archive_path: Seq<char>,
    pub output_dir: Seq<char>,
    pub format: ArchiveFormat,
    pub policy: PathPolicy,
    pub stage: Stage,
    pub entries: Seq<EntryView>,
}

/// What one call does to a job: the job afterwards, the progress events it
/// emitted, oldest first, and its terminal status if the call ended the job.
pub struct Transition {
    pub job: JobView,
    pub progress: Seq<ProgressEvent>,
    pub status: Option<StatusView>,
}

/// The request that materialises the entry at `index`: its directory is
/// created, or its file is written, at the name of the entry joined onto the
/// output directory.
pub open spec fn entry_request(output_dir: Seq<char>, entries: Seq<EntryView>, index: int)
    -> RequestView {
    let path = joined(output_dir, entries[index].name);
    match entries[index].kind {
        EntryKind::Directory => RequestView::CreateDirectory { path },
        EntryKind::File => RequestView::WriteFile { index: index as usize, path },
    }
}

/// The request that a job is waiting on. A job that has not started or has
/// ended waits on nothing.
pub open spec fn pending_request(job: JobView) -> RequestView {
    match job.stage {
        Stage::CheckingOutput => RequestView::CheckWritable { output_dir: job.output_dir },
        Stage::OpeningArchive => RequestView::OpenArchive {
            archive_path: job.archive_path,
            format: job.format,
        },
        Stage::Extracting { index } => entry_request(job.output_dir, job.entries, index as int),
        _ => RequestView::Stop,
    }
}

/// A call that changes nothing and emits nothing.
pub open spec fn unchanged(job: JobView) -> Transition {
    Transition { job, progress: Seq::empty(), status: None }
}

/// A call that moves the job to `stage` and emits nothing.
pub open spec fn moved(job: JobView, stage: Stage) -> Transition {
    Transition { job: JobView { stage, ..job }, progress: Seq::empty(), status: None }
}

/// A call that aborts the job: the progress stream is closed and the error
/// status is emitted.
pub open spec fn aborted(job: JobView, error: ExtractionError) -> Transition {
    Transition {
        job: JobView { stage: Stage::Failed { error }, ..job },
        progress: seq![terminal_event()],
        status: Some(terminal_status_view(Err(error))),
    }
}

/// A call that ends the job with success after emitting `before`.
pub open spec fn completed(job: JobView, before: Seq<ProgressEvent>) -> Transition {
    Transition {
        job: JobView { stage: Stage::Completed, ..job },
        progress: before.push(terminal_event()),
        status: Some(terminal_status_view(Ok(()))),
    }
}

/// What starting does to a job. An archive of an unsupported format fails the
/// job on the spot, before any request; any other idle job goes on to check the
/// output directory. A job that was started before is left as it is.
pub open spec fn started(job: JobView) -> Transition {
    if job.stage != Stage::Idle {
        unchanged(job)
    } else if job.format == ArchiveFormat::Unsupported {
        aborted(job, ExtractionError::UnsupportedFormat)
    } else {
        moved(job, Stage::CheckingOutput)
    }
}

/// What a reply does to a job that waits to hear about the output directory.
pub open spec fn output_checked(job: JobView, reply: ReplyView) -> Transition {
    match reply {
        ReplyView::Writable => moved(job, Stage::OpeningArchive),
        ReplyView::ReadOnly => aborted(job, ExtractionError::ReadOnlyOutput),
        ReplyView::Failed(fault) => aborted(job, error_of_fault(fault)),
        _ => aborted(job, ExtractionError::Unknown),
    }
}

/// Whether the name of every entry stays inside the output directory.
pub open spec fn all_stay_inside(entries: Seq<EntryView>) -> bool {
    forall|i: int| 0 <= i < entries.len() ==> stays_inside(#[trigger] entries[i].name)
}

/// Whether a job takes an archive with these entries on.
pub open spec fn accepts(policy: PathPolicy, entries: Seq<EntryView>) -> bool {
    policy == PathPolicy::Contained ==> all_stay_inside(entries)
}

/// What a reply does to a job that waits for the entries of the archive. A job
/// that contains its paths refuses an archive with an entry that leads out of
/// the output directory as corrupt.
pub open spec fn archive_opened(job: JobView, reply: ReplyView) -> Transition {
    match reply {
        ReplyView::Entries(entries) => if !accepts(job.policy, entries) {
            aborted(job, ExtractionError::CorruptArchive)
        } else if entries.len() == 0 {
            completed(JobView { entries, ..job }, Seq::empty())
        } else {
            moved(JobView { entries, ..job }, Stage::Extracting { index: 0 })
        },
        ReplyView::Failed(fault) => aborted(job, error_of_fault(fault)),
        _ => aborted(job, ExtractionError::Unknown),
    }
}

/// What a reply does to a job that waits for the entry at `index`.
pub open spec fn entry_written(job: JobView, index: usize, reply: ReplyView) -> Transition {
    match reply {
        ReplyView::Done => {
            let step = step_event(index as int, job.entries.len() as int);
            if index + 1 == job.entries.len() {
                completed(job, seq![step])
            } else {
                Transition {
                    job: JobView { stage: Stage::Extracting { index: (index + 1) as usize }, ..job },
                    progress: seq![step],
                    status: None,
                }
            }
        },
        ReplyView::Failed(fault) => aborted(job, error_of_fault(fault)),
        _ => aborted(job, ExtractionError::Unknown),
    }
}

/// What a reply does to a job. A job that has not started or has ended ignores
/// it.
pub open spec fn handled(job: JobView, reply: ReplyView) -> Transition {
    match job.stage {
        Stage::CheckingOutput => output_checked(job, reply),
        Stage::OpeningArchive => archive_opened(job, reply),
        Stage::Extracting { index } => entry_written(job, index, reply),
        _ => unchanged(job),
    }
}

/// The status that a transition emits, as a sequence of at most one.
pub open spec fn emitted_status(status: Option<StatusView>) -> Seq<StatusView> {
    match status {
        Some(view) => seq![view],
        None => Seq::empty(),
    }
}

/// Appending nothing leaves a stream of events as it was.
proof fn lemma_nothing_emitted(progress: Seq<ProgressEvent>, statuses: Seq<StatusView>)
    ensures
        progress + Seq::<ProgressEvent>::empty() == progress,
        statuses + Seq::<StatusView>::empty() == statuses,
{
    assert(progress + Seq::<ProgressEvent>::empty() =~= progress);
    assert(statuses + Seq::<StatusView>::empty() =~= statuses);
}

impl View for ExtractionJob {
    type V = JobView;

    closed spec fn view(&self) -> JobView {
        JobView {
            archive_path: self.archive_path@,
            output_dir: self.output_dir@,
            format: self.format,
            policy: self.policy,
            stage: self.stage,
            entries: entry_views(self.entries@),
        }
    }
}

impl ExtractionJob {
    #[verifier::type_invariant]
    spec fn well_formed(self) -> bool {
        self.stage matches Stage::Extracting { index } ==> index < self.entries.len()
    }

    /// An idle job that extracts the archive at `archive_path` into
    /// `output_dir`. Its format is told from the extension of the archive path,
    /// and the names of its entries are joined as they stand.
    pub fn new(archive_path: &str, output_dir: &str) -> (job: ExtractionJob)
        ensures
            job@ == (JobView {
                archive_path: archive_path@,
                output_dir: output_dir@,
                format: format_of_path(archive_path@),
                policy: PathPolicy::AsNamed,
                stage: Stage::Idle,
                entries: Seq::empty(),
            }),
    {
        let job = ExtractionJob {
            archive_path: archive_path.to_owned(),
            output_dir: output_dir.to_owned(),
            format: ArchiveFormat::from_path(archive_path),
            policy: PathPolicy::AsNamed,
            stage: Stage::Idle,
            entries: Vec::new(),
        };
        assert(entry_views(job.entries@) =~= Seq::empty());
        job
    }

    /// An idle job for an archive whose format is already known.
    pub fn with_format(archive_path: &str, output_dir: &str, format: ArchiveFormat) -> (job:
        ExtractionJob)
        ensures
            job@ == (JobView {
                archive_path: archive_path@,
                output_dir: output_dir@,
                format,
                policy: PathPolicy::AsNamed,
                stage: Stage::Idle,
                entries: Seq::empty(),
            }),
    {
        let job = ExtractionJob {
            archive_path: archive_path.to_owned(),
            output_dir: output_dir.to_owned(),
            format,
            policy: PathPolicy::AsNamed,
            stage: Stage::Idle,
            entries: Vec::new(),
        };
        assert(entry_views(job.entries@) =~= Seq::empty());
        job
    }

    /// The same job, set to refuse any archive with an entry whose name leads
    /// out of the output directory. The setting counts when the archive is
    /// opened.
    pub fn contained(self) -> (job: ExtractionJob)
        ensures
            job@ == (JobView { policy: PathPolicy::Contained, ..self@ }),
    {
        proof {
            use_type_invariant(&self);
        }
        let mut job = self;
        job.policy = PathPolicy::Contained;
        job
    }

    /// Tells whether the job takes an archive with these entries on.
    fn takes_on(&self, entries: &Vec<ArchiveEntry>) -> (taken: bool)
        ensures
            taken == accepts(self@.policy, entry_views(entries@)),
    {
        match self.policy {
            PathPolicy::AsNamed => true,
            PathPolicy::Contained => {
                let mut at: usize = 0;
                while at < entries.len()
                    invariant
                        at <= entries.len(),
                        self@.policy == PathPolicy::Contained,
                        forall|i: int|
                            0 <= i < at ==> stays_inside(#[trigger] entry_views(entries@)[i].name),
                    decreases entries.len() - at,
                {
                    if !is_contained(entries[at].name.as_str()) {
                        assert(!stays_inside(entry_views(entries@)[at as int].name));
                        return false;
                    }
                    at += 1;
                }
                true
            },
        }
    }

    /// Aborts the job: closes the progress stream and emits the error status.
    fn abort(
        &mut self,
        error: ExtractionError,
        progress: &mut EventQueue<ProgressEvent>,
        status: &mut EventQueue<StatusEvent>,
    )
        ensures
            final(self)@ == aborted(old(self)@, error).job,
            final(progress)@ == old(progress)@ + aborted(old(self)@, error).progress,
            status_views(final(status)@) == status_views(old(status)@) + emitted_status(
                aborted(old(self)@, error).status,
            ),
    {
        self.stage = Stage::Failed { error };
        progress.send(ProgressEvent::terminal());
        status.send(terminal_status(Err(error)));
        assert(final(progress)@ =~= old(progress)@ + seq![terminal_event()]);
        assert(status_views(final(status)@) =~= status_views(old(status)@) + seq![
            terminal_status_view(Err(error)),
        ]);
    }

    /// Ends the job with success: closes the progress stream and emits the
    /// success status.
    fn complete(
        &mut self,
        progress: &mut EventQueue<ProgressEvent>,
        status: &mut EventQueue<StatusEvent>,
    )
        ensures
            final(self)@ == completed(old(self)@, Seq::empty()).job,
            final(progress)@ == old(progress)@.push(terminal_event()),
            status_views(final(status)@) == status_views(old(status)@) + emitted_status(
                completed(old(self)@, Seq::empty()).status,
            ),
    {
        self.stage = Stage::Completed;
        progress.send(ProgressEvent::terminal());
        status.send(terminal_status(Ok(())));
        assert(status_views(final(status)@) =~= status_views(old(status)@) + seq![
            terminal_status_view(Ok(())),
        ]);
    }

    /// Starts the job and names its first request. An archive of an
    /// unsupported format fails the job here, before anything is asked of the
    /// driver. Starting a job a second time changes nothing.
    pub fn start(
        &mut self,
        progress: &mut EventQueue<ProgressEvent>,
        status: &mut EventQueue<StatusEvent>,
    ) -> (request: Request)
        ensures
            final(self)@ == started(old(self)@).job,
            final(progress)@ == old(progress)@ + started(old(self)@).progress,
            status_views(final(status)@) == status_views(old(status)@) + emitted_status(
                started(old(self)@).status,
            ),
            request@ == pending_request(final(self)@),
    {
        match self.stage {
            Stage::Idle => {
                match self.format {
                    ArchiveFormat::Unsupported => {
                        self.abort(ExtractionError::UnsupportedFormat, progress, status);
                    },
                    _ => {
                        self.stage = Stage::CheckingOutput;
                        assert(final(progress)@ =~= old(progress)@ + Seq::empty());
                        assert(status_views(final(status)@) =~= status_views(old(status)@)
                            + Seq::empty());
                    },
                }
            },
            _ => {
                assert(final(progress)@ =~= old(progress)@ + Seq::empty());
                assert(status_views(final(status)@) =~= status_views(old(status)@) + Seq::empty());
            },
        }
        self.pending()
    }

    /// Takes the reply to the pending request and names the next request.
    ///
    /// While the output directory is being checked, only `Writable` lets the
    /// job go on. While the archive is being opened, only `Entries` does; an
    /// archive without entries completes the job at once, and a job that
    /// contains its paths refuses an archive with an entry that leads out of
    /// the output directory as corrupt. While an entry is
    /// being materialised, only `Done` does: the job emits the progress event
    /// of that entry and moves to the next one, or completes after the last.
    /// A `Failed` reply aborts the job with the error that its fault stands
    /// for, a read-only output directory with `ReadOnlyOutput`, and any reply
    /// that does not answer the pending request with `Unknown`. A job that has
    /// not started or has ended ignores the reply.
    pub fn handle(
        &mut self,
        reply: Reply,
        progress: &mut EventQueue<ProgressEvent>,
        status: &mut EventQueue<StatusEvent>,
    ) -> (request: Request)
        ensures
            final(self)@ == handled(old(self)@, reply@).job,
            final(progress)@ == old(progress)@ + handled(old(self)@, reply@).progress,
            status_views(final(status)@) == status_views(old(status)@) + emitted_status(
                handled(old(self)@, reply@).status,
            ),
            request@ == pending_request(final(self)@),
    {
        proof {
            use_type_invariant(&*self);
        }
        match self.stage {
            Stage::CheckingOutput => {
                match reply {
                    Reply::Writable => {
                        self.stage = Stage::OpeningArchive;
                        proof {
                            lemma_nothing_emitted(old(progress)@, status_views(old(status)@));
                        }
                    },
                    Reply::ReadOnly => {
                        self.abort(ExtractionError::ReadOnlyOutput, progress, status);
                    },
                    Reply::Failed(fault) => {
                        self.abort(fault.to_error(), progress, status);
                    },
                    _ => {
                        self.abort(ExtractionError::Unknown, progress, status);
                    },
                }
            },
            Stage::OpeningArchive => {
                match reply {
                    Reply::Entries(entries) => {
                        if !self.takes_on(&entries) {
                            self.abort(ExtractionError::CorruptArchive, progress, status);
                        } else if entries.len() == 0 {
                            self.entries = entries;
                            self.complete(progress, status);
                            assert(final(progress)@ =~= old(progress)@ + Seq::empty().push(
                                terminal_event(),
                            ));
                        } else {
                            self.entries = entries;
                            self.stage = Stage::Extracting { index: 0 };
                            proof {
                                lemma_nothing_emitted(old(progress)@, status_views(old(status)@));
                            }
                        }
                    },
                    Reply::Failed(fault) => {
                        self.abort(fault.to_error(), progress, status);
                    },
                    _ => {
                        self.abort(ExtractionError::Unknown, progress, status);
                    },
                }
            },
            Stage::Extracting { index } => {
                match reply {
                    Reply::Done => {
                        let total = self.entries.len();
                        progress.send(ProgressEvent::step(index, total));
                        if index + 1 == total {
                            self.complete(progress, status);
                            assert(final(progress)@ =~= old(progress)@ + seq![
                                step_event(index as int, total as int),
                            ].push(terminal_event()));
                        } else {
                            self.stage = Stage::Extracting { index: index + 1 };
                            assert(final(progress)@ =~= old(progress)@ + seq![
                                step_event(index as int, total as int),
                            ]);
                            assert(status_views(final(status)@) =~= status_views(old(status)@)
                                + Seq::empty());
                        }
                    },
                    Reply::Failed(fault) => {
                        self.abort(fault.to_error(), progress, status);
                    },
                    _ => {
                        self.abort(ExtractionError::Unknown, progress, status);
                    },
                }
            },
            _ => {
                proof {
                    lemma_nothing_emitted(old(progress)@, status_views(old(status)@));
                }
            },
        }
        self.pending()
    }

    /// The request that the job is waiting on.
    pub fn pending(&self) -> (request: Request)
        ensures
            request@ == pending_request(self@),
    {
        proof {
            use_type_invariant(self);
        }
        match self.stage {
            Stage::CheckingOutput => Request::CheckWritable { output_dir: self.output_dir.clone() },
            Stage::OpeningArchive => Request::OpenArchive {
                archive_path: self.archive_path.clone(),
                format: self.format,
            },
            Stage::Extracting { index } => {
                let entry = &self.entries[index];
                let path = resolve_output_path(self.output_dir.as_str(), entry.name.as_str());
                match entry.kind {
                    EntryKind::Directory => Request::CreateDirectory { path },
                    EntryKind::File => Request::WriteFile { index, path },
                }
            },
            _ => Request::Stop,
        }
    }

    /// Where the job stands.
    pub fn stage(&self) -> (stage: Stage)
        ensures
            stage == self@.stage,
    {
        self.stage
    }

    /// The phase of the job: idle, running, completed or failed.
    pub fn phase(&self) -> (phase: Phase)
        ensures
            phase == phase_of(self@.stage),
    {
        match self.stage {
            Stage::Idle => Phase::Idle,
            Stage::Completed => Phase::Completed,
            Stage::Failed { .. } => Phase::Failed,
            _ => Phase::Running,
        }
    }

    /// How the job ended: nothing while it has not, then success or the error
    /// that aborted it.
    pub fn outcome(&self) -> (outcome: Option<Result<(), ExtractionError>>)
        ensures
            outcome == outcome_of(self@.stage),
    {
        match self.stage {
            Stage::Completed => Some(Ok(())),
            Stage::Failed { error } => Some(Err(error)),
            _ => None,
        }
    }

    /// What the job does about names that lead out of the output directory.
    pub fn policy(&self) -> (policy: PathPolicy)
        ensures
            policy == self@.policy,
    {
        self.policy
    }

    /// The container format of the archive.
    pub fn format(&self) -> (format: ArchiveFormat)
        ensures
            format == self@.format,
    {
        self.format
    }

    /// The number of entries of the archive, once it was opened.
    pub fn total(&self) -> (total: usize)
        ensures
            total == self@.entries.len(),
    {
        self.entries.len()
    }
}

} // verus!
