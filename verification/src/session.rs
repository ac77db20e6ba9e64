//! The consumer's side of a job.
//!
//! A session holds what the consumer has chosen and what it has been told: the
//! archive and its catalog, the output directory, the latest status, and how
//! far the job in flight has come. It starts at most one job at a time, and it
//! learns about that job only by draining the two event queues.

use vstd::prelude::*;
use crate::entry::EntryView;
use crate::error::{status_views, Severity, StatusEvent, StatusView};
use crate::event::{EventQueue, Fraction, ProgressEvent};
use crate::extraction::{ExtractionJob, JobView, PathPolicy, Stage};
use crate::extraction_laws::{has_ended, is_fresh, lemma_progress_stream_closes_once, run};
use crate::format::format_of_path;
use crate::listing::{row_views, CatalogRow, RowView};
use crate::protocol::{replies_fit, ReplyView};

verus! {

/// The state of a consumer.
pub struct Session {
    archive_path: Option<String>,
    output_dir: Option<String>,
    catalog: Vec<CatalogRow>,
    status: StatusEvent,
    extracting: bool,
    progress: Fraction,
}

/// A session as plain values.
pub struct SessionView {
    pub archive_path: Option<Seq<char>>,
    pub output_dir: Option<Seq<char>>,
    pub catalog: Seq<RowView>,
    pub status: StatusView,
    pub extracting: bool,
    pub progress: Fraction,
}

/// The characters of a path that may not have been chosen yet.
pub open spec fn chosen(path: Option<String>) -> Option<Seq<char>> {
    match path {
        Some(text) => Some(text@),
        None => None,
    }
}

/// The status of a session that has done nothing yet.
pub open spec fn ready_status() -> StatusView {
    StatusView { message: "Ready"@, severity: Severity::Info }
}

/// The status of a session whose job has just been started.
pub open spec fn extracting_status() -> StatusView {
    StatusView { message: "正在解压..."@, severity: Severity::Info }
}

/// The status that refuses an extraction for want of a path.
pub open spec fn missing_paths_status() -> StatusView {
    StatusView { message: "请同时选择压缩文件和输出目录"@, severity: Severity::Error }
}

/// The status of a session that is about to try again.
pub open spec fn retrying_status() -> StatusView {
    StatusView { message: "准备重试..."@, severity: Severity::Info }
}

/// A session before anything was chosen.
pub open spec fn initial_session() -> SessionView {
    SessionView {
        archive_path: None,
        output_dir: None,
        catalog: Seq::empty(),
        status: ready_status(),
        extracting: false,
        progress: Fraction { numerator: 0, denominator: 1 },
    }
}

/// What one progress event does to a session: its fraction is the progress
/// shown from now on, and a terminal event ends the job in flight.
pub open spec fn progress_applied(session: SessionView, event: ProgressEvent) -> SessionView {
    SessionView {
        progress: event.fraction,
        extracting: session.extracting && !event.finished,
        ..session
    }
}

/// What a stream of progress events does to a session, oldest event first.
pub open spec fn progress_drained(session: SessionView, events: Seq<ProgressEvent>) -> SessionView
    decreases events.len(),
{
    if events.len() == 0 {
        session
    } else {
        progress_applied(progress_drained(session, events.drop_last()), events.last())
    }
}

/// What a stream of status events does to a session: the newest one is shown.
pub open spec fn status_drained(session: SessionView, events: Seq<StatusView>) -> SessionView {
    if events.len() == 0 {
        session
    } else {
        SessionView { status: events.last(), ..session }
    }
}

/// What a request to extract does to a session. While a job is in flight the
/// request is a no-op. With both paths chosen the session takes a job in
/// flight; without them it shows why not.
pub open spec fn extraction_requested(session: SessionView) -> SessionView {
    if session.extracting {
        session
    } else if session.archive_path is Some && session.output_dir is Some {
        SessionView { extracting: true, status: extracting_status(), ..session }
    } else {
        SessionView { status: missing_paths_status(), ..session }
    }
}

/// The job that a request to extract starts, if it starts one.
pub open spec fn job_requested(session: SessionView) -> Option<JobView> {
    if !session.extracting && session.archive_path is Some && session.output_dir is Some {
        Some(
            JobView {
                archive_path: session.archive_path->0,
                output_dir: session.output_dir->0,
                format: format_of_path(session.archive_path->0),
                policy: PathPolicy::AsNamed,
                stage: Stage::Idle,
                entries: Seq::<EntryView>::empty(),
            },
        )
    } else {
        None
    }
}

impl View for Session {
    type V = SessionView;

    closed spec fn view(&self) -> SessionView {
        SessionView {
            archive_path: chosen(self.archive_path),
            output_dir: chosen(self.output_dir),
            catalog: row_views(self.catalog@),
            status: self.status@,
            extracting: self.extracting,
            progress: self.progress,
        }
    }
}

impl Session {
    /// A session before anything was chosen: ready, with an empty catalog and
    /// no job in flight.
    pub fn new() -> (session: Session)
        ensures
            session@ == initial_session(),
    {
        let session = Session {
            archive_path: None,
            output_dir: None,
            catalog: Vec::new(),
            status: StatusEvent { message: "Ready".to_owned(), severity: Severity::Info },
            extracting: false,
            progress: Fraction { numerator: 0, denominator: 1 },
        };
        assert(row_views(session.catalog@) =~= Seq::empty());
        session
    }

    /// Chooses the archive. Its catalog replaces the one shown before as a
    /// whole.
    pub fn select_archive(&mut self, archive_path: String, catalog: Vec<CatalogRow>)
        ensures
            final(self)@ == (SessionView {
                archive_path: Some(archive_path@),
                catalog: row_views(catalog@),
                ..old(self)@
            }),
    {
        self.archive_path = Some(archive_path);
        self.catalog = catalog;
    }

    /// Chooses the output directory.
    pub fn select_output(&mut self, output_dir: String)
        ensures
            final(self)@ == (SessionView { output_dir: Some(output_dir@), ..old(self)@ }),
    {
        self.output_dir = Some(output_dir);
    }

    /// Asks for an extraction, and hands out the job to run if the request is
    /// taken. While a job is in flight the request changes nothing. Without
    /// both paths chosen, the status says so.
    pub fn request_extraction(&mut self) -> (job: Option<ExtractionJob>)
        ensures
            final(self)@ == extraction_requested(old(self)@),
            match job {
                Some(started) => job_requested(old(self)@) == Some(started@),
                None => job_requested(old(self)@) is None,
            },
    {
        if self.extracting {
            return None;
        }
        let job = match &self.archive_path {
            Some(archive_path) => match &self.output_dir {
                Some(output_dir) => Some(
                    ExtractionJob::new(archive_path.as_str(), output_dir.as_str()),
                ),
                None => None,
            },
            None => None,
        };
        match job {
            Some(_) => {
                self.extracting = true;
                self.status = StatusEvent {
                    message: "正在解压...".to_owned(),
                    severity: Severity::Info,
                };
            },
            None => {
                self.status = StatusEvent {
                    message: "请同时选择压缩文件和输出目录".to_owned(),
                    severity: Severity::Error,
                };
            },
        }
        job
    }

    /// Tells whether the latest status is an error, so that trying again can be
    /// offered.
    pub fn can_retry(&self) -> (offered: bool)
        ensures
            offered == (self@.status.severity == Severity::Error),
    {
        match self.status.severity {
            Severity::Error => true,
            _ => false,
        }
    }

    /// Clears an error status to get ready for another attempt. Any other
    /// status is left as it is.
    pub fn retry(&mut self)
        ensures
            final(self)@ == if old(self)@.status.severity == Severity::Error {
                SessionView { status: retrying_status(), ..old(self)@ }
            } else {
                old(self)@
            },
    {
        if self.can_retry() {
            self.status = StatusEvent {
                message: "准备重试...".to_owned(),
                severity: Severity::Info,
            };
        }
    }

    /// Takes one progress event in.
    pub fn apply_progress(&mut self, event: ProgressEvent)
        ensures
            final(self)@ == progress_applied(old(self)@, event),
    {
        self.progress = event.fraction;
        if event.finished {
            self.extracting = false;
        }
    }

    /// Takes one status event in.
    pub fn apply_status(&mut self, event: StatusEvent)
        ensures
            final(self)@ == (SessionView { status: event@, ..old(self)@ }),
    {
        self.status = event;
    }

    /// Drains both queues without waiting: every buffered event is taken in,
    /// oldest first, and both queues are left empty.
    pub fn poll(
        &mut self,
        progress: &mut EventQueue<ProgressEvent>,
        status: &mut EventQueue<StatusEvent>,
    )
        ensures
            final(self)@ == status_drained(
                progress_drained(old(self)@, old(progress)@),
                status_views(old(status)@),
            ),
            final(progress)@.len() == 0,
            final(status)@.len() == 0,
    {
        let ghost taken: int = 0;
        assert(old(progress)@.take(0) =~= Seq::empty());
        assert(old(progress)@.skip(0) =~= old(progress)@);
        loop
            invariant
                0 <= taken <= old(progress)@.len(),
                progress@ == old(progress)@.skip(taken),
                status@ == old(status)@,
                self@ == progress_drained(old(self)@, old(progress)@.take(taken)),
            ensures
                progress@.len() == 0,
                status@ == old(status)@,
                self@ == progress_drained(old(self)@, old(progress)@),
            decreases progress@.len(),
        {
            match progress.try_recv() {
                Some(event) => {
                    self.apply_progress(event);
                    proof {
                        let seen = old(progress)@.take(taken + 1);
                        assert(seen.drop_last() =~= old(progress)@.take(taken));
                        assert(seen.last() == event);
                        assert(old(progress)@.skip(taken).skip(1) =~= old(progress)@.skip(
                            taken + 1,
                        ));
                        taken = taken + 1;
                    }
                },
                None => {
                    assert(old(progress)@.take(taken) =~= old(progress)@);
                    break ;
                },
            }
        }
        let ghost shown: int = 0;
        let ghost drained = self@;
        assert(old(status)@.skip(0) =~= old(status)@);
        loop
            invariant
                0 <= shown <= old(status)@.len(),
                progress@.len() == 0,
                status@ == old(status)@.skip(shown),
                self@ == status_drained(drained, status_views(old(status)@.take(shown))),
            ensures
                progress@.len() == 0,
                status@.len() == 0,
                self@ == status_drained(drained, status_views(old(status)@)),
            decreases status@.len(),
        {
            match status.try_recv() {
                Some(event) => {
                    self.apply_status(event);
                    proof {
                        assert(old(status)@.skip(shown).skip(1) =~= old(status)@.skip(shown + 1));
                        assert(status_views(old(status)@.take(shown + 1)).last() == event@);
                        shown = shown + 1;
                    }
                },
                None => {
                    assert(old(status)@.take(shown) =~= old(status)@);
                    break ;
                },
            }
        }
    }

    /// Tells whether a job is in flight.
    pub fn is_extracting(&self) -> (extracting: bool)
        ensures
            extracting == self@.extracting,
    {
        self.extracting
    }

    /// The progress of the job in flight, as it was last reported.
    pub fn progress(&self) -> (fraction: Fraction)
        ensures
            fraction == self@.progress,
    {
        self.progress
    }

    /// The latest status.
    pub fn status(&self) -> (status: &StatusEvent)
        ensures
            status@ == self@.status,
    {
        &self.status
    }

    /// The catalog of the chosen archive.
    pub fn catalog(&self) -> (rows: &Vec<CatalogRow>)
        ensures
            row_views(rows@) == self@.catalog,
    {
        &self.catalog
    }

    /// The archive that was chosen, if any.
    pub fn archive_path(&self) -> (path: Option<&str>)
        ensures
            match path {
                Some(text) => self@.archive_path == Some(text@),
                None => self@.archive_path is None,
            },
    {
        match &self.archive_path {
            Some(text) => Some(text.as_str()),
            None => None,
        }
    }

    /// The output directory that was chosen, if any.
    pub fn output_dir(&self) -> (path: Option<&str>)
        ensures
            match path {
                Some(text) => self@.output_dir == Some(text@),
                None => self@.output_dir is None,
            },
    {
        match &self.output_dir {
            Some(text) => Some(text.as_str()),
            None => None,
        }
    }
}

/// Draining events of which none is terminal leaves the job in flight.
pub proof fn lemma_drain_keeps_job_in_flight(session: SessionView, events: Seq<ProgressEvent>)
    requires
        forall|i: int| 0 <= i < events.len() ==> !(#[trigger] events[i]).finished,
    ensures
        progress_drained(session, events).extracting == session.extracting,
        events.len() > 0 ==> progress_drained(session, events).progress == events.last().fraction,
    decreases events.len(),
{
    if events.len() > 0 {
        let earlier = events.drop_last();
        assert forall|i: int| 0 <= i < earlier.len() implies !(#[trigger] earlier[i]).finished by {
            assert(earlier[i] == events[i]);
        }
        lemma_drain_keeps_job_in_flight(session, earlier);
    }
}

/// While its job runs, a session that drains what the job has emitted so far
/// keeps the job in flight. Once the job has ended, however it ended, draining
/// its progress stream releases the session, with the progress shown at 1, so
/// that the next request to extract is taken.
pub proof fn lemma_session_follows_job(
    session: SessionView,
    job: JobView,
    replies: Seq<ReplyView>,
)
    requires
        is_fresh(job),
        replies_fit(replies),
    ensures
        ({
            let trace = run(job, replies);
            let after = progress_drained(session, trace.progress);
            &&& !has_ended(trace) ==> after.extracting == session.extracting
            &&& has_ended(trace) ==> !after.extracting && after.progress.is_whole()
        }),
{
    lemma_progress_stream_closes_once(job, replies);
    let trace = run(job, replies);
    if !has_ended(trace) {
        lemma_drain_keeps_job_in_flight(session, trace.progress);
    }
}

} // verus!
