//! Whole runs of an extraction job, and what holds of every one of them.
//!
//! A run starts an idle job and feeds it a sequence of replies. Its trace
//! collects what the job asked for and what it emitted along the way.

use vstd::prelude::*;
use crate::entry::EntryView;
use crate::error::{terminal_status_view, ExtractionError, StatusView};
use crate::event::{step_event, step_events, terminal_event, ProgressEvent};
use crate::extraction::{
    accepts, all_stay_inside, emitted_status, entry_request, handled, pending_request, phase_of,
    started, JobView, PathPolicy, Phase, Stage,
};
use crate::format::{
    format_of_path, lemma_unrecognized_extension_is_unsupported, path_extension, ArchiveFormat,
};
use crate::path::{joined, lemma_joined_starts_with_dir, stays_inside};
use crate::protocol::{replies_fit, ReplyView, RequestView};

verus! {

/// What a run has come to: the job, every request it has made, and every event
/// it has emitted, each oldest first.
pub struct Trace {
    pub job: JobView,
    pub requests: Seq<RequestView>,
    pub progress: Seq<ProgressEvent>,
    pub statuses: Seq<StatusView>,
}

/// The trace of a run right after the job was started.
pub open spec fn begun(job: JobView) -> Trace {
    let first = started(job);
    Trace {
        job: first.job,
        requests: seq![pending_request(first.job)],
        progress: first.progress,
        statuses: emitted_status(first.status),
    }
}

/// The trace of a run after one more reply.
pub open spec fn continued(trace: Trace, reply: ReplyView) -> Trace {
    let next = handled(trace.job, reply);
    Trace {
        job: next.job,
        requests: trace.requests.push(pending_request(next.job)),
        progress: trace.progress + next.progress,
        statuses: trace.statuses + emitted_status(next.status),
    }
}

/// The trace of the run that starts `job` and then hands it `replies`, in order.
pub open spec fn run(job: JobView, replies: Seq<ReplyView>) -> Trace
    decreases replies.len(),
{
    if replies.len() == 0 {
        begun(job)
    } else {
        continued(run(job, replies.drop_last()), replies.last())
    }
}

/// A job as `new` makes it: idle, without entries.
pub open spec fn is_fresh(job: JobView) -> bool {
    job.stage == Stage::Idle && job.entries.len() == 0
}

/// The shape of every trace: what was emitted so far is determined by where the
/// job stands.
pub open spec fn orderly(trace: Trace) -> bool {
    let total = trace.job.entries.len() as int;
    &&& total <= usize::MAX
    &&& match trace.job.stage {
        Stage::Idle => false,
        Stage::CheckingOutput | Stage::OpeningArchive => {
            &&& total == 0
            &&& trace.progress == Seq::<ProgressEvent>::empty()
            &&& trace.statuses == Seq::<StatusView>::empty()
        },
        Stage::Extracting { index } => {
            &&& index < total
            &&& trace.progress == step_events(total).take(index as int)
            &&& trace.statuses == Seq::<StatusView>::empty()
        },
        Stage::Completed => {
            &&& trace.progress == step_events(total).push(terminal_event())
            &&& trace.statuses == seq![terminal_status_view(Ok(()))]
        },
        Stage::Failed { error } => {
            &&& exists|done: int|
                0 <= done <= total && trace.progress == #[trigger] step_events(total).take(
                    done,
                ).push(terminal_event())
            &&& trace.statuses == seq![terminal_status_view(Err(error))]
        },
    }
}

/// One more reply keeps a trace orderly.
proof fn lemma_continued_is_orderly(trace: Trace, reply: ReplyView)
    requires
        orderly(trace),
        reply matches ReplyView::Entries(entries) ==> entries.len() <= usize::MAX,
    ensures
        orderly(continued(trace, reply)),
{
    let total = trace.job.entries.len() as int;
    let after = continued(trace, reply);
    let next = handled(trace.job, reply);
    match trace.job.stage {
        Stage::CheckingOutput => {
            assert(Seq::<ProgressEvent>::empty() + next.progress =~= next.progress);
            assert(Seq::<StatusView>::empty() + emitted_status(next.status) =~= emitted_status(
                next.status,
            ));
            if after.job.stage is Failed {
                assert(after.progress =~= step_events(0).take(0).push(terminal_event()));
            }
        },
        Stage::OpeningArchive => {
            assert(Seq::<ProgressEvent>::empty() + next.progress =~= next.progress);
            assert(Seq::<StatusView>::empty() + emitted_status(next.status) =~= emitted_status(
                next.status,
            ));
            match after.job.stage {
                Stage::Failed { .. } => {
                    assert(after.progress =~= step_events(0).take(0).push(terminal_event()));
                },
                Stage::Completed => {
                    assert(after.progress =~= step_events(0).push(terminal_event()));
                },
                Stage::Extracting { index } => {
                    assert(after.progress =~= step_events(after.job.entries.len() as int).take(0));
                },
                _ => {},
            }
        },
        Stage::Extracting { index } => {
            assert(trace.statuses + emitted_status(next.status) =~= emitted_status(next.status));
            match after.job.stage {
                Stage::Failed { .. } => {
                    assert(after.progress =~= step_events(total).take(index as int).push(
                        terminal_event(),
                    ));
                },
                Stage::Completed => {
                    assert(index + 1 == total);
                    assert(after.progress =~= step_events(total).push(terminal_event()));
                },
                Stage::Extracting { index: following } => {
                    assert(following == index + 1);
                    assert(after.progress =~= step_events(total).take(following as int));
                },
                _ => {},
            }
        },
        _ => {
            assert(trace.progress + next.progress =~= trace.progress);
            assert(trace.statuses + emitted_status(next.status) =~= trace.statuses);
        },
    }
}

/// Every run of a fresh job is orderly.
pub proof fn lemma_run_is_orderly(job: JobView, replies: Seq<ReplyView>)
    requires
        is_fresh(job),
        replies_fit(replies),
    ensures
        orderly(run(job, replies)),
    decreases replies.len(),
{
    if replies.len() == 0 {
        if job.format == ArchiveFormat::Unsupported {
            assert(begun(job).progress =~= step_events(0).take(0).push(terminal_event()));
        }
    } else {
        let earlier = replies.drop_last();
        assert forall|i: int| 0 <= i < earlier.len() implies (#[trigger] earlier[i] matches ReplyView::Entries(
            entries,
        ) ==> entries.len() <= usize::MAX) by {
            assert(earlier[i] == replies[i]);
        }
        lemma_run_is_orderly(job, earlier);
        assert(replies.last() == replies[replies.len() - 1]);
        lemma_continued_is_orderly(run(job, earlier), replies.last());
    }
}

/// Whether a trace has come to its end.
pub open spec fn has_ended(trace: Trace) -> bool {
    phase_of(trace.job.stage) == Phase::Completed || phase_of(trace.job.stage) == Phase::Failed
}

/// The life of a job runs one way: idle, then running, then completed or
/// failed. Only starting moves an idle job, and it moves it to running, or to
/// failed where the format is unsupported. A reply moves a running job on or
/// ends it, and nothing moves a job that has ended.
pub proof fn lemma_job_never_goes_back(job: JobView, reply: ReplyView)
    ensures
        match phase_of(job.stage) {
            Phase::Idle => {
                &&& handled(job, reply).job == job
                &&& phase_of(started(job).job.stage) == if job.format == ArchiveFormat::Unsupported {
                    Phase::Failed
                } else {
                    Phase::Running
                }
            },
            Phase::Running => {
                &&& started(job).job == job
                &&& phase_of(handled(job, reply).job.stage) != Phase::Idle
            },
            Phase::Completed | Phase::Failed => {
                &&& started(job).job == job
                &&& handled(job, reply).job == job
            },
        },
{
}

/// The events of the entries of a job: none of them is terminal, each fraction
/// lies between 0 and 1, they increase strictly from `1/total` on, and the last
/// one is `total/total`.
pub proof fn lemma_step_events_increase(total: int, i: int, j: int)
    requires
        0 <= i <= j < total <= usize::MAX,
    ensures
        step_events(total).len() == total,
        step_events(total)[i] == step_event(i, total),
        step_events(total)[i].fraction.numerator == i + 1,
        step_events(total)[i].fraction.denominator == total,
        !step_events(total)[i].finished,
        step_events(total)[i].fraction.is_proper(),
        i < j ==> step_events(total)[i].fraction.less_than(step_events(total)[j].fraction),
        step_events(total)[i].fraction.at_most(step_events(total)[j].fraction),
        step_events(total)[total - 1].fraction.is_whole(),
{
    assert((i + 1) * total <= (j + 1) * total) by (nonlinear_arith)
        requires
            i <= j,
            0 < total,
    ;
    if i < j {
        assert((i + 1) * total < (j + 1) * total) by (nonlinear_arith)
            requires
                i < j,
                0 < total,
        ;
    }
}

/// A successful extraction of an archive with N entries emits exactly N
/// progress events that are not terminal, with the strictly increasing
/// fractions `1/N`, `2/N`, up to `N/N`, followed by exactly one terminal event
/// with the fraction 1, and exactly one status, which reports success.
pub proof fn lemma_successful_run_reports_every_entry(job: JobView, replies: Seq<ReplyView>)
    requires
        is_fresh(job),
        replies_fit(replies),
        run(job, replies).job.stage == Stage::Completed,
    ensures
        ({
            let trace = run(job, replies);
            let total = trace.job.entries.len() as int;
            &&& trace.progress == step_events(total).push(terminal_event())
            &&& trace.progress.len() == total + 1
            &&& forall|i: int|
                0 <= i < total ==> #[trigger] trace.progress[i] == step_event(i, total)
            &&& forall|i: int, j: int|
                0 <= i < j < total ==> (#[trigger] trace.progress[i]).fraction.less_than(
                    (#[trigger] trace.progress[j]).fraction,
                )
            &&& trace.progress[total] == terminal_event()
            &&& trace.statuses == seq![terminal_status_view(Ok(()))]
        }),
{
    lemma_run_is_orderly(job, replies);
    let trace = run(job, replies);
    let total = trace.job.entries.len() as int;
    assert forall|i: int, j: int| 0 <= i < j < total implies (#[trigger] trace.progress[i]).fraction.less_than(
        (#[trigger] trace.progress[j]).fraction,
    ) by {
        lemma_step_events_increase(total, i, j);
    }
}

/// The progress stream of every run, however it goes: each fraction lies
/// between 0 and 1; the fractions never decrease; an event is terminal exactly
/// when the job has ended and the event is the last of the stream, and then
/// its fraction is 1. So a job that has ended has emitted exactly one terminal
/// event, and a running job none.
pub proof fn lemma_progress_stream_closes_once(job: JobView, replies: Seq<ReplyView>)
    requires
        is_fresh(job),
        replies_fit(replies),
    ensures
        ({
            let trace = run(job, replies);
            let stream = trace.progress;
            &&& forall|i: int| 0 <= i < stream.len() ==> (#[trigger] stream[i]).fraction.is_proper()
            &&& forall|i: int, j: int|
                0 <= i <= j < stream.len() ==> (#[trigger] stream[i]).fraction.at_most(
                    (#[trigger] stream[j]).fraction,
                )
            &&& forall|i: int|
                0 <= i < stream.len() ==> ((#[trigger] stream[i]).finished <==> has_ended(trace)
                    && i == stream.len() - 1)
            &&& forall|i: int|
                0 <= i < stream.len() && (#[trigger] stream[i]).finished
                    ==> stream[i].fraction.is_whole()
            &&& has_ended(trace) ==> stream.len() > 0
        }),
{
    lemma_run_is_orderly(job, replies);
    let trace = run(job, replies);
    let stream = trace.progress;
    let total = trace.job.entries.len() as int;
    let done: int = match trace.job.stage {
        Stage::Extracting { index } => index as int,
        Stage::Completed => total,
        Stage::Failed { .. } => choose|done: int|
            0 <= done <= total && trace.progress == #[trigger] step_events(total).take(done).push(
                terminal_event(),
            ),
        _ => 0,
    };
    assert(forall|i: int| 0 <= i < done ==> #[trigger] stream[i] == step_events(total)[i]);
    assert(step_events(total).take(total) =~= step_events(total));
    assert forall|i: int| 0 <= i < stream.len() implies (#[trigger] stream[i]).fraction.is_proper()
        && (stream[i].finished <==> has_ended(trace) && i == stream.len() - 1) && (
    stream[i].finished ==> stream[i].fraction.is_whole()) by {
        if i < done {
            lemma_step_events_increase(total, i, i);
        }
    }
    assert forall|i: int, j: int| 0 <= i <= j < stream.len() implies (#[trigger] stream[i]).fraction.at_most(
        (#[trigger] stream[j]).fraction,
    ) by {
        if j < done {
            lemma_step_events_increase(total, i, j);
        } else {
            assert(stream[j] == terminal_event());
            if i < done {
                lemma_step_events_increase(total, i, i);
                assert(stream[i].fraction.numerator * 1 <= 1 * stream[i].fraction.denominator);
            } else {
                assert(stream[i] == terminal_event());
            }
        }
    }
}

/// Every run emits at most one status: none while the job runs, and exactly
/// one once it has ended, which tells how it ended.
pub proof fn lemma_one_terminal_status(job: JobView, replies: Seq<ReplyView>)
    requires
        is_fresh(job),
        replies_fit(replies),
    ensures
        ({
            let trace = run(job, replies);
            &&& !has_ended(trace) ==> trace.statuses.len() == 0
            &&& trace.job.stage == Stage::Completed ==> trace.statuses == seq![
                terminal_status_view(Ok(())),
            ]
            &&& trace.job.stage matches Stage::Failed { error } ==> trace.statuses == seq![
                terminal_status_view(Err(error)),
            ]
        }),
{
    lemma_run_is_orderly(job, replies);
}

/// A run makes one request when it starts and one after every reply.
pub proof fn lemma_one_request_per_reply(job: JobView, replies: Seq<ReplyView>)
    ensures
        run(job, replies).requests.len() == replies.len() + 1,
        run(job, replies).requests.last() == pending_request(run(job, replies).job),
    decreases replies.len(),
{
    if replies.len() > 0 {
        lemma_one_request_per_reply(job, replies.drop_last());
    }
}

/// A job that has ended stays as it is, and asks for nothing more.
pub proof fn lemma_ended_job_stays(job: JobView, replies: Seq<ReplyView>, more: Seq<ReplyView>)
    requires
        has_ended(run(job, replies)),
    ensures
        run(job, replies + more).job == run(job, replies).job,
        run(job, replies + more).progress == run(job, replies).progress,
        run(job, replies + more).statuses == run(job, replies).statuses,
        forall|k: int|
            replies.len() < k <= replies.len() + more.len() ==> #[trigger] run(
                job,
                replies + more,
            ).requests[k] == RequestView::Stop,
        forall|k: int|
            0 <= k <= replies.len() ==> #[trigger] run(job, replies + more).requests[k] == run(
                job,
                replies,
            ).requests[k],
    decreases more.len(),
{
    lemma_one_request_per_reply(job, replies);
    if more.len() == 0 {
        assert(replies + more =~= replies);
    } else {
        let all = replies + more;
        assert(all.drop_last() =~= replies + more.drop_last());
        lemma_ended_job_stays(job, replies, more.drop_last());
        lemma_one_request_per_reply(job, replies + more.drop_last());
        let before = run(job, replies + more.drop_last());
        let after = run(job, all);
        assert(after == continued(before, all.last()));
        assert(after.progress =~= before.progress);
        assert(after.statuses =~= before.statuses);
    }
}

/// A read-only output directory fails the job with `ReadOnlyOutput`. The only
/// request that the run ever makes is the check of the output directory: the
/// archive is never opened and nothing is ever written.
pub proof fn lemma_read_only_output_stops_job(job: JobView, replies: Seq<ReplyView>)
    requires
        is_fresh(job),
        job.format != ArchiveFormat::Unsupported,
        replies.len() > 0,
        replies[0] == ReplyView::ReadOnly,
    ensures
        ({
            let trace = run(job, replies);
            &&& trace.job.stage == Stage::Failed { error: ExtractionError::ReadOnlyOutput }
            &&& trace.requests.len() == replies.len() + 1
            &&& trace.requests[0] == RequestView::CheckWritable { output_dir: job.output_dir }
            &&& forall|k: int| 1 <= k <= replies.len() ==> #[trigger] trace.requests[k] == RequestView::Stop
            &&& trace.progress == seq![terminal_event()]
            &&& trace.statuses == seq![terminal_status_view(Err(ExtractionError::ReadOnlyOutput))]
        }),
{
    let first = seq![ReplyView::ReadOnly];
    let more = replies.skip(1);
    assert(replies =~= first + more);
    assert(first.drop_last() =~= Seq::<ReplyView>::empty());
    assert(run(job, first) == continued(run(job, first.drop_last()), first.last()));
    let stopped = run(job, first);
    assert(stopped.progress =~= seq![terminal_event()]);
    assert(stopped.statuses =~= seq![terminal_status_view(Err(ExtractionError::ReadOnlyOutput))]);
    lemma_ended_job_stays(job, first, more);
    lemma_one_request_per_reply(job, replies);
}

/// An archive whose path has an unrecognised extension fails the job with
/// `UnsupportedFormat` as soon as it is started. The run never makes a request:
/// neither the output directory nor the archive is touched.
pub proof fn lemma_unsupported_format_stops_job(job: JobView, replies: Seq<ReplyView>)
    requires
        is_fresh(job),
        job.format == ArchiveFormat::Unsupported,
    ensures
        ({
            let trace = run(job, replies);
            &&& trace.job.stage == Stage::Failed { error: ExtractionError::UnsupportedFormat }
            &&& trace.requests.len() == replies.len() + 1
            &&& forall|k: int| 0 <= k <= replies.len() ==> #[trigger] trace.requests[k] == RequestView::Stop
            &&& trace.progress == seq![terminal_event()]
            &&& trace.statuses == seq![
                terminal_status_view(Err(ExtractionError::UnsupportedFormat)),
            ]
        }),
{
    let none = Seq::<ReplyView>::empty();
    assert(none + replies =~= replies);
    lemma_ended_job_stays(job, none, replies);
    lemma_one_request_per_reply(job, replies);
}

/// An extraction of an archive whose path has an extension other than `zip`
/// and `gz`, or none, fails with `UnsupportedFormat` without ever asking for
/// the output directory or the archive.
pub proof fn lemma_unrecognized_extension_stops_job(job: JobView, replies: Seq<ReplyView>)
    requires
        is_fresh(job),
        job.format == format_of_path(job.archive_path),
        path_extension(job.archive_path) != Some("zip"@),
        path_extension(job.archive_path) != Some("gz"@),
    ensures
        ({
            let trace = run(job, replies);
            &&& trace.job.stage == Stage::Failed { error: ExtractionError::UnsupportedFormat }
            &&& forall|k: int| 0 <= k <= replies.len() ==> #[trigger] trace.requests[k] == RequestView::Stop
        }),
{
    lemma_unrecognized_extension_is_unsupported(path_extension(job.archive_path));
    lemma_unsupported_format_stops_job(job, replies);
}

/// The replies of a driver that finds the output directory writable, opens the
/// archive with `entries`, and materialises the first `done` of them.
pub open spec fn faithful_replies(entries: Seq<EntryView>, done: nat) -> Seq<ReplyView> {
    seq![ReplyView::Writable, ReplyView::Entries(entries)] + Seq::new(
        done,
        |i: int| ReplyView::Done,
    )
}

/// The requests that materialise `entries` below `output_dir`, in archive
/// order.
pub open spec fn entry_requests(output_dir: Seq<char>, entries: Seq<EntryView>) -> Seq<
    RequestView,
> {
    Seq::new(entries.len(), |i: int| entry_request(output_dir, entries, i))
}

/// The two requests that precede the entries.
pub open spec fn opening_requests(job: JobView) -> Seq<RequestView> {
    seq![
        RequestView::CheckWritable { output_dir: job.output_dir },
        RequestView::OpenArchive { archive_path: job.archive_path, format: job.format },
    ]
}

/// Where a run stands after the archive was opened and `done` entries were
/// materialised, with entries still left.
proof fn lemma_faithful_run_step(job: JobView, entries: Seq<EntryView>, done: nat)
    requires
        is_fresh(job),
        job.format != ArchiveFormat::Unsupported,
        accepts(job.policy, entries),
        done < entries.len() <= usize::MAX,
    ensures
        ({
            let trace = run(job, faithful_replies(entries, done));
            &&& trace.job == (JobView {
                stage: Stage::Extracting { index: done as usize },
                entries,
                ..job
            })
            &&& trace.requests == opening_requests(job) + entry_requests(
                job.output_dir,
                entries,
            ).take(done as int + 1)
        }),
    decreases done,
{
    let replies = faithful_replies(entries, done);
    if done == 0 {
        let first = seq![ReplyView::Writable];
        assert(replies =~= seq![ReplyView::Writable, ReplyView::Entries(entries)]);
        assert(replies.drop_last() =~= first);
        assert(first.drop_last() =~= Seq::<ReplyView>::empty());
        assert(run(job, first) == continued(run(job, first.drop_last()), first.last()));
        assert(run(job, replies) == continued(run(job, first), replies.last()));
        assert(run(job, replies).requests =~= opening_requests(job) + entry_requests(
            job.output_dir,
            entries,
        ).take(1));
    } else {
        let earlier = faithful_replies(entries, (done - 1) as nat);
        assert(replies.drop_last() =~= earlier);
        assert(replies.last() == ReplyView::Done);
        lemma_faithful_run_step(job, entries, (done - 1) as nat);
        assert(run(job, replies) == continued(run(job, earlier), ReplyView::Done));
        assert(run(job, replies).requests =~= opening_requests(job) + entry_requests(
            job.output_dir,
            entries,
        ).take(done as int + 1));
    }
}

/// With a driver that succeeds at everything, a job that takes the archive on
/// completes after asking for exactly this: the check of the output directory, the archive, and then one
/// request per entry, in archive order. A directory entry is created, a file
/// entry is written from the body at its own index, each at the name of the
/// entry joined onto the output directory.
pub proof fn lemma_faithful_run_materialises_every_entry(job: JobView, entries: Seq<EntryView>)
    requires
        is_fresh(job),
        job.format != ArchiveFormat::Unsupported,
        accepts(job.policy, entries),
        entries.len() <= usize::MAX,
    ensures
        ({
            let trace = run(job, faithful_replies(entries, entries.len()));
            &&& trace.job == (JobView { stage: Stage::Completed, entries, ..job })
            &&& trace.requests == opening_requests(job) + entry_requests(job.output_dir, entries)
                + seq![RequestView::Stop]
        }),
{
    let total = entries.len();
    let replies = faithful_replies(entries, total);
    let all = entry_requests(job.output_dir, entries);
    if total == 0 {
        let first = seq![ReplyView::Writable];
        assert(replies =~= seq![ReplyView::Writable, ReplyView::Entries(entries)]);
        assert(replies.drop_last() =~= first);
        assert(first.drop_last() =~= Seq::<ReplyView>::empty());
        assert(run(job, first) == continued(run(job, first.drop_last()), first.last()));
        assert(run(job, replies) == continued(run(job, first), replies.last()));
        assert(run(job, replies).requests =~= opening_requests(job) + all + seq![
            RequestView::Stop,
        ]);
    } else {
        let earlier = faithful_replies(entries, (total - 1) as nat);
        assert(replies.drop_last() =~= earlier);
        assert(replies.last() == ReplyView::Done);
        lemma_faithful_run_step(job, entries, (total - 1) as nat);
        assert(run(job, replies) == continued(run(job, earlier), ReplyView::Done));
        assert(all.take(total as int) =~= all);
        assert(run(job, replies).requests =~= opening_requests(job) + all + seq![
            RequestView::Stop,
        ]);
    }
}

/// A job that contains its paths never takes on an archive with an entry that
/// leads out of the output directory. So in every run of such a job, whatever
/// the archive and however the run goes, each directory it asks to create and
/// each file it asks to write belongs to an entry whose name stays inside: the
/// path of the request starts with the output directory, and read segment by
/// segment it never climbs above it.
pub proof fn lemma_contained_job_writes_inside(job: JobView, replies: Seq<ReplyView>)
    requires
        is_fresh(job),
        job.policy == PathPolicy::Contained,
    ensures
        ({
            let trace = run(job, replies);
            &&& trace.job.policy == PathPolicy::Contained
            &&& trace.job.output_dir == job.output_dir
            &&& all_stay_inside(trace.job.entries)
            &&& trace.job.stage matches Stage::Extracting { index } ==> {
                let name = trace.job.entries[index as int].name;
                &&& index < trace.job.entries.len()
                &&& stays_inside(name)
                &&& job.output_dir.is_prefix_of(joined(job.output_dir, name))
                &&& trace.requests.last() == entry_request(
                    job.output_dir,
                    trace.job.entries,
                    index as int,
                )
            }
        }),
    decreases replies.len(),
{
    if replies.len() > 0 {
        lemma_contained_job_writes_inside(job, replies.drop_last());
    }
    let trace = run(job, replies);
    if let Stage::Extracting { index } = trace.job.stage {
        lemma_entries_are_in_range(job, replies);
        lemma_joined_starts_with_dir(job.output_dir, trace.job.entries[index as int].name);
    }
}

/// The entry that a job waits for is one of its entries.
proof fn lemma_entries_are_in_range(job: JobView, replies: Seq<ReplyView>)
    requires
        is_fresh(job),
    ensures
        run(job, replies).job.stage matches Stage::Extracting { index } ==> index < run(
            job,
            replies,
        ).job.entries.len(),
    decreases replies.len(),
{
    if replies.len() > 0 {
        lemma_entries_are_in_range(job, replies.drop_last());
    }
}

} // verus!
