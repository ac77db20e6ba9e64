//! Whole runs of a listing, and what holds of every one of them.

use vstd::prelude::*;
use crate::category::category_of;
use crate::entry::EntryView;
use crate::error::ExtractionError;
use crate::format::{
    format_of_path, lemma_unrecognized_extension_is_unsupported, path_extension, ArchiveFormat,
};
use crate::listing::{
    catalog_row, lemma_next_with_body, listing_handled, listing_request, listing_started,
    next_with_body, presented_rows, summary_row, walked_on, wants_body, ListingStage, ListingView,
    RowView,
};
use crate::protocol::{replies_fit, ReplyView, RequestView};

verus! {

/// What a run of a listing has come to: the listing, and every request it has
/// made, oldest first.
pub struct ListingTrace {
    pub listing: ListingView,
    pub requests: Seq<RequestView>,
}

/// The trace of the run that starts `listing` and then hands it `replies`, in
/// order.
pub open spec fn listing_run(listing: ListingView, replies: Seq<ReplyView>) -> ListingTrace
    decreases replies.len(),
{
    if replies.len() == 0 {
        let first = listing_started(listing);
        ListingTrace { listing: first, requests: seq![listing_request(first)] }
    } else {
        let before = listing_run(listing, replies.drop_last());
        let next = listing_handled(before.listing, replies.last());
        ListingTrace { listing: next, requests: before.requests.push(listing_request(next)) }
    }
}

/// A listing as `new` makes it: idle, without entries or rows.
pub open spec fn is_fresh_listing(listing: ListingView) -> bool {
    &&& listing.stage == ListingStage::Idle
    &&& listing.entries.len() == 0
    &&& listing.rows.len() == 0
}

/// Row `j` belongs to entry `j`: it carries the name of the entry and the
/// category of that name, and where the preview does not show the body it is
/// the summary row of the entry.
pub open spec fn row_fits_entry(row: RowView, entry: EntryView) -> bool {
    &&& row.name == entry.name
    &&& row.category == category_of(entry.name)
    &&& !wants_body(entry) ==> row == summary_row(entry)
}

/// The shape of every listing that is under way: the catalog holds one row for
/// each entry that was walked, in archive order; a body is waited for only at
/// an entry whose preview shows it; and a finished catalog covers every entry.
pub open spec fn tidy(listing: ListingView) -> bool {
    &&& listing.entries.len() <= usize::MAX
    &&& listing.rows.len() <= listing.entries.len()
    &&& forall|j: int|
        0 <= j < listing.rows.len() ==> row_fits_entry(
            #[trigger] listing.rows[j],
            listing.entries[j],
        )
    &&& match listing.stage {
        ListingStage::Idle => false,
        ListingStage::OpeningArchive => listing.rows.len() == 0,
        ListingStage::ReadingBody { index } => {
            &&& index < listing.entries.len()
            &&& listing.rows.len() == index
            &&& wants_body(listing.entries[index as int])
        },
        ListingStage::Finished => listing.rows.len() == listing.entries.len(),
        ListingStage::Failed { .. } => true,
    }
}

/// Walking on from the end of a catalog that fits its entries keeps it so.
proof fn lemma_walked_on_is_tidy(listing: ListingView, from: int)
    requires
        listing.entries.len() <= usize::MAX,
        0 <= from <= listing.entries.len(),
        listing.rows.len() == from,
        forall|j: int|
            0 <= j < from ==> row_fits_entry(#[trigger] listing.rows[j], listing.entries[j]),
    ensures
        tidy(walked_on(listing, from)),
        walked_on(listing, from).rows.len() == next_with_body(listing.entries, from),
{
    lemma_next_with_body(listing.entries, from);
    let after = walked_on(listing, from);
    assert forall|j: int| 0 <= j < after.rows.len() implies row_fits_entry(
        #[trigger] after.rows[j],
        after.entries[j],
    ) by {
        if j < from {
            assert(after.rows[j] == listing.rows[j]);
        } else {
            assert(after.rows[j] == summary_row(listing.entries[from + (j - from)]));
            assert(!wants_body(listing.entries[j]));
        }
    }
}

/// Every run of a fresh listing is tidy.
pub proof fn lemma_listing_run_is_tidy(listing: ListingView, replies: Seq<ReplyView>)
    requires
        is_fresh_listing(listing),
        replies_fit(replies),
    ensures
        tidy(listing_run(listing, replies).listing),
    decreases replies.len(),
{
    if replies.len() > 0 {
        let earlier = replies.drop_last();
        assert forall|i: int| 0 <= i < earlier.len() implies (#[trigger] earlier[i] matches ReplyView::Entries(
            entries,
        ) ==> entries.len() <= usize::MAX) by {
            assert(earlier[i] == replies[i]);
        }
        lemma_listing_run_is_tidy(listing, earlier);
        let before = listing_run(listing, earlier).listing;
        let reply = replies.last();
        assert(reply == replies[replies.len() - 1]);
        match before.stage {
            ListingStage::OpeningArchive => {
                if let ReplyView::Entries(entries) = reply {
                    lemma_walked_on_is_tidy(
                        ListingView { entries, rows: Seq::empty(), ..before },
                        0,
                    );
                }
            },
            ListingStage::ReadingBody { index } => {
                if let ReplyView::Body(body) = reply {
                    let pushed = ListingView {
                        rows: before.rows.push(catalog_row(before.entries[index as int], body)),
                        ..before
                    };
                    assert forall|j: int| 0 <= j < index + 1 implies row_fits_entry(
                        #[trigger] pushed.rows[j],
                        pushed.entries[j],
                    ) by {
                        if j < index {
                            assert(pushed.rows[j] == before.rows[j]);
                        }
                    }
                    lemma_walked_on_is_tidy(pushed, index + 1);
                }
            },
            _ => {},
        }
    }
}

/// A listing that finishes has one row for every entry of the archive, in
/// archive order. Each row carries the name of its entry and the category of
/// that name, and where the preview does not show the body it is the summary
/// line of the entry.
pub proof fn lemma_finished_catalog_covers_every_entry(
    listing: ListingView,
    replies: Seq<ReplyView>,
)
    requires
        is_fresh_listing(listing),
        replies_fit(replies),
        listing_run(listing, replies).listing.stage == ListingStage::Finished,
    ensures
        ({
            let catalog = presented_rows(listing_run(listing, replies).listing);
            let entries = listing_run(listing, replies).listing.entries;
            &&& catalog.len() == entries.len()
            &&& forall|j: int|
                0 <= j < catalog.len() ==> row_fits_entry(#[trigger] catalog[j], entries[j])
        }),
{
    lemma_listing_run_is_tidy(listing, replies);
}

/// A body is only ever asked for at an entry whose preview shows it: the
/// bytes of any other entry are never read for the catalog.
pub proof fn lemma_only_shown_bodies_are_read(listing: ListingView, replies: Seq<ReplyView>)
    requires
        is_fresh_listing(listing),
        replies_fit(replies),
    ensures
        ({
            let trace = listing_run(listing, replies);
            &&& trace.requests.len() == replies.len() + 1
            &&& trace.requests.last() matches RequestView::ReadBody { index } ==> {
                &&& index < trace.listing.entries.len()
                &&& wants_body(trace.listing.entries[index as int])
            }
        }),
    decreases replies.len(),
{
    lemma_listing_run_is_tidy(listing, replies);
    if replies.len() > 0 {
        let earlier = replies.drop_last();
        assert forall|i: int| 0 <= i < earlier.len() implies (#[trigger] earlier[i] matches ReplyView::Entries(
            entries,
        ) ==> entries.len() <= usize::MAX) by {
            assert(earlier[i] == replies[i]);
        }
        lemma_only_shown_bodies_are_read(listing, earlier);
    }
}

/// The bodies that a driver hands over while it answers a listing of
/// `entries`, up to the entry at `upto`: one for each entry whose preview
/// shows its body, in archive order. `bodies` holds the body of every entry.
pub open spec fn body_replies(entries: Seq<EntryView>, bodies: Seq<Seq<u8>>, upto: nat) -> Seq<
    ReplyView,
>
    decreases upto,
{
    if upto == 0 {
        Seq::empty()
    } else {
        let earlier = body_replies(entries, bodies, (upto - 1) as nat);
        if wants_body(entries[upto - 1]) {
            earlier.push(ReplyView::Body(bodies[upto - 1]))
        } else {
            earlier
        }
    }
}

/// The replies of a driver that opens the archive with `entries` and then
/// hands over the bodies that the listing asks for, up to the entry at `upto`.
pub open spec fn faithful_listing_replies(
    entries: Seq<EntryView>,
    bodies: Seq<Seq<u8>>,
    upto: nat,
) -> Seq<ReplyView> {
    seq![ReplyView::Entries(entries)] + body_replies(entries, bodies, upto)
}

/// The catalog of an archive with the given entries and bodies.
pub open spec fn catalog_of(entries: Seq<EntryView>, bodies: Seq<Seq<u8>>, upto: int) -> Seq<
    RowView,
> {
    Seq::new(upto as nat, |j: int| catalog_row(entries[j], bodies[j]))
}

/// Where a run stands once the bodies up to the entry at `upto` were handed
/// over: the catalog reaches up to the next entry whose body is needed.
proof fn lemma_faithful_listing_step(
    listing: ListingView,
    entries: Seq<EntryView>,
    bodies: Seq<Seq<u8>>,
    upto: nat,
)
    requires
        is_fresh_listing(listing),
        listing.format != ArchiveFormat::Unsupported,
        entries.len() <= usize::MAX,
        bodies.len() == entries.len(),
        upto <= entries.len(),
    ensures
        ({
            let reached = next_with_body(entries, upto as int);
            let after = listing_run(
                listing,
                faithful_listing_replies(entries, bodies, upto),
            ).listing;
            &&& after.entries == entries
            &&& after.archive_path == listing.archive_path
            &&& after.format == listing.format
            &&& after.rows == catalog_of(entries, bodies, reached)
            &&& after.stage == if reached < entries.len() {
                ListingStage::ReadingBody { index: reached as usize }
            } else {
                ListingStage::Finished
            }
        }),
    decreases upto,
{
    let replies = faithful_listing_replies(entries, bodies, upto);
    lemma_next_with_body(entries, upto as int);
    let reached = next_with_body(entries, upto as int);
    if upto == 0 {
        assert(replies =~= seq![ReplyView::Entries(entries)]);
        assert(replies.drop_last() =~= Seq::<ReplyView>::empty());
        let opened = ListingView { entries, rows: Seq::empty(), ..listing_started(listing) };
        assert(listing_run(listing, replies.drop_last()).listing == listing_started(listing));
        assert(replies.last() == ReplyView::Entries(entries));
        assert(listing_run(listing, replies).listing == listing_handled(
            listing_started(listing),
            replies.last(),
        ));
        assert(listing_run(listing, replies).listing == walked_on(opened, 0));
        assert(walked_on(opened, 0).rows =~= catalog_of(entries, bodies, reached));
    } else {
        let last = (upto - 1) as nat;
        let earlier = faithful_listing_replies(entries, bodies, last);
        lemma_faithful_listing_step(listing, entries, bodies, last);
        lemma_next_with_body(entries, last as int);
        if wants_body(entries[last as int]) {
            assert(next_with_body(entries, last as int) == last);
            assert(replies =~= earlier.push(ReplyView::Body(bodies[last as int])));
            assert(replies.drop_last() =~= earlier);
            let before = listing_run(listing, earlier).listing;
            let pushed = ListingView {
                rows: before.rows.push(catalog_row(entries[last as int], bodies[last as int])),
                ..before
            };
            assert(listing_run(listing, replies).listing == walked_on(pushed, upto as int));
            assert(walked_on(pushed, upto as int).rows =~= catalog_of(entries, bodies, reached));
        } else {
            assert(replies =~= earlier);
            assert(next_with_body(entries, last as int) == reached);
        }
    }
}

/// With a driver that succeeds at everything, a listing finishes with the
/// catalog of the archive: row `j` carries the name of entry `j`, the category
/// of that name, and as its preview the text of the body of the entry where
/// the entry is a text entry, and its summary line where it is not.
pub proof fn lemma_faithful_listing_yields_catalog(
    listing: ListingView,
    entries: Seq<EntryView>,
    bodies: Seq<Seq<u8>>,
)
    requires
        is_fresh_listing(listing),
        listing.format != ArchiveFormat::Unsupported,
        entries.len() <= usize::MAX,
        bodies.len() == entries.len(),
    ensures
        ({
            let after = listing_run(
                listing,
                faithful_listing_replies(entries, bodies, entries.len()),
            ).listing;
            &&& after.stage == ListingStage::Finished
            &&& presented_rows(after) == catalog_of(entries, bodies, entries.len() as int)
        }),
{
    lemma_faithful_listing_step(listing, entries, bodies, entries.len());
}

/// A listing that has ended stays as it is, and asks for nothing more.
pub proof fn lemma_ended_listing_stays(
    listing: ListingView,
    replies: Seq<ReplyView>,
    more: Seq<ReplyView>,
)
    requires
        listing_run(listing, replies).listing.stage is Finished || listing_run(
            listing,
            replies,
        ).listing.stage is Failed,
    ensures
        listing_run(listing, replies + more).listing == listing_run(listing, replies).listing,
        listing_run(listing, replies + more).requests.len() == replies.len() + more.len() + 1,
        forall|k: int|
            replies.len() <= k <= replies.len() + more.len() ==> #[trigger] listing_run(
                listing,
                replies + more,
            ).requests[k] == RequestView::Stop,
    decreases more.len(),
{
    if more.len() == 0 {
        assert(replies + more =~= replies);
        lemma_listing_requests(listing, replies);
    } else {
        let all = replies + more;
        assert(all.drop_last() =~= replies + more.drop_last());
        lemma_ended_listing_stays(listing, replies, more.drop_last());
    }
}

/// A run makes one request when it starts and one after every reply.
pub proof fn lemma_listing_requests(listing: ListingView, replies: Seq<ReplyView>)
    ensures
        listing_run(listing, replies).requests.len() == replies.len() + 1,
        listing_run(listing, replies).requests.last() == listing_request(
            listing_run(listing, replies).listing,
        ),
    decreases replies.len(),
{
    if replies.len() > 0 {
        lemma_listing_requests(listing, replies.drop_last());
    }
}

/// An archive whose path has an unrecognised extension fails the listing with
/// `UnsupportedFormat` as soon as it is started. The run never makes a request,
/// so the archive is never opened, and the catalog that is presented is empty.
pub proof fn lemma_unsupported_format_stops_listing(listing: ListingView, replies: Seq<ReplyView>)
    requires
        is_fresh_listing(listing),
        listing.format == ArchiveFormat::Unsupported,
    ensures
        ({
            let trace = listing_run(listing, replies);
            &&& trace.listing.stage == ListingStage::Failed {
                error: ExtractionError::UnsupportedFormat,
            }
            &&& trace.requests.len() == replies.len() + 1
            &&& forall|k: int| 0 <= k <= replies.len() ==> #[trigger] trace.requests[k] == RequestView::Stop
            &&& presented_rows(trace.listing) == Seq::<RowView>::empty()
        }),
{
    let none = Seq::<ReplyView>::empty();
    assert(none + replies =~= replies);
    lemma_ended_listing_stays(listing, none, replies);
}

/// A listing of an archive whose path has an extension other than `zip` and
/// `gz`, or none, fails with `UnsupportedFormat` without ever asking for the
/// archive, and presents an empty catalog.
pub proof fn lemma_unrecognized_extension_stops_listing(
    listing: ListingView,
    replies: Seq<ReplyView>,
)
    requires
        is_fresh_listing(listing),
        listing.format == format_of_path(listing.archive_path),
        path_extension(listing.archive_path) != Some("zip"@),
        path_extension(listing.archive_path) != Some("gz"@),
    ensures
        ({
            let trace = listing_run(listing, replies);
            &&& trace.listing.stage == ListingStage::Failed {
                error: ExtractionError::UnsupportedFormat,
            }
            &&& forall|k: int| 0 <= k <= replies.len() ==> #[trigger] trace.requests[k] == RequestView::Stop
            &&& presented_rows(trace.listing) == Seq::<RowView>::empty()
        }),
{
    lemma_unrecognized_extension_is_unsupported(path_extension(listing.archive_path));
    lemma_unsupported_format_stops_listing(listing, replies);
}

} // verus!
