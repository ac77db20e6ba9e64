//! The inspection of an archive: its catalog, one row per entry.
//!
//! A listing is a state machine like an extraction job. It asks for the
//! entries of the archive, then walks them in archive order. The body of an
//! entry is asked for only where the preview shows it; every other row is made
//! from the name and the declared size alone.

use vstd::prelude::*;
use crate::category::{category_of, Category};
use crate::entry::{entry_views, ArchiveEntry, EntryView};
use crate::error::{error_of_fault, ExtractionError};
use crate::format::{format_of_path, ArchiveFormat};
use crate::preview::{needs_body, preview, preview_text, shows_body, summary};
use crate::protocol::{Reply, ReplyView, Request, RequestView};

verus! {

/// One row of the catalog of an archive.
#[derive(Debug)]
pub struct CatalogRow {
    pub name: String,
    pub category: Category,
    /// The text of a text entry, or the summary line of any other entry.
    pub preview: String,
}

/// A row as plain values.
pub struct RowView {
    pub name: Seq<char>,
    pub category: Category,
    pub preview: Seq<char>,
}

impl View for CatalogRow {
    type V = RowView;

    open spec fn view(&self) -> RowView {
        RowView { name: self.name@, category: self.category, preview: self.preview@ }
    }
}

impl Clone for CatalogRow {
    fn clone(&self) -> (copy: Self)
        ensures
            copy@ == self@,
    {
        CatalogRow {
            name: self.name.clone(),
            category: self.category,
            preview: self.preview.clone(),
        }
    }
}

/// The views of a sequence of rows, in order.
pub open spec fn row_views(rows: Seq<CatalogRow>) -> Seq<RowView> {
    rows.map_values(|row: CatalogRow| row@)
}

/// The row of `entry`, whose body holds `body`: its name, the category of that
/// name, and the preview of an entry of that category.
pub open spec fn catalog_row(entry: EntryView, body: Seq<u8>) -> RowView {
    RowView {
        name: entry.name,
        category: category_of(entry.name),
        preview: preview_text(category_of(entry.name), entry.size, body),
    }
}

/// The row of an entry whose preview does not show its body.
pub open spec fn summary_row(entry: EntryView) -> RowView {
    catalog_row(entry, Seq::empty())
}

/// Whether the body of `entry` has to be read for its row.
pub open spec fn wants_body(entry: EntryView) -> bool {
    shows_body(category_of(entry.name))
}

/// The index of the first entry from `from` on whose body has to be read, or
/// the number of entries where there is none.
pub open spec fn next_with_body(entries: Seq<EntryView>, from: int) -> int
    decreases entries.len() - from,
{
    if from >= entries.len() {
        entries.len() as int
    } else if wants_body(entries[from]) {
        from
    } else {
        next_with_body(entries, from + 1)
    }
}

/// Where a listing stands.
#[derive(Clone, Copy, Debug, PartialEq, Eq, Structural)]
pub enum ListingStage {
    /// Created, not started.
    Idle,
    /// Waiting for the entries of the archive.
    OpeningArchive,
    /// Waiting for the body of the entry at `index`.
    ReadingBody { index: usize },
    /// The catalog is complete.
    Finished,
    /// The listing was aborted.
    Failed { error: ExtractionError },
}

/// One inspection of one archive.
pub struct Listing {
    archive_path: String,
    format: ArchiveFormat,
    stage: ListingStage,
    entries: Vec<ArchiveEntry>,
    rows: Vec<CatalogRow>,
}

/// A listing as plain values.
pub struct ListingView {
    pub archive_path: Seq<char>,
    pub format: ArchiveFormat,
    pub stage: ListingStage,
    pub entries: Seq<EntryView>,
    pub rows: Seq<RowView>,
}

/// The request that a listing is waiting on. A listing that has not started or
/// has ended waits on nothing.
pub open spec fn listing_request(listing: ListingView) -> RequestView {
    match listing.stage {
        ListingStage::OpeningArchive => RequestView::OpenArchive {
            archive_path: listing.archive_path,
            format: listing.format,
        },
        ListingStage::ReadingBody { index } => RequestView::ReadBody { index },
        _ => RequestView::Stop,
    }
}

/// The listing after it was aborted with `error`.
pub open spec fn listing_failed(listing: ListingView, error: ExtractionError) -> ListingView {
    ListingView { stage: ListingStage::Failed { error }, ..listing }
}

/// The listing after it has walked on from the entry at `from`: every entry up
/// to the next one whose body has to be read got its summary row, and the
/// listing waits for that body, or is finished where no such entry is left.
pub open spec fn walked_on(listing: ListingView, from: int) -> ListingView {
    let upto = next_with_body(listing.entries, from);
    ListingView {
        stage: if upto < listing.entries.len() {
            ListingStage::ReadingBody { index: upto as usize }
        } else {
            ListingStage::Finished
        },
        rows: listing.rows + Seq::new(
            (upto - from) as nat,
            |i: int| summary_row(listing.entries[from + i]),
        ),
        ..listing
    }
}

/// What starting does to a listing. An archive of an unsupported format fails
/// it on the spot, before any request. A listing that was started before is
/// left as it is.
pub open spec fn listing_started(listing: ListingView) -> ListingView {
    if listing.stage != ListingStage::Idle {
        listing
    } else if listing.format == ArchiveFormat::Unsupported {
        listing_failed(listing, ExtractionError::UnsupportedFormat)
    } else {
        ListingView { stage: ListingStage::OpeningArchive, ..listing }
    }
}

/// What a reply does to a listing. A listing that has not started or has ended
/// ignores it.
pub open spec fn listing_handled(listing: ListingView, reply: ReplyView) -> ListingView {
    match listing.stage {
        ListingStage::OpeningArchive => match reply {
            ReplyView::Entries(entries) => walked_on(
                ListingView { entries, rows: Seq::empty(), ..listing },
                0,
            ),
            ReplyView::Failed(fault) => listing_failed(listing, error_of_fault(fault)),
            _ => listing_failed(listing, ExtractionError::Unknown),
        },
        ListingStage::ReadingBody { index } => match reply {
            ReplyView::Body(body) => walked_on(
                ListingView {
                    rows: listing.rows.push(catalog_row(listing.entries[index as int], body)),
                    ..listing
                },
                index + 1,
            ),
            ReplyView::Failed(fault) => listing_failed(listing, error_of_fault(fault)),
            _ => listing_failed(listing, ExtractionError::Unknown),
        },
        _ => listing,
    }
}

/// The catalog that a listing presents: its rows once it is finished, and no
/// row at all before that or after a failure.
pub open spec fn presented_rows(listing: ListingView) -> Seq<RowView> {
    if listing.stage == ListingStage::Finished {
        listing.rows
    } else {
        Seq::empty()
    }
}

/// The outcome of a listing: nothing while it has not ended, then its rows or
/// the error that aborted it.
pub open spec fn listing_outcome(listing: ListingView) -> Option<Result<Seq<RowView>, ExtractionError>> {
    match listing.stage {
        ListingStage::Finished => Some(Ok(listing.rows)),
        ListingStage::Failed { error } => Some(Err(error)),
        _ => None,
    }
}

/// Where `next_with_body` points: at or after `from`, never past the end, with
/// no entry before it whose body has to be read, and at such an entry unless
/// it is the end.
pub proof fn lemma_next_with_body(entries: Seq<EntryView>, from: int)
    requires
        0 <= from <= entries.len(),
    ensures
        from <= next_with_body(entries, from) <= entries.len(),
        forall|i: int| from <= i < next_with_body(entries, from) ==> !wants_body(#[trigger] entries[i]),
        next_with_body(entries, from) < entries.len() ==> wants_body(
            entries[next_with_body(entries, from)],
        ),
    decreases entries.len() - from,
{
    if from < entries.len() && !wants_body(entries[from]) {
        lemma_next_with_body(entries, from + 1);
    }
}

impl View for Listing {
    type V = ListingView;

    closed spec fn view(&self) -> ListingView {
        ListingView {
            archive_path: self.archive_path@,
            format: self.format,
            stage: self.stage,
            entries: entry_views(self.entries@),
            rows: row_views(self.rows@),
        }
    }
}

impl Listing {
    #[verifier::type_invariant]
    spec fn well_formed(self) -> bool {
        self.stage matches ListingStage::ReadingBody { index } ==> index < self.entries.len()
    }

    /// An idle listing of the archive at `archive_path`. Its format is told
    /// from the extension of the path.
    pub fn new(archive_path: &str) -> (listing: Listing)
        ensures
            listing@ == (ListingView {
                archive_path: archive_path@,
                format: format_of_path(archive_path@),
                stage: ListingStage::Idle,
                entries: Seq::empty(),
                rows: Seq::empty(),
            }),
    {
        Listing::with_format(archive_path, ArchiveFormat::from_path(archive_path))
    }

    /// An idle listing of an archive whose format is already known.
    pub fn with_format(archive_path: &str, format: ArchiveFormat) -> (listing: Listing)
        ensures
            listing@ == (ListingView {
                archive_path: archive_path@,
                format,
                stage: ListingStage::Idle,
                entries: Seq::empty(),
                rows: Seq::empty(),
            }),
    {
        let listing = Listing {
            archive_path: archive_path.to_owned(),
            format,
            stage: ListingStage::Idle,
            entries: Vec::new(),
            rows: Vec::new(),
        };
        assert(entry_views(listing.entries@) =~= Seq::empty());
        assert(row_views(listing.rows@) =~= Seq::empty());
        listing
    }

    /// The request that the listing is waiting on.
    pub fn pending(&self) -> (request: Request)
        ensures
            request@ == listing_request(self@),
    {
        match self.stage {
            ListingStage::OpeningArchive => Request::OpenArchive {
                archive_path: self.archive_path.clone(),
                format: self.format,
            },
            ListingStage::ReadingBody { index } => Request::ReadBody { index },
            _ => Request::Stop,
        }
    }

    /// Starts the listing and names its first request. An archive of an
    /// unsupported format fails the listing here, before anything is asked of
    /// the driver. Starting a listing a second time changes nothing.
    pub fn start(&mut self) -> (request: Request)
        ensures
            final(self)@ == listing_started(old(self)@),
            request@ == listing_request(final(self)@),
    {
        match self.stage {
            ListingStage::Idle => {
                match self.format {
                    ArchiveFormat::Unsupported => {
                        self.stage = ListingStage::Failed {
                            error: ExtractionError::UnsupportedFormat,
                        };
                    },
                    _ => {
                        self.stage = ListingStage::OpeningArchive;
                    },
                }
            },
            _ => {},
        }
        self.pending()
    }

    /// Continues the catalog `rows`: gives every entry from `from` up to the
    /// next one whose body has to be read its summary row, and waits for that
    /// body or finishes.
    fn walk_on(&mut self, rows: Vec<CatalogRow>, from: usize)
        requires
            from <= old(self).entries.len(),
        ensures
            final(self)@ == walked_on(
                ListingView { rows: row_views(rows@), ..old(self)@ },
                from as int,
            ),
    {
        let mut rows = rows;
        let ghost first = row_views(rows@);
        let total = self.entries.len();
        let mut at: usize = from;
        let mut found = false;
        proof {
            lemma_next_with_body(self@.entries, from as int);
            assert(first + Seq::new(0, |i: int| summary_row(self@.entries[from + i])) =~= first);
        }
        while at < total && !found
            invariant
                from <= at <= total,
                total == self.entries.len(),
                self == old(self),
                next_with_body(self@.entries, at as int) == next_with_body(
                    self@.entries,
                    from as int,
                ),
                found ==> at < total && wants_body(self@.entries[at as int]),
                row_views(rows@) == first + Seq::new(
                    (at - from) as nat,
                    |i: int| summary_row(self@.entries[from + i]),
                ),
            decreases total - at, if found { 0int } else { 1int },
        {
            let entry = &self.entries[at];
            let category = entry.category();
            assert(entry@ == self@.entries[at as int]);
            if needs_body(category) {
                found = true;
            } else {
                let row = CatalogRow {
                    name: entry.name.clone(),
                    category,
                    preview: summary(category, entry.size),
                };
                assert(row@ == summary_row(self@.entries[at as int]));
                let ghost before = row_views(rows@);
                rows.push(row);
                assert(row_views(rows@) =~= before.push(row@));
                assert(row_views(rows@) =~= first + Seq::new(
                    (at + 1 - from) as nat,
                    |i: int| summary_row(self@.entries[from + i]),
                ));
                at += 1;
            }
        }
        proof {
            use_type_invariant(&*self);
        }
        self.rows = rows;
        if found {
            self.stage = ListingStage::ReadingBody { index: at };
        } else {
            self.stage = ListingStage::Finished;
        }
    }

    /// Takes the reply to the pending request and names the next request.
    ///
    /// While the archive is being opened, only `Entries` lets the listing go
    /// on; while a body is being read, only `Body` does, and it becomes the
    /// preview of that entry. Either way the listing then walks on to the next
    /// entry whose body it needs, or finishes. A `Failed` reply aborts the
    /// listing with the error that its fault stands for, and any other reply
    /// that does not answer the pending request with `Unknown`. A listing that
    /// has not started or has ended ignores the reply.
    pub fn handle(&mut self, reply: Reply) -> (request: Request)
        ensures
            final(self)@ == listing_handled(old(self)@, reply@),
            request@ == listing_request(final(self)@),
    {
        proof {
            use_type_invariant(&*self);
        }
        match self.stage {
            ListingStage::OpeningArchive => {
                match reply {
                    Reply::Entries(entries) => {
                        self.entries = entries;
                        let rows: Vec<CatalogRow> = Vec::new();
                        assert(row_views(rows@) =~= Seq::empty());
                        self.walk_on(rows, 0);
                    },
                    Reply::Failed(fault) => {
                        self.stage = ListingStage::Failed { error: fault.to_error() };
                    },
                    _ => {
                        self.stage = ListingStage::Failed { error: ExtractionError::Unknown };
                    },
                }
            },
            ListingStage::ReadingBody { index } => {
                match reply {
                    Reply::Body(body) => {
                        let entry = &self.entries[index];
                        let category = entry.category();
                        let row = CatalogRow {
                            name: entry.name.clone(),
                            category,
                            preview: preview(entry, category, body.as_slice()),
                        };
                        let mut rows: Vec<CatalogRow> = Vec::new();
                        std::mem::swap(&mut self.rows, &mut rows);
                        let ghost before = row_views(rows@);
                        rows.push(row);
                        assert(row_views(rows@) =~= before.push(row@));
                        self.walk_on(rows, index + 1);
                    },
                    Reply::Failed(fault) => {
                        self.stage = ListingStage::Failed { error: fault.to_error() };
                    },
                    _ => {
                        self.stage = ListingStage::Failed { error: ExtractionError::Unknown };
                    },
                }
            },
            _ => {},
        }
        self.pending()
    }

    /// Ends the listing and hands out its outcome: nothing while it has not
    /// ended, then the catalog or the error that aborted it.
    pub fn outcome(self) -> (outcome: Option<Result<Vec<CatalogRow>, ExtractionError>>)
        ensures
            match outcome {
                Some(Ok(rows)) => listing_outcome(self@) == Some(
                    Ok::<Seq<RowView>, ExtractionError>(row_views(rows@)),
                ),
                Some(Err(error)) => listing_outcome(self@) == Some(
                    Err::<Seq<RowView>, ExtractionError>(error),
                ),
                None => listing_outcome(self@) is None,
            },
    {
        match self.stage {
            ListingStage::Finished => Some(Ok(self.rows)),
            ListingStage::Failed { error } => Some(Err(error)),
            _ => None,
        }
    }

    /// Ends the listing and hands out the catalog to present. A failure is
    /// swallowed here: a listing that did not finish presents an empty catalog.
    pub fn into_catalog(self) -> (rows: Vec<CatalogRow>)
        ensures
            row_views(rows@) == presented_rows(self@),
    {
        match self.stage {
            ListingStage::Finished => self.rows,
            _ => {
                let rows: Vec<CatalogRow> = Vec::new();
                assert(row_views(rows@) =~= Seq::empty());
                rows
            },
        }
    }

    /// Where the listing stands.
    pub fn stage(&self) -> (stage: ListingStage)
        ensures
            stage == self@.stage,
    {
        self.stage
    }
}

} // verus!
