//! What a job asks of its driver, and what the driver answers.
//!
//! A job never touches the archive or the disk. It hands its driver one request
//! at a time; the driver performs it and calls the job again with the reply.

use vstd::prelude::*;
use crate::entry::{entry_views, ArchiveEntry, EntryView};
use crate::error::Fault;
use crate::format::ArchiveFormat;

verus! {

/// One operation for the driver to perform.
#[derive(Debug)]
pub enum Request {
    /// Stat the output directory and tell whether its permission bits mark it
    /// read-only.
    CheckWritable { output_dir: String },
    /// Open the archive as a container of the given format and enumerate its
    /// entries, in archive order.
    OpenArchive { archive_path: String, format: ArchiveFormat },
    /// Read the whole body of the entry at `index` of the enumeration.
    ReadBody { index: usize },
    /// Create the directory at `path` with any missing ancestors, and clear its
    /// read-only bit.
    CreateDirectory { path: String },
    /// Create the missing ancestors of `path`, create or truncate the file
    /// there, clear its read-only bit and stream the body of the entry at
    /// `index` into it.
    WriteFile { index: usize, path: String },
    /// Nothing is left to do.
    Stop,
}

/// A request as plain values.
pub enum RequestView {
    CheckWritable { output_dir: Seq<char> },
    OpenArchive { archive_path: Seq<char>, format: ArchiveFormat },
    ReadBody { index: usize },
    CreateDirectory { path: Seq<char> },
    WriteFile { index: usize, path: Seq<char> },
    Stop,
}

impl View for Request {
    type V = RequestView;

    open spec fn view(&self) -> RequestView {
        match *self {
            Request::CheckWritable { output_dir } => RequestView::CheckWritable {
                output_dir: output_dir@,
            },
            Request::OpenArchive { archive_path, format } => RequestView::OpenArchive {
                archive_path: archive_path@,
                format,
            },
            Request::ReadBody { index } => RequestView::ReadBody { index },
            Request::CreateDirectory { path } => RequestView::CreateDirectory { path: path@ },
            Request::WriteFile { index, path } => RequestView::WriteFile { index, path: path@ },
            Request::Stop => RequestView::Stop,
        }
    }
}

/// How the operation that a job asked for went.
#[derive(Debug)]
pub enum Reply {
    /// The output directory is not marked read-only.
    Writable,
    /// The output directory is marked read-only.
    ReadOnly,
    /// The archive was opened; these are its entries, in archive order.
    Entries(Vec<ArchiveEntry>),
    /// The body of the entry that was asked for.
    Body(Vec<u8>),
    /// The directory or the file was written.
    Done,
    /// The operation failed.
    Failed(Fault),
}

/// A reply as plain values.
pub enum ReplyView {
    Writable,
    ReadOnly,
    Entries(Seq<EntryView>),
    Body(Seq<u8>),
    Done,
    Failed(Fault),
}

impl View for Reply {
    type V = ReplyView;

    open spec fn view(&self) -> ReplyView {
        match *self {
            Reply::Writable => ReplyView::Writable,
            Reply::ReadOnly => ReplyView::ReadOnly,
            Reply::Entries(entries) => ReplyView::Entries(entry_views(entries@)),
            Reply::Body(bytes) => ReplyView::Body(bytes@),
            Reply::Done => ReplyView::Done,
            Reply::Failed(fault) => ReplyView::Failed(fault),
        }
    }
}

/// Every enumeration among the replies is one that a driver can hand over: its
/// length fits the machine's index type.
pub open spec fn replies_fit(replies: Seq<ReplyView>) -> bool {
    forall|i: int|
        0 <= i < replies.len() ==> (#[trigger] replies[i] matches ReplyView::Entries(entries)
            ==> entries.len() <= usize::MAX)
}

} // verus!
