//! The container format of an archive, told from the extension of its path.
//!
//! Nothing but the extension decides: the content of the file is never looked
//! at.

use vstd::prelude::*;
use crate::text::same_text;

verus! {

/// The container formats.
#[derive(Clone, Copy, Debug, PartialEq, Eq, Structural)]
pub enum ArchiveFormat {
    /// A ZIP archive, read through its central directory.
    Zip,
    /// A TAR archive inside a gzip stream, read front to back.
    GzipTar,
    /// Anything else.
    Unsupported,
}

/// The extension of the file name in `path`, as `std::path::Path::extension`
/// gives it.
pub uninterp spec fn path_extension(path: Seq<char>) -> Option<Seq<char>>;

/// The format that an extension stands for: `zip` and `gz`, in lower case, are
/// the two that are supported.
pub open spec fn format_of_extension(ext: Option<Seq<char>>) -> ArchiveFormat {
    match ext {
        Some(text) => if text == "zip"@ {
            ArchiveFormat::Zip
        } else if text == "gz"@ {
            ArchiveFormat::GzipTar
        } else {
            ArchiveFormat::Unsupported
        },
        None => ArchiveFormat::Unsupported,
    }
}

/// The format of the archive at `path`.
pub open spec fn format_of_path(path: Seq<char>) -> ArchiveFormat {
    format_of_extension(path_extension(path))
}

/// Calls `std::path::Path::extension` on `path`. Nothing is proved of the
/// result: the contract only gives it the name `path_extension`, which says
/// that it depends on the characters of the path alone.
#[verifier::external_body]
fn extension_in_path(path: &str) -> (ext: Option<String>)
    ensures
        match ext {
            Some(text) => path_extension(path@) == Some(text@),
            None => path_extension(path@) is None,
        },
{
    let ext = std::path::Path::new(path).extension()?;
    Some(ext.to_string_lossy().into_owned())
}

impl ArchiveFormat {
    /// The format that the extension `ext` of an archive path stands for.
    pub fn from_extension(ext: Option<&str>) -> (format: ArchiveFormat)
        ensures
            format == format_of_extension(
                match ext {
                    Some(text) => Some(text@),
                    None => None,
                },
            ),
    {
        match ext {
            Some(text) => {
                if same_text(text, "zip") {
                    ArchiveFormat::Zip
                } else if same_text(text, "gz") {
                    ArchiveFormat::GzipTar
                } else {
                    ArchiveFormat::Unsupported
                }
            },
            None => ArchiveFormat::Unsupported,
        }
    }

    /// The format of the archive at `path`, by the extension of the path.
    pub fn from_path(path: &str) -> (format: ArchiveFormat)
        ensures
            format == format_of_path(path@),
    {
        match extension_in_path(path) {
            Some(text) => ArchiveFormat::from_extension(Some(text.as_str())),
            None => ArchiveFormat::from_extension(None),
        }
    }

    /// Tells whether archives of this format can be read.
    pub fn is_supported(&self) -> (supported: bool)
        ensures
            supported == (*self != ArchiveFormat::Unsupported),
    {
        match self {
            ArchiveFormat::Unsupported => false,
            _ => true,
        }
    }
}

/// An extension other than `zip` and `gz` stands for no supported format,
/// and so does a path without an extension.
pub proof fn lemma_unrecognized_extension_is_unsupported(ext: Option<Seq<char>>)
    requires
        ext != Some("zip"@),
        ext != Some("gz"@),
    ensures
        format_of_extension(ext) == ArchiveFormat::Unsupported,
{
}

} // verus!
