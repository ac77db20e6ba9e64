//! What the catalog shows of an entry.
//!
//! The body of a text entry is shown as text. Of any other entry only a summary
//! line is shown, made from its category and its declared size: its bytes are
//! never read for that.

use vstd::prelude::*;
use vstd::string::StringExecFns;
use crate::category::Category;
use crate::entry::ArchiveEntry;
use crate::text::{decimal, decimal_string, decode_lossy, lossy_text};

verus! {

/// Whether the preview of an entry of this category is made from its body.
pub open spec fn shows_body(category: Category) -> bool {
    category == Category::Text
}

/// The summary line of an entry: `Type: <category> | Size: <size> bytes`.
pub open spec fn summary_text(category: Category, size: u64) -> Seq<char> {
    "Type: "@ + category.title_text() + " | Size: "@ + decimal(size as nat) + " bytes"@
}

/// The preview of an entry of the given category and declared size whose body
/// holds `body`.
pub open spec fn preview_text(category: Category, size: u64, body: Seq<u8>) -> Seq<char> {
    if shows_body(category) {
        lossy_text(body)
    } else {
        summary_text(category, size)
    }
}

/// Tells whether the preview of an entry of this category is made from its
/// body, so that the body has to be read.
pub fn needs_body(category: Category) -> (needed: bool)
    ensures
        needed == shows_body(category),
{
    match category {
        Category::Text => true,
        _ => false,
    }
}

/// The summary line of an entry of the given category and declared size.
pub fn summary(category: Category, size: u64) -> (line: String)
    ensures
        line@ == summary_text(category, size),
{
    let mut line = "Type: ".to_owned();
    line.append(category.title());
    line.append(" | Size: ");
    let digits = decimal_string(size);
    line.append(digits.as_str());
    line.append(" bytes");
    line
}

/// The preview of `entry`, taken as an entry of the given category. For a text
/// entry it is the whole of `body`, decoded as UTF-8 with invalid sequences
/// replaced. For any other entry it is the summary line, and `body` is not
/// looked at.
pub fn preview(entry: &ArchiveEntry, category: Category, body: &[u8]) -> (shown: String)
    ensures
        shown@ == preview_text(category, entry@.size, body@),
        shows_body(category) && vstd::utf8::valid_utf8(body@) ==> shown@ == vstd::utf8::decode_utf8(
            body@,
        ),
{
    if needs_body(category) {
        decode_lossy(body)
    } else {
        summary(category, entry.size)
    }
}

} // verus!
