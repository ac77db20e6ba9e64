//! Classification of archive entries by name.
//!
//! An entry is classified from its name alone: a name that ends with the path
//! separator is a folder, every other name goes by what follows its last dot.

use vstd::prelude::*;
use crate::text::{chars_of, same_text, tail_equals};

verus! {

/// The content category that an entry is shown under.
#[derive(Clone, Copy, Debug, PartialEq, Eq, Structural)]
pub enum Category {
    Folder,
    Text,
    Image,
    Pdf,
    Archive,
    Audio,
    Video,
    Executable,
    Generic,
}

/// The position just past the last dot of `name`, or 0 where it has none.
pub open spec fn extension_start(name: Seq<char>) -> nat
    decreases name.len(),
{
    if name.len() == 0 {
        0
    } else if name.last() == '.' {
        name.len()
    } else {
        extension_start(name.drop_last())
    }
}

/// What follows the last dot of `name`; `None` where it has no dot.
pub open spec fn extension(name: Seq<char>) -> Option<Seq<char>> {
    if extension_start(name) == 0 {
        None
    } else {
        Some(name.skip(extension_start(name) as int))
    }
}

/// The fixed table from extensions to categories. It is case-sensitive, and
/// whatever it does not list is generic.
pub open spec fn category_of_extension(ext: Seq<char>) -> Category {
    if ext == "txt"@ {
        Category::Text
    } else if ext == "jpg"@ || ext == "jpeg"@ || ext == "png"@ || ext == "gif"@ {
        Category::Image
    } else if ext == "pdf"@ {
        Category::Pdf
    } else if ext == "zip"@ || ext == "gz"@ || ext == "tar"@ {
        Category::Archive
    } else if ext == "mp3"@ || ext == "wav"@ {
        Category::Audio
    } else if ext == "mp4"@ || ext == "avi"@ {
        Category::Video
    } else if ext == "exe"@ {
        Category::Executable
    } else {
        Category::Generic
    }
}

/// Whether `name` ends with the path separator.
pub open spec fn names_folder(name: Seq<char>) -> bool {
    name.len() > 0 && name.last() == '/'
}

/// The category of the entry called `name`.
pub open spec fn category_of(name: Seq<char>) -> Category {
    if names_folder(name) {
        Category::Folder
    } else {
        match extension(name) {
            Some(ext) => category_of_extension(ext),
            None => Category::Generic,
        }
    }
}

/// The icon shown beside entries whose category has the label `label`; `None`
/// for the generic label and for any text that is no label.
pub open spec fn icon_of_label(label: Seq<char>) -> Option<Seq<char>> {
    if label == "folder"@ {
        Some("\u{1f4c1}"@)
    } else if label == "text"@ {
        Some("\u{1f4dd}"@)
    } else if label == "image"@ {
        Some("\u{1f5bc}\u{fe0f}"@)
    } else if label == "pdf"@ {
        Some("\u{1f4c4}"@)
    } else if label == "archive"@ {
        Some("\u{1f4e6}"@)
    } else if label == "audio"@ {
        Some("\u{1f3b5}"@)
    } else if label == "video"@ {
        Some("\u{1f3a5}"@)
    } else if label == "executable"@ {
        Some("\u{2699}\u{fe0f}"@)
    } else {
        None
    }
}

/// Where the extension of a name starts: at position 0 exactly when the name has
/// no dot, and otherwise just past a dot that no later dot follows.
pub proof fn lemma_extension_start_is_past_last_dot(name: Seq<char>)
    ensures
        extension_start(name) <= name.len(),
        extension_start(name) == 0 <==> !name.contains('.'),
        extension_start(name) > 0 ==> name[extension_start(name) - 1] == '.',
        forall|i: int| extension_start(name) <= i < name.len() ==> name[i] != '.',
    decreases name.len(),
{
    if name.len() > 0 && name.last() != '.' {
        let shorter = name.drop_last();
        lemma_extension_start_is_past_last_dot(shorter);
        if extension_start(name) > 0 {
            assert(name[extension_start(name) - 1] == shorter[extension_start(name) - 1]);
        } else {
            assert forall|i: int| 0 <= i < name.len() implies name[i] != '.' by {
                if i < shorter.len() {
                    assert(shorter[i] == name[i]);
                }
            }
        }
        assert forall|i: int| extension_start(name) <= i < name.len() implies name[i] != '.' by {
            if i < shorter.len() {
                assert(shorter[i] == name[i]);
            }
        }
    }
}

/// The extension of a name is what follows its last dot: a name without a dot
/// has none, and otherwise the name is some stem, a dot, and the extension,
/// which itself holds no dot.
pub proof fn lemma_extension_follows_last_dot(name: Seq<char>)
    ensures
        extension(name) is None <==> !name.contains('.'),
        extension(name) matches Some(ext) ==> {
            &&& !ext.contains('.')
            &&& ext.len() < name.len()
            &&& name == name.take(name.len() - ext.len() - 1).push('.') + ext
        },
{
    lemma_extension_start_is_past_last_dot(name);
    if let Some(ext) = extension(name) {
        let start = extension_start(name) as int;
        assert forall|i: int| 0 <= i < ext.len() implies ext[i] != '.' by {
            assert(ext[i] == name[start + i]);
        }
        assert(name =~= name.take(name.len() - ext.len() - 1).push('.') + ext);
    }
}

/// A name that ends with the path separator is a folder, whatever stands before
/// the separator: an extension in front of it does not count.
pub proof fn lemma_trailing_separator_is_folder(stem: Seq<char>)
    ensures
        category_of(stem.push('/')) == Category::Folder,
{
}

/// A name that does not end with the path separator and has no dot is generic.
pub proof fn lemma_no_dot_is_generic(name: Seq<char>)
    requires
        !names_folder(name),
        !name.contains('.'),
    ensures
        category_of(name) == Category::Generic,
{
    lemma_extension_start_is_past_last_dot(name);
}

impl Category {
    /// The lower-case label under which entries of this category are grouped.
    pub open spec fn label_text(self) -> Seq<char> {
        match self {
            Category::Folder => "folder"@,
            Category::Text => "text"@,
            Category::Image => "image"@,
            Category::Pdf => "pdf"@,
            Category::Archive => "archive"@,
            Category::Audio => "audio"@,
            Category::Video => "video"@,
            Category::Executable => "executable"@,
            Category::Generic => "file"@,
        }
    }

    /// The name of this category as a summary line spells it.
    pub open spec fn title_text(self) -> Seq<char> {
        match self {
            Category::Folder => "Folder"@,
            Category::Text => "Text"@,
            Category::Image => "Image"@,
            Category::Pdf => "Pdf"@,
            Category::Archive => "Archive"@,
            Category::Audio => "Audio"@,
            Category::Video => "Video"@,
            Category::Executable => "Executable"@,
            Category::Generic => "Generic"@,
        }
    }

    /// The lower-case label under which entries of this category are grouped.
    pub fn label(&self) -> (label: &'static str)
        ensures
            label@ == self.label_text(),
    {
        match self {
            Category::Folder => "folder",
            Category::Text => "text",
            Category::Image => "image",
            Category::Pdf => "pdf",
            Category::Archive => "archive",
            Category::Audio => "audio",
            Category::Video => "video",
            Category::Executable => "executable",
            Category::Generic => "file",
        }
    }

    /// The name of this category as a summary line spells it.
    pub fn title(&self) -> (title: &'static str)
        ensures
            title@ == self.title_text(),
    {
        match self {
            Category::Folder => "Folder",
            Category::Text => "Text",
            Category::Image => "Image",
            Category::Pdf => "Pdf",
            Category::Archive => "Archive",
            Category::Audio => "Audio",
            Category::Video => "Video",
            Category::Executable => "Executable",
            Category::Generic => "Generic",
        }
    }
}

/// Looks the characters of `chars` from `start` on up in the extension table.
fn category_for_tail(chars: &Vec<char>, start: usize) -> (category: Category)
    requires
        start <= chars.len(),
    ensures
        category == category_of_extension(chars@.skip(start as int)),
{
    if tail_equals(chars, start, "txt") {
        Category::Text
    } else if tail_equals(chars, start, "jpg") || tail_equals(chars, start, "jpeg") || tail_equals(
        chars,
        start,
        "png",
    ) || tail_equals(chars, start, "gif") {
        Category::Image
    } else if tail_equals(chars, start, "pdf") {
        Category::Pdf
    } else if tail_equals(chars, start, "zip") || tail_equals(chars, start, "gz") || tail_equals(
        chars,
        start,
        "tar",
    ) {
        Category::Archive
    } else if tail_equals(chars, start, "mp3") || tail_equals(chars, start, "wav") {
        Category::Audio
    } else if tail_equals(chars, start, "mp4") || tail_equals(chars, start, "avi") {
        Category::Video
    } else if tail_equals(chars, start, "exe") {
        Category::Executable
    } else {
        Category::Generic
    }
}

/// Classifies an entry by its name. Every name has exactly one category: a name
/// that ends with `/` is a folder whatever precedes the separator, and any other
/// name is looked up by what follows its last dot.
pub fn classify(name: &str) -> (category: Category)
    ensures
        category == category_of(name@),
        names_folder(name@) ==> category == Category::Folder,
{
    let chars = chars_of(name);
    let n = chars.len();
    if n > 0 && chars[n - 1] == '/' {
        return Category::Folder;
    }
    let mut start: usize = n;
    assert(chars@.take(n as int) =~= chars@);
    while start > 0 && chars[start - 1] != '.'
        invariant
            start <= n,
            n == chars.len(),
            extension_start(chars@) == extension_start(chars@.take(start as int)),
        decreases start,
    {
        assert(chars@.take(start as int).drop_last() =~= chars@.take(start - 1));
        start -= 1;
    }
    if start == 0 {
        Category::Generic
    } else {
        category_for_tail(&chars, start)
    }
}

/// The label of the category of the entry called `filename`.
pub fn get_file_type(filename: &str) -> (label: String)
    ensures
        label@ == category_of(filename@).label_text(),
{
    classify(filename).label().to_owned()
}

/// The icon for a category label; `None` for the generic label and for any
/// text that is no label.
pub fn get_file_icon(file_type: &str) -> (icon: Option<&'static str>)
    ensures
        match icon {
            Some(text) => icon_of_label(file_type@) == Some(text@),
            None => icon_of_label(file_type@) is None,
        },
{
    if same_text(file_type, "folder") {
        Some("\u{1f4c1}")
    } else if same_text(file_type, "text") {
        Some("\u{1f4dd}")
    } else if same_text(file_type, "image") {
        Some("\u{1f5bc}\u{fe0f}")
    } else if same_text(file_type, "pdf") {
        Some("\u{1f4c4}")
    } else if same_text(file_type, "archive") {
        Some("\u{1f4e6}")
    } else if same_text(file_type, "audio") {
        Some("\u{1f3b5}")
    } else if same_text(file_type, "video") {
        Some("\u{1f3a5}")
    } else if same_text(file_type, "executable") {
        Some("\u{2699}\u{fe0f}")
    } else {
        None
    }
}

/// The icon that is shown where a label has none of its own.
pub open spec fn plain_icon() -> Seq<char> {
    "\u{1f4c4}"@
}

/// The icon to show beside entries grouped under `file_type`: the icon of the
/// label, or the plain one where the label has none.
pub fn icon_to_show(file_type: &str) -> (icon: &'static str)
    ensures
        icon@ == match icon_of_label(file_type@) {
            Some(text) => text,
            None => plain_icon(),
        },
{
    match get_file_icon(file_type) {
        Some(icon) => icon,
        None => "\u{1f4c4}",
    }
}

} // verus!
