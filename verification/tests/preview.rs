use unzip_tool::category::Category;
use unzip_tool::entry::ArchiveEntry;
use unzip_tool::preview::{needs_body, preview, summary};
use unzip_tool::text::{chars_of, decimal_string, same_text, tail_equals};

#[test]
fn summary_line_of_an_image() {
    assert_eq!(summary(Category::Image, 10), "Type: Image | Size: 10 bytes");
}

#[test]
fn summary_lines_of_other_categories() {
    assert_eq!(summary(Category::Folder, 0), "Type: Folder | Size: 0 bytes");
    assert_eq!(summary(Category::Generic, 1), "Type: Generic | Size: 1 bytes");
    assert_eq!(summary(Category::Archive, 1048576), "Type: Archive | Size: 1048576 bytes");
    assert_eq!(
        summary(Category::Video, u64::MAX),
        "Type: Video | Size: 18446744073709551615 bytes"
    );
}

#[test]
fn only_text_needs_its_body() {
    assert!(needs_body(Category::Text));
    for category in [
        Category::Folder,
        Category::Image,
        Category::Pdf,
        Category::Archive,
        Category::Audio,
        Category::Video,
        Category::Executable,
        Category::Generic,
    ] {
        assert!(!needs_body(category));
    }
}

#[test]
fn preview_of_text_is_its_body() {
    let entry = ArchiveEntry::from_zip("readme.txt".to_string(), 5);
    assert_eq!(preview(&entry, Category::Text, b"hello"), "hello");
    assert_eq!(preview(&entry, Category::Text, b""), "");
    assert_eq!(preview(&entry, Category::Text, "多字节 text".as_bytes()), "多字节 text");
}

#[test]
fn preview_of_text_replaces_invalid_sequences() {
    let entry = ArchiveEntry::from_zip("readme.txt".to_string(), 3);
    assert_eq!(preview(&entry, Category::Text, b"a\xffb"), "a\u{fffd}b");
    assert_eq!(preview(&entry, Category::Text, b"\xc3"), "\u{fffd}");
}

#[test]
fn preview_of_anything_else_is_the_summary_line() {
    let entry = ArchiveEntry::from_zip("photo.png".to_string(), 10);
    assert_eq!(preview(&entry, Category::Image, b""), "Type: Image | Size: 10 bytes");
    assert_eq!(preview(&entry, Category::Image, b"ignored"), "Type: Image | Size: 10 bytes");
}

#[test]
fn decimal_numerals() {
    assert_eq!(decimal_string(0), "0");
    assert_eq!(decimal_string(7), "7");
    assert_eq!(decimal_string(10), "10");
    assert_eq!(decimal_string(1234567890), "1234567890");
    assert_eq!(decimal_string(u64::MAX), u64::MAX.to_string());
    for n in 0..1000u64 {
        assert_eq!(decimal_string(n), n.to_string());
    }
}

#[test]
fn characters_of_a_string() {
    assert_eq!(chars_of(""), Vec::<char>::new());
    assert_eq!(chars_of("a/b"), vec!['a', '/', 'b']);
    assert_eq!(chars_of("é文"), vec!['é', '文']);
}

#[test]
fn comparing_texts() {
    assert!(same_text("", ""));
    assert!(same_text("zip", "zip"));
    assert!(!same_text("zip", "zi"));
    assert!(!same_text("zip", "zap"));
    assert!(!same_text("", "a"));
}

#[test]
fn comparing_the_tail_of_a_name() {
    let name = chars_of("a.txt");
    assert!(tail_equals(&name, 2, "txt"));
    assert!(!tail_equals(&name, 1, "txt"));
    assert!(!tail_equals(&name, 2, "tx"));
    assert!(tail_equals(&name, 5, ""));
    assert!(tail_equals(&name, 0, "a.txt"));
    assert!(!tail_equals(&name, 6, ""));
    assert!(!tail_equals(&name, usize::MAX, "txt"));
}
