use unzip_tool::category::Category;
use unzip_tool::entry::{ArchiveEntry, EntryKind, TAR_DIRECTORY_FLAG};

#[test]
fn zip_entry_with_trailing_separator_is_a_directory() {
    let entry = ArchiveEntry::from_zip("docs/".to_string(), 0);
    assert_eq!(entry.kind, EntryKind::Directory);
    assert_eq!(entry.name, "docs/");
    assert_eq!(entry.size, 0);
    assert!(entry.is_directory());
}

#[test]
fn zip_entry_without_trailing_separator_is_a_file() {
    let entry = ArchiveEntry::from_zip("docs/readme.txt".to_string(), 5);
    assert_eq!(entry.kind, EntryKind::File);
    assert_eq!(entry.size, 5);
    assert!(!entry.is_directory());
    let empty = ArchiveEntry::from_zip(String::new(), 0);
    assert_eq!(empty.kind, EntryKind::File);
}

#[test]
fn tar_entry_kind_goes_by_the_type_flag() {
    let dir = ArchiveEntry::from_tar("docs".to_string(), b'5', 0);
    assert_eq!(dir.kind, EntryKind::Directory);
    let file = ArchiveEntry::from_tar("docs/readme.txt".to_string(), b'0', 5);
    assert_eq!(file.kind, EntryKind::File);
    let old_style = ArchiveEntry::from_tar("readme.txt".to_string(), 0, 5);
    assert_eq!(old_style.kind, EntryKind::File);
}

#[test]
fn tar_entry_kind_ignores_the_name() {
    let file = ArchiveEntry::from_tar("docs/".to_string(), b'0', 0);
    assert_eq!(file.kind, EntryKind::File);
    let dir = ArchiveEntry::from_tar("docs.txt".to_string(), b'5', 0);
    assert_eq!(dir.kind, EntryKind::Directory);
}

#[test]
fn only_the_directory_flag_makes_a_directory() {
    for flag in 0..=255u8 {
        let entry = ArchiveEntry::from_tar("x".to_string(), flag, 1);
        let expected = if flag == TAR_DIRECTORY_FLAG { EntryKind::Directory } else { EntryKind::File };
        assert_eq!(entry.kind, expected);
    }
    assert_eq!(TAR_DIRECTORY_FLAG, b'5');
}

#[test]
fn category_of_an_entry_is_derived_from_its_name() {
    assert_eq!(ArchiveEntry::from_zip("a/b.png".to_string(), 10).category(), Category::Image);
    assert_eq!(ArchiveEntry::from_zip("a/".to_string(), 0).category(), Category::Folder);
    assert_eq!(ArchiveEntry::from_tar("a".to_string(), b'5', 0).category(), Category::Generic);
}

#[test]
fn clone_keeps_an_entry() {
    let entry = ArchiveEntry::from_zip("docs/readme.txt".to_string(), 5);
    let copy = entry.clone();
    assert_eq!(copy.name, entry.name);
    assert_eq!(copy.kind, entry.kind);
    assert_eq!(copy.size, entry.size);
}
