use unzip_tool::format::ArchiveFormat;

#[test]
fn zip_extension_is_zip() {
    assert_eq!(ArchiveFormat::from_extension(Some("zip")), ArchiveFormat::Zip);
}

#[test]
fn gz_extension_is_gzip_tar() {
    assert_eq!(ArchiveFormat::from_extension(Some("gz")), ArchiveFormat::GzipTar);
}

#[test]
fn other_extensions_are_unsupported() {
    assert_eq!(ArchiveFormat::from_extension(Some("rar")), ArchiveFormat::Unsupported);
    assert_eq!(ArchiveFormat::from_extension(Some("tar")), ArchiveFormat::Unsupported);
    assert_eq!(ArchiveFormat::from_extension(Some("ZIP")), ArchiveFormat::Unsupported);
    assert_eq!(ArchiveFormat::from_extension(Some("")), ArchiveFormat::Unsupported);
    assert_eq!(ArchiveFormat::from_extension(None), ArchiveFormat::Unsupported);
}

#[test]
fn format_of_a_zip_path() {
    assert_eq!(ArchiveFormat::from_path("archive.zip"), ArchiveFormat::Zip);
    assert_eq!(ArchiveFormat::from_path("/tmp/some dir/archive.zip"), ArchiveFormat::Zip);
}

#[test]
fn format_of_a_gzip_tar_path() {
    assert_eq!(ArchiveFormat::from_path("archive.tar.gz"), ArchiveFormat::GzipTar);
    assert_eq!(ArchiveFormat::from_path("archive.gz"), ArchiveFormat::GzipTar);
}

#[test]
fn unrecognized_extension_is_unsupported() {
    assert_eq!(ArchiveFormat::from_path("archive.rar"), ArchiveFormat::Unsupported);
    assert_eq!(ArchiveFormat::from_path("archive.tar"), ArchiveFormat::Unsupported);
    assert_eq!(ArchiveFormat::from_path("archive.7z"), ArchiveFormat::Unsupported);
}

#[test]
fn path_without_extension_is_unsupported() {
    assert_eq!(ArchiveFormat::from_path("archive"), ArchiveFormat::Unsupported);
    assert_eq!(ArchiveFormat::from_path(""), ArchiveFormat::Unsupported);
    assert_eq!(ArchiveFormat::from_path("dir.zip/archive"), ArchiveFormat::Unsupported);
    assert_eq!(ArchiveFormat::from_path(".zip"), ArchiveFormat::Unsupported);
}

#[test]
fn the_path_itself_is_no_extension() {
    assert_eq!(ArchiveFormat::from_path("zip"), ArchiveFormat::Unsupported);
    assert_eq!(ArchiveFormat::from_path("gz"), ArchiveFormat::Unsupported);
}

#[test]
fn supported_formats() {
    assert!(ArchiveFormat::Zip.is_supported());
    assert!(ArchiveFormat::GzipTar.is_supported());
    assert!(!ArchiveFormat::Unsupported.is_supported());
}
