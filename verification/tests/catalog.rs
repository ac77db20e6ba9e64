use std::io::{Cursor, Read, Write};

use unzip_tool::category::Category;
use unzip_tool::entry::ArchiveEntry;
use unzip_tool::error::{ExtractionError, Fault};
use unzip_tool::format::ArchiveFormat;
use unzip_tool::listing::{CatalogRow, Listing, ListingStage};
use unzip_tool::protocol::{Reply, Request};

fn zip_of(items: &[(&str, Option<&[u8]>)]) -> Vec<u8> {
    let mut writer = zip::ZipWriter::new(Cursor::new(Vec::new()));
    for (name, body) in items {
        match body {
            Some(bytes) => {
                writer.start_file(*name, zip::write::FileOptions::default()).unwrap();
                writer.write_all(bytes).unwrap();
            }
            None => {
                writer.add_directory(*name, zip::write::FileOptions::default()).unwrap();
            }
        }
    }
    writer.finish().unwrap().into_inner()
}

fn tar_gz_of(items: &[(&str, Option<&[u8]>)]) -> Vec<u8> {
    let encoder = flate2::write::GzEncoder::new(Vec::new(), flate2::Compression::default());
    let mut builder = tar::Builder::new(encoder);
    for (name, body) in items {
        let mut header = tar::Header::new_gnu();
        match body {
            Some(bytes) => {
                header.set_entry_type(tar::EntryType::Regular);
                header.set_size(bytes.len() as u64);
                header.set_mode(0o644);
                builder.append_data(&mut header, *name, *bytes).unwrap();
            }
            None => {
                header.set_entry_type(tar::EntryType::Directory);
                header.set_size(0);
                header.set_mode(0o755);
                builder.append_data(&mut header, *name, std::io::empty()).unwrap();
            }
        }
    }
    builder.into_inner().unwrap().finish().unwrap()
}

/// Answers the requests of a listing from archive bytes, and counts them.
struct Reader<'a> {
    archive: &'a [u8],
    format: ArchiveFormat,
    opened: usize,
    bodies_read: Vec<usize>,
    fail_body: bool,
}

impl<'a> Reader<'a> {
    fn new(archive: &'a [u8]) -> Reader<'a> {
        Reader {
            archive,
            format: ArchiveFormat::Unsupported,
            opened: 0,
            bodies_read: Vec::new(),
            fail_body: false,
        }
    }

    fn entries(&self) -> Result<Vec<ArchiveEntry>, Fault> {
        let mut entries = Vec::new();
        match self.format {
            ArchiveFormat::Zip => {
                let mut zip =
                    zip::ZipArchive::new(Cursor::new(self.archive)).map_err(|_| Fault::Archive)?;
                for i in 0..zip.len() {
                    let file = zip.by_index(i).map_err(|_| Fault::Archive)?;
                    entries.push(ArchiveEntry::from_zip(file.name().to_string(), file.size()));
                }
            }
            ArchiveFormat::GzipTar => {
                let mut tar =
                    tar::Archive::new(flate2::read::GzDecoder::new(Cursor::new(self.archive)));
                for entry in tar.entries().map_err(|_| Fault::Archive)? {
                    let entry = entry.map_err(|_| Fault::Archive)?;
                    let name =
                        entry.path().map_err(|_| Fault::Archive)?.to_string_lossy().to_string();
                    let flag = entry.header().entry_type().as_byte();
                    entries.push(ArchiveEntry::from_tar(name, flag, entry.size()));
                }
            }
            ArchiveFormat::Unsupported => return Err(Fault::Other),
        }
        Ok(entries)
    }

    fn body(&self, index: usize) -> Result<Vec<u8>, Fault> {
        let mut body = Vec::new();
        match self.format {
            ArchiveFormat::Zip => {
                let mut zip =
                    zip::ZipArchive::new(Cursor::new(self.archive)).map_err(|_| Fault::Archive)?;
                let mut file = zip.by_index(index).map_err(|_| Fault::Archive)?;
                file.read_to_end(&mut body).map_err(|_| Fault::Archive)?;
            }
            ArchiveFormat::GzipTar => {
                let mut tar =
                    tar::Archive::new(flate2::read::GzDecoder::new(Cursor::new(self.archive)));
                let mut entry = tar
                    .entries()
                    .map_err(|_| Fault::Archive)?
                    .nth(index)
                    .ok_or(Fault::Archive)?
                    .map_err(|_| Fault::Archive)?;
                entry.read_to_end(&mut body).map_err(|_| Fault::Archive)?;
            }
            ArchiveFormat::Unsupported => return Err(Fault::Other),
        }
        Ok(body)
    }

    fn serve(&mut self, request: &Request) -> Reply {
        match request {
            Request::OpenArchive { format, .. } => {
                self.opened += 1;
                self.format = *format;
                match self.entries() {
                    Ok(entries) => Reply::Entries(entries),
                    Err(fault) => Reply::Failed(fault),
                }
            }
            Request::ReadBody { index } => {
                self.bodies_read.push(*index);
                if self.fail_body {
                    return Reply::Failed(Fault::Archive);
                }
                match self.body(*index) {
                    Ok(body) => Reply::Body(body),
                    Err(fault) => Reply::Failed(fault),
                }
            }
            _ => Reply::Failed(Fault::Other),
        }
    }
}

fn list(archive_path: &str, reader: &mut Reader) -> Listing {
    let mut listing = Listing::new(archive_path);
    let mut request = listing.start();
    while !matches!(request, Request::Stop) {
        let reply = reader.serve(&request);
        request = listing.handle(reply);
    }
    listing
}

fn shown(rows: &[CatalogRow]) -> Vec<(String, Category, String)> {
    rows.iter().map(|row| (row.name.clone(), row.category, row.preview.clone())).collect()
}

const PHOTO: [u8; 10] = [0x89, b'P', b'N', b'G', 0x0d, 0x0a, 0x1a, 0x0a, 0x00, 0xff];

#[test]
fn zip_with_two_files_is_listed() {
    let archive = zip_of(&[
        ("docs/readme.txt", Some(b"hello".as_slice())),
        ("docs/photo.png", Some(PHOTO.as_slice())),
    ]);
    let mut reader = Reader::new(&archive);
    let listing = list("archive.zip", &mut reader);
    assert_eq!(listing.stage(), ListingStage::Finished);
    let rows = listing.into_catalog();
    assert_eq!(
        shown(&rows),
        vec![
            ("docs/readme.txt".to_string(), Category::Text, "hello".to_string()),
            (
                "docs/photo.png".to_string(),
                Category::Image,
                "Type: Image | Size: 10 bytes".to_string()
            ),
        ]
    );
}

#[test]
fn only_the_bodies_of_text_entries_are_read() {
    let archive = zip_of(&[
        ("a.png", Some(PHOTO.as_slice())),
        ("b.txt", Some(b"first".as_slice())),
        ("c/", None),
        ("c/d.bin", Some(b"\x00\x01".as_slice())),
        ("c/e.txt", Some(b"second".as_slice())),
        ("f.pdf", Some(b"%PDF".as_slice())),
    ]);
    let mut reader = Reader::new(&archive);
    let listing = list("archive.zip", &mut reader);
    assert_eq!(reader.opened, 1);
    assert_eq!(reader.bodies_read, vec![1, 4]);
    let rows = listing.into_catalog();
    assert_eq!(
        shown(&rows),
        vec![
            ("a.png".to_string(), Category::Image, "Type: Image | Size: 10 bytes".to_string()),
            ("b.txt".to_string(), Category::Text, "first".to_string()),
            ("c/".to_string(), Category::Folder, "Type: Folder | Size: 0 bytes".to_string()),
            ("c/d.bin".to_string(), Category::Generic, "Type: Generic | Size: 2 bytes".to_string()),
            ("c/e.txt".to_string(), Category::Text, "second".to_string()),
            ("f.pdf".to_string(), Category::Pdf, "Type: Pdf | Size: 4 bytes".to_string()),
        ]
    );
}

#[test]
fn gzip_tar_is_listed() {
    let archive = tar_gz_of(&[
        ("docs/", None),
        ("docs/readme.txt", Some(b"hello".as_slice())),
        ("docs/photo.png", Some(PHOTO.as_slice())),
    ]);
    let mut reader = Reader::new(&archive);
    let listing = list("archive.tar.gz", &mut reader);
    assert_eq!(reader.bodies_read, vec![1]);
    let rows = listing.into_catalog();
    assert_eq!(
        shown(&rows),
        vec![
            ("docs/".to_string(), Category::Folder, "Type: Folder | Size: 0 bytes".to_string()),
            ("docs/readme.txt".to_string(), Category::Text, "hello".to_string()),
            (
                "docs/photo.png".to_string(),
                Category::Image,
                "Type: Image | Size: 10 bytes".to_string()
            ),
        ]
    );
}

#[test]
fn directory_named_like_a_text_file_is_a_folder() {
    let archive = zip_of(&[("notes.txt/", None)]);
    let mut reader = Reader::new(&archive);
    let listing = list("archive.zip", &mut reader);
    assert!(reader.bodies_read.is_empty());
    let rows = listing.into_catalog();
    assert_eq!(
        shown(&rows),
        vec![("notes.txt/".to_string(), Category::Folder, "Type: Folder | Size: 0 bytes".to_string())]
    );
}

#[test]
fn text_that_is_no_utf8_is_decoded_with_replacements() {
    let archive = zip_of(&[("latin1.txt", Some(b"caf\xe9 au lait".as_slice()))]);
    let mut reader = Reader::new(&archive);
    let rows = list("archive.zip", &mut reader).into_catalog();
    assert_eq!(rows.len(), 1);
    assert_eq!(rows[0].preview, "caf\u{fffd} au lait");
}

#[test]
fn empty_archive_has_an_empty_catalog() {
    let archive = zip_of(&[]);
    let mut reader = Reader::new(&archive);
    let listing = list("archive.zip", &mut reader);
    assert_eq!(listing.stage(), ListingStage::Finished);
    assert!(matches!(listing.outcome(), Some(Ok(rows)) if rows.is_empty()));
}

#[test]
fn listing_an_unrecognized_extension_fails_without_opening_the_file() {
    let archive = zip_of(&[("a.txt", Some(b"hello".as_slice()))]);
    let mut reader = Reader::new(&archive);
    let listing = list("archive.rar", &mut reader);
    assert_eq!(reader.opened, 0);
    assert!(reader.bodies_read.is_empty());
    assert_eq!(
        listing.stage(),
        ListingStage::Failed { error: ExtractionError::UnsupportedFormat }
    );
    assert!(matches!(listing.outcome(), Some(Err(ExtractionError::UnsupportedFormat))));
}

#[test]
fn failed_listing_presents_an_empty_catalog() {
    let mut reader = Reader::new(b"");
    assert!(list("archive.rar", &mut reader).into_catalog().is_empty());

    let mut reader = Reader::new(b"no archive at all");
    let listing = list("archive.zip", &mut reader);
    assert_eq!(listing.stage(), ListingStage::Failed { error: ExtractionError::CorruptArchive });
    assert!(listing.into_catalog().is_empty());
}

#[test]
fn body_that_cannot_be_read_fails_the_listing() {
    let archive = zip_of(&[
        ("a.png", Some(PHOTO.as_slice())),
        ("b.txt", Some(b"first".as_slice())),
    ]);
    let mut reader = Reader::new(&archive);
    reader.fail_body = true;
    let listing = list("archive.zip", &mut reader);
    assert_eq!(listing.stage(), ListingStage::Failed { error: ExtractionError::CorruptArchive });
    assert!(listing.into_catalog().is_empty());
}

#[test]
fn unfinished_listing_has_no_outcome_and_presents_nothing() {
    let listing = Listing::new("archive.zip");
    assert_eq!(listing.stage(), ListingStage::Idle);
    assert!(listing.outcome().is_none());

    let mut listing = Listing::new("archive.zip");
    let request = listing.start();
    assert!(matches!(request, Request::OpenArchive { format: ArchiveFormat::Zip, .. }));
    assert_eq!(listing.stage(), ListingStage::OpeningArchive);
    let request = listing.handle(Reply::Entries(vec![
        ArchiveEntry::from_zip("a.bin".to_string(), 3),
        ArchiveEntry::from_zip("b.txt".to_string(), 5),
    ]));
    assert!(matches!(request, Request::ReadBody { index: 1 }));
    assert_eq!(listing.stage(), ListingStage::ReadingBody { index: 1 });
    assert!(matches!(listing.pending(), Request::ReadBody { index: 1 }));
    assert!(listing.into_catalog().is_empty());
}

#[test]
fn listing_ignores_replies_outside_a_run() {
    let mut idle = Listing::new("archive.zip");
    let request = idle.handle(Reply::Entries(Vec::new()));
    assert!(matches!(request, Request::Stop));
    assert_eq!(idle.stage(), ListingStage::Idle);

    let mut done = Listing::with_format("archive", ArchiveFormat::GzipTar);
    done.start();
    done.handle(Reply::Entries(Vec::new()));
    assert_eq!(done.stage(), ListingStage::Finished);
    done.handle(Reply::Failed(Fault::Archive));
    assert_eq!(done.stage(), ListingStage::Finished);
    let again = done.start();
    assert!(matches!(again, Request::Stop));
}

#[test]
fn reply_that_answers_another_request_fails_the_listing() {
    let mut listing = Listing::new("archive.zip");
    listing.start();
    listing.handle(Reply::Done);
    assert_eq!(listing.stage(), ListingStage::Failed { error: ExtractionError::Unknown });

    let mut listing = Listing::new("archive.zip");
    listing.start();
    listing.handle(Reply::Entries(vec![ArchiveEntry::from_zip("b.txt".to_string(), 5)]));
    listing.handle(Reply::Writable);
    assert_eq!(listing.stage(), ListingStage::Failed { error: ExtractionError::Unknown });
}

#[test]
fn rows_can_be_cloned() {
    let row = CatalogRow {
        name: "a.txt".to_string(),
        category: Category::Text,
        preview: "hello".to_string(),
    };
    let copy = row.clone();
    assert_eq!(copy.name, "a.txt");
    assert_eq!(copy.category, Category::Text);
    assert_eq!(copy.preview, "hello");
}
