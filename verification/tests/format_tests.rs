use matterpackr::associations::supported_associations;
use matterpackr::dispatch::{
    add_files, cancel_conflict, check_conflicts, extracts_in_place, check_encryption, create_archive, extract_archive, inspect_archive,
    pick_extraction_folder, prepare_drag_extraction, prepare_extraction_destination,
    read_engine, create_engine, remove_entries, tar_writer_for, test_archive, unencrypted_status,
    ReadEngine, TarWriter, WriteEngine,
};
use matterpackr::errors::ErrorKind;
use matterpackr::models::{
    capabilities_for_path, file_kind, format_catalog, format_from_path, ArchiveEntry,
    ConflictMode, CreateArchiveRequest,
};

fn entry(name: &str, is_dir: bool) -> ArchiveEntry {
    ArchiveEntry {
        name: name.to_string(),
        kind: if is_dir { "Folder".to_string() } else { "File".to_string() },
        size: 1,
        compressed_size: 1,
        modified: None,
        is_dir,
    }
}

fn request(output: &str, password: Option<&str>) -> CreateArchiveRequest {
    CreateArchiveRequest {
        output_path: output.to_string(),
        input_paths: vec!["a.txt".to_string()],
        compression: "Normal".to_string(),
        password: password.map(|p| p.to_string()),
    }
}

#[test]
fn format_detection_from_paths() {
    assert_eq!(format_from_path("archive.ZIP"), "zip");
    assert_eq!(format_from_path("backup.tar.gz"), "tar.gz");
    assert_eq!(format_from_path("BACKUP.TGZ"), "tar.gz");
    assert_eq!(format_from_path("a.tbz2"), "tar.bz2");
    assert_eq!(format_from_path("a.tar.bz2"), "tar.bz2");
    assert_eq!(format_from_path("b.txz"), "tar.xz");
    assert_eq!(format_from_path("c.tar.zst"), "tar.zst");
    assert_eq!(format_from_path("libfoo.a"), "ar");
    assert_eq!(format_from_path("dir/file.7z"), "7z");
    assert_eq!(format_from_path("noext"), "");
    assert_eq!(format_from_path("plain.gz"), "gz");
}

#[test]
fn file_kinds_by_extension() {
    assert_eq!(file_kind("notes.TXT"), "Text Document");
    assert_eq!(file_kind("photo.png"), "Image");
    assert_eq!(file_kind("doc.pdf"), "PDF Document");
    assert_eq!(file_kind("letter.docx"), "Word Document");
    assert_eq!(file_kind("sheet.xlsx"), "Spreadsheet");
    assert_eq!(file_kind("x.tgz"), "Archive");
    assert_eq!(file_kind("disk.iso"), "Disk Image");
    assert_eq!(file_kind("README"), "File");
    assert_eq!(file_kind("folder/data.json"), "Text Document");
}

#[test]
fn capabilities_follow_the_catalog() {
    let gz = capabilities_for_path("x.gz");
    assert_eq!(gz.format, "GZ");
    assert!(gz.can_create && gz.can_add && gz.can_remove && !gz.can_encrypt);
    let tgz = capabilities_for_path("x.tgz");
    assert_eq!(tgz.format, "TAR.GZ");
    assert!(tgz.can_create);
    let bz = capabilities_for_path("x.tar.bz2");
    assert_eq!(bz.format, "TAR.BZ2");
    assert!(!bz.can_create && bz.can_extract && bz.can_view);
    let seven = capabilities_for_path("x.7z");
    assert_eq!(seven.format, "7Z");
    assert!(seven.can_encrypt && seven.password_support);
    let unknown = capabilities_for_path("x.xyz");
    assert_eq!(unknown.format, "Unknown");
    assert!(!unknown.can_create && !unknown.can_extract && !unknown.can_view && !unknown.password_support);
}

#[test]
fn catalog_order_and_flags() {
    let catalog = format_catalog();
    let ids: Vec<&str> = catalog.iter().map(|f| f.id.as_str()).collect();
    assert_eq!(
        ids,
        vec!["zip", "7z", "tar", "tar.gz", "gz", "rar", "tar.bz2", "tar.xz", "tar.zst", "bz2", "cab", "iso", "img", "cpio", "ar"]
    );
    let gz = &catalog[4];
    assert!(gz.single_file_only);
    assert_eq!(gz.extensions, vec!["gz".to_string()]);
    assert_eq!(catalog[3].extensions, vec!["tar.gz".to_string(), "tgz".to_string()]);
    assert_eq!(catalog[14].extensions, vec!["ar".to_string(), "a".to_string()]);
    assert_eq!(catalog[0].label, "ZIP — standard archive");
    assert!(catalog.iter().all(|f| f.implemented && f.can_extract && f.can_test && f.can_view));
}

#[test]
fn catalog_extensions_are_unique() {
    let catalog = format_catalog();
    let mut all: Vec<String> = Vec::new();
    for f in &catalog {
        for e in &f.extensions {
            assert!(!all.contains(e), "extension {} listed twice", e);
            all.push(e.clone());
        }
    }
}

#[test]
fn catalog_matches_the_engines() {
    for f in format_catalog() {
        assert!(read_engine(&f.id).is_some(), "{} has no reading engine", f.id);
        assert_eq!(create_engine(&f.id).is_some(), f.can_create, "{}", f.id);
        let path = format!("archive.{}", f.id);
        assert_eq!(add_files(&path, 1).is_ok(), f.can_add, "{}", f.id);
        assert_eq!(remove_entries(&path).is_ok(), f.can_remove, "{}", f.id);
        assert_eq!(f.password_support, f.id == "zip" || f.id == "7z" || f.id == "rar");
        assert_eq!(f.can_encrypt, f.id == "zip" || f.id == "7z");
    }
    assert!(read_engine("exe").is_none());
}

#[test]
fn associated_extensions_are_readable() {
    for a in supported_associations() {
        let format = format_from_path(&format!("file.{}", a.ext));
        assert!(read_engine(&format).is_some(), "{} is not readable", a.ext);
        assert_eq!(a.icon_name, "archive.ico");
    }
}

#[test]
fn open_and_test_routes() {
    let r = inspect_archive("a.zip").unwrap();
    assert_eq!(r.format, "zip");
    assert_eq!(r.engine, ReadEngine::Zip);
    assert_eq!(inspect_archive("a.tgz").unwrap().engine, ReadEngine::Libarchive);
    assert_eq!(inspect_archive("a.bz2").unwrap().engine, ReadEngine::RawCompressed);
    assert_eq!(inspect_archive("a.IMG").unwrap().engine, ReadEngine::DiskImage);
    assert_eq!(inspect_archive("a.rar").unwrap().engine, ReadEngine::Rar);
    let e = inspect_archive("a.xyz").err().unwrap();
    assert_eq!(e.kind, ErrorKind::Unsupported);
    assert_eq!(e.message, "Unsupported archive format: .xyz");
    let e = test_archive("a.doc").err().unwrap();
    assert_eq!(e.message, "Testing not supported for .doc archives");
    assert_eq!(test_archive("a.cpio").unwrap().engine, ReadEngine::Libarchive);
}

#[test]
fn extraction_routes() {
    let e = extract_archive("a.rar", "").err().unwrap();
    assert_eq!(e.kind, ErrorKind::InvalidInput);
    assert_eq!(e.message, "Extraction destination cannot be empty");
    assert_eq!(extract_archive("a.rar", "out").unwrap().engine, ReadEngine::Rar);
    let e = extract_archive("a.doc", "out").err().unwrap();
    assert_eq!(e.kind, ErrorKind::Unsupported);
    assert_eq!(e.message, "Extraction not supported for .doc archives");
    assert_eq!(prepare_extraction_destination("out/new").unwrap(), "out/new");
    assert!(prepare_extraction_destination("").is_err());
}

#[test]
fn drag_routes() {
    let e = prepare_drag_extraction("a.zip", 0).err().unwrap();
    assert_eq!(e.kind, ErrorKind::InvalidInput);
    assert_eq!(e.message, "No items selected for extraction");
    let e = prepare_drag_extraction("a.exe", 2).err().unwrap();
    assert_eq!(e.message, "Drag extraction is not supported for .exe archives");
    assert_eq!(prepare_drag_extraction("a.7z", 1).unwrap().engine, ReadEngine::SevenZ);
}

#[test]
fn encryption_routes() {
    let s = check_encryption("a.tar").err().unwrap();
    assert!(!s.is_encrypted && s.password_valid && s.error_message.is_none());
    assert_eq!(check_encryption("a.7z").unwrap().engine, ReadEngine::SevenZ);
    assert_eq!(check_encryption("a.ZIP").unwrap().engine, ReadEngine::Zip);
    assert_eq!(check_encryption("a.rar").unwrap().engine, ReadEngine::Rar);
    let plain = unencrypted_status();
    assert!(!plain.is_encrypted && plain.password_valid);
}

#[test]
fn create_routes_and_password_rules() {
    let e = create_archive(&request("x.zip", Some(""))).err().unwrap();
    assert_eq!(e.kind, ErrorKind::InvalidInput);
    assert_eq!(e.message, "Password cannot be empty");
    let e = create_archive(&request("x.tar", Some("pw"))).err().unwrap();
    assert_eq!(e.kind, ErrorKind::Unsupported);
    assert_eq!(e.message, "Password encryption is currently supported for ZIP and 7Z only");
    let e = create_archive(&request("x.rar", None)).err().unwrap();
    assert_eq!(e.message, "Creating .rar archives is not supported (read/extract only)");
    assert_eq!(create_archive(&request("x.tar.gz", None)).unwrap().engine, WriteEngine::Tar);
    assert_eq!(create_archive(&request("x.7z", Some("pw"))).unwrap().engine, WriteEngine::SevenZ);
    assert_eq!(create_archive(&request("x.gz", None)).unwrap().engine, WriteEngine::RawGz);
}

#[test]
fn add_and_remove_routes() {
    let e = add_files("x.gz", 2).err().unwrap();
    assert_eq!(e.kind, ErrorKind::InvalidInput);
    assert_eq!(e.message, ".gz archives contain one compressed file; select exactly one input file to update");
    assert_eq!(add_files("x.gz", 1).unwrap().engine, WriteEngine::RawGz);
    let e = add_files("x.iso", 1).err().unwrap();
    assert_eq!(e.message, "Adding files to .iso is not supported (read/extract only)");
    assert_eq!(remove_entries("x.gz").unwrap().engine, WriteEngine::RawGz);
    let e = remove_entries("x.cab").err().unwrap();
    assert_eq!(e.message, "Removing entries from .cab is not supported (read/extract only)");
    assert_eq!(remove_entries("x.zip").unwrap().engine, WriteEngine::Zip);
}

#[test]
fn tar_writers() {
    assert_eq!(tar_writer_for("tar").unwrap(), TarWriter::Plain);
    assert_eq!(tar_writer_for("tar.gz").unwrap(), TarWriter::Gzip);
    assert_eq!(tar_writer_for("tar.bz2").unwrap(), TarWriter::Bzip2);
    assert_eq!(tar_writer_for("tar.xz").unwrap(), TarWriter::ToolXz);
    assert_eq!(tar_writer_for("tar.zst").unwrap(), TarWriter::ToolZstd);
    let e = tar_writer_for("zip").err().unwrap();
    assert_eq!(e.kind, ErrorKind::InvalidInput);
    assert_eq!(e.message, "Unsupported format: zip");
}

#[test]
fn conflicts_list_only_existing_files() {
    let entries = vec![entry("a/", true), entry("a/b.txt", false), entry("c.txt", false), entry("d.txt", false)];
    let taken = vec![true, true, false, true];
    assert_eq!(check_conflicts(&entries, &taken), vec!["a/b.txt".to_string(), "d.txt".to_string()]);
    assert!(check_conflicts(&entries, &vec![false; 4]).is_empty());
}

#[test]
fn extraction_staging() {
    assert!(extracts_in_place(&ConflictMode::Overwrite));
    assert!(!extracts_in_place(&ConflictMode::Rename));
    assert!(!extracts_in_place(&ConflictMode::Cancel));
}

#[test]
fn folder_picker_and_defaults() {
    assert_eq!(pick_extraction_folder(Some("Extract to"), Some("/tmp")), None);
    assert_eq!(ConflictMode::default(), ConflictMode::Overwrite);
}

#[test]
fn cancel_aborts_before_writing() {
    let entries = vec![entry("a/", true), entry("a/b.txt", false), entry("c.txt", false)];
    assert_eq!(cancel_conflict(&ConflictMode::Cancel, &entries, &vec![true, false, false]), None);
    assert_eq!(
        cancel_conflict(&ConflictMode::Cancel, &entries, &vec![true, true, true]),
        Some("a/b.txt".to_string())
    );
    assert_eq!(cancel_conflict(&ConflictMode::Rename, &entries, &vec![true, true, true]), None);
    assert_eq!(cancel_conflict(&ConflictMode::Overwrite, &entries, &vec![false, true, true]), None);
}
