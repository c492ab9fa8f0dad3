use std::io::{Cursor, Write};

use matterpackr::errors::ErrorKind;
use matterpackr::listing::{
    check_tool_output, inspect_via_libarchive, parse_bsdtar_tvf_line, parse_tvf_listing,
    test_via_libarchive, ToolOutput,
};
use matterpackr::rar_engine::{
    check_rar_encryption, inspect_rar, rar_error, rar_password_status, test_rar, RarCheck, RarHeader,
};
use matterpackr::sevenz_engine::{check_7z_encryption, inspect_7z, sevenz_walk_status, status_from_reads};
use matterpackr::zip_engine::{check_zip_encryption, inspect_zip, test_zip, timestamp_string, ZipTimestamp};

const HELLO: &[u8] = b"Hello from MatterPackr!";

fn zip_bytes(password: Option<&str>) -> Vec<u8> {
    let mut w = zip::ZipWriter::new(Cursor::new(Vec::new()));
    let t = zip::DateTime::from_date_and_time(2024, 3, 5, 7, 9, 0).unwrap();
    let opts = zip::write::SimpleFileOptions::default()
        .compression_method(zip::CompressionMethod::Deflated)
        .last_modified_time(t);
    w.add_directory("folder/", opts).unwrap();
    let file_opts = match password {
        Some(p) => opts.with_aes_encryption(zip::AesMode::Aes256, p),
        None => opts,
    };
    w.start_file("folder/hello.txt", file_opts).unwrap();
    w.write_all(HELLO).unwrap();
    w.finish().unwrap().into_inner()
}

fn sevenz_bytes(password: Option<&str>) -> Vec<u8> {
    let mut w = sevenz_rust2::ArchiveWriter::new(Cursor::new(Vec::new())).unwrap();
    if let Some(p) = password {
        w.set_content_methods(vec![
            sevenz_rust2::encoder_options::AesEncoderOptions::new(p.into()).into(),
            sevenz_rust2::encoder_options::Lzma2Options::from_level(6).into(),
        ]);
    }
    w.push_archive_entry(sevenz_rust2::ArchiveEntry::new_file("sevenz.txt"), Some(&b"7Z backend test content"[..]))
        .unwrap();
    w.finish().unwrap().into_inner()
}

fn tool(success: bool, stdout: &str, stderr: &str) -> ToolOutput {
    ToolOutput { success, stdout: stdout.to_string(), stderr: stderr.to_string() }
}

#[test]
fn bsdtar_long_lines() {
    let d = parse_bsdtar_tvf_line("drwxr-xr-x  0 0 0  0 Aug 20 18:27 folder/").unwrap();
    assert_eq!(d.name, "folder/");
    assert!(d.is_dir);
    assert_eq!(d.kind, "Folder");
    assert_eq!(d.size, 0);
    assert_eq!(d.modified, Some("Aug 20 18:27".to_string()));
    let f = parse_bsdtar_tvf_line("-rw-r--r--  0 user group  1234 Aug 20 18:27 ./docs/read me.txt").unwrap();
    assert_eq!(f.name, "docs/read me.txt");
    assert!(!f.is_dir);
    assert_eq!(f.kind, "Text Document");
    assert_eq!(f.size, 1234);
    assert_eq!(f.compressed_size, 0);
    let g = parse_bsdtar_tvf_line("-rw-r--r-- 1 u g x 55 Jan 1 2020 f").unwrap();
    assert_eq!(g.size, 55);
    assert_eq!(g.modified, Some("Jan 1 2020".to_string()));
    assert_eq!(g.name, "f");
}

#[test]
fn bsdtar_short_lines() {
    let s = parse_bsdtar_tvf_line("simple.txt").unwrap();
    assert_eq!(s.name, "simple.txt");
    assert_eq!(s.size, 0);
    assert!(s.modified.is_none() && !s.is_dir);
    let d = parse_bsdtar_tvf_line("dir/").unwrap();
    assert_eq!(d.name, "dir");
    assert!(d.is_dir);
    assert_eq!(d.kind, "Folder");
    assert!(parse_bsdtar_tvf_line("").is_none());
    assert!(parse_bsdtar_tvf_line("   ").is_none());
}

#[test]
fn tool_listings_and_failures() {
    let v = parse_tvf_listing("a.txt\r\n\nb/\n");
    assert_eq!(v.len(), 2);
    assert_eq!(v[0].name, "a.txt");
    assert_eq!(v[1].name, "b");
    let listed = inspect_via_libarchive(&tool(true, "x.md\n", "")).unwrap();
    assert_eq!(listed.len(), 1);
    assert_eq!(listed[0].kind, "Text Document");
    let e = inspect_via_libarchive(&tool(false, "", "  bad archive \n")).err().unwrap();
    assert_eq!(e.kind, ErrorKind::Other);
    assert_eq!(e.message, "libarchive inspect error: bad archive");
    let e = test_via_libarchive(&tool(false, "", "truncated")).err().unwrap();
    assert_eq!(e.message, "libarchive test failed: truncated");
    assert!(test_via_libarchive(&tool(true, "", "")).is_ok());
    let e = check_tool_output(&tool(false, "", "oops"), "tar extraction error: ").err().unwrap();
    assert_eq!(e.message, "tar extraction error: oops");
}

#[test]
fn zip_listing() {
    let entries = inspect_zip(&zip_bytes(None)).unwrap();
    assert_eq!(entries.len(), 2);
    assert_eq!(entries[0].name, "folder/");
    assert!(entries[0].is_dir);
    assert_eq!(entries[0].kind, "Folder");
    assert_eq!(entries[1].name, "folder/hello.txt");
    assert_eq!(entries[1].kind, "Text Document");
    assert_eq!(entries[1].size, HELLO.len() as u64);
    assert!(entries[1].compressed_size > 0);
    assert_eq!(entries[1].modified, Some("2024-03-05 07:09".to_string()));
    let e = inspect_zip(b"not a zip archive").err().unwrap();
    assert_eq!(e.kind, ErrorKind::Other);
}

#[test]
fn zip_encryption_checks() {
    let plain = check_zip_encryption(&zip_bytes(None), Some("pw")).unwrap();
    assert!(!plain.is_encrypted && plain.password_valid && plain.error_message.is_none());
    let data = zip_bytes(Some("mypassword123"));
    let missing = check_zip_encryption(&data, None).unwrap();
    assert!(missing.is_encrypted && !missing.password_valid);
    assert_eq!(missing.error_message, Some("Password required".to_string()));
    let empty = check_zip_encryption(&data, Some("")).unwrap();
    assert_eq!(empty.error_message, Some("Password required".to_string()));
    let wrong = check_zip_encryption(&data, Some("wrongpassword")).unwrap();
    assert!(wrong.is_encrypted && !wrong.password_valid);
    assert!(wrong.error_message.unwrap().starts_with("Invalid password: "));
    let right = check_zip_encryption(&data, Some("mypassword123")).unwrap();
    assert!(right.is_encrypted && right.password_valid && right.error_message.is_none());
    // The listing of an encrypted archive is still readable.
    assert_eq!(inspect_zip(&data).unwrap().len(), 2);
}

#[test]
fn zip_timestamps() {
    let t = ZipTimestamp { year: 2024, month: 1, day: 2, hour: 3, minute: 4 };
    assert_eq!(timestamp_string(t), "2024-01-02 03:04");
    let t = ZipTimestamp { year: 1980, month: 12, day: 31, hour: 23, minute: 59 };
    assert_eq!(timestamp_string(t), "1980-12-31 23:59");
}

#[test]
fn sevenz_listing_and_encryption() {
    let data = sevenz_bytes(None);
    let entries = inspect_7z(&data).unwrap();
    assert_eq!(entries.len(), 1);
    assert_eq!(entries[0].name, "sevenz.txt");
    assert_eq!(entries[0].size, 23);
    assert_eq!(entries[0].kind, "Text Document");
    assert!(!entries[0].is_dir);
    let plain = check_7z_encryption(&data, None).unwrap();
    assert!(!plain.is_encrypted && plain.password_valid);
    let locked = sevenz_bytes(Some("secret"));
    let missing = check_7z_encryption(&locked, None).unwrap();
    assert!(missing.is_encrypted && !missing.password_valid && missing.error_message.is_some());
    let right = check_7z_encryption(&locked, Some("secret")).unwrap();
    assert!(right.is_encrypted && right.password_valid && right.error_message.is_none());
    let wrong = check_7z_encryption(&locked, Some("nope")).unwrap();
    assert!(wrong.is_encrypted && !wrong.password_valid);
    assert!(inspect_7z(b"garbage").is_err());
}

#[test]
fn rar_listing_from_headers() {
    let headers = Ok(vec![
        Ok(RarHeader { filename: "dir\\a.txt".to_string(), is_directory: false, unpacked_size: 5 }),
        Ok(RarHeader { filename: "dir".to_string(), is_directory: true, unpacked_size: 0 }),
    ]);
    let entries = inspect_rar(&headers).unwrap();
    assert_eq!(entries.len(), 2);
    assert_eq!(entries[0].name, "dir/a.txt");
    assert_eq!(entries[0].kind, "Text Document");
    assert_eq!(entries[0].size, 5);
    assert_eq!(entries[1].kind, "Folder");
    let e = inspect_rar(&Err("cannot open".to_string())).err().unwrap();
    assert_eq!(e.kind, ErrorKind::Other);
    assert_eq!(e.message, "RAR error: cannot open");
    let broken = Ok(vec![
        Ok(RarHeader { filename: "a".to_string(), is_directory: false, unpacked_size: 1 }),
        Err("bad header".to_string()),
        Ok(RarHeader { filename: "b".to_string(), is_directory: false, unpacked_size: 1 }),
    ]);
    assert_eq!(inspect_rar(&broken).err().unwrap().message, "RAR error: bad header");
    assert_eq!(rar_error("x").message, "RAR error: x");
}

#[test]
fn rar_tests_and_encryption() {
    assert!(test_rar(&Ok(vec![Ok(()), Ok(())])).is_ok());
    assert!(test_rar(&Ok(Vec::new())).is_ok());
    let e = test_rar(&Ok(vec![Ok(()), Err("crc".to_string()), Err("later".to_string())])).err().unwrap();
    assert_eq!(e.message, "RAR error: crc");
    assert_eq!(test_rar(&Err("open".to_string())).err().unwrap().message, "RAR error: open");

    match check_rar_encryption(&Ok(()), Some("pw")) {
        RarCheck::Done(s) => assert!(!s.is_encrypted && s.password_valid),
        other => panic!("unexpected {:?}", other),
    }
    for pwd in [None, Some("")] {
        match check_rar_encryption(&Err("e".to_string()), pwd) {
            RarCheck::Done(s) => {
                assert!(s.is_encrypted && !s.password_valid);
                assert_eq!(s.error_message, Some("Password required".to_string()));
            }
            other => panic!("unexpected {:?}", other),
        }
    }
    match check_rar_encryption(&Err("e".to_string()), Some("pw")) {
        RarCheck::TestWithPassword(p) => assert_eq!(p, "pw"),
        other => panic!("unexpected {:?}", other),
    }
    let bad = rar_password_status(&Err("RAR error: bad".to_string()));
    assert!(bad.is_encrypted && !bad.password_valid);
    assert_eq!(bad.error_message, Some("Invalid password: RAR error: bad".to_string()));
    let good = rar_password_status(&Ok(()));
    assert!(good.is_encrypted && good.password_valid && good.error_message.is_none());
}

fn stored_zip() -> Vec<u8> {
    let mut w = zip::ZipWriter::new(Cursor::new(Vec::new()));
    let opts = zip::write::SimpleFileOptions::default().compression_method(zip::CompressionMethod::Stored);
    w.start_file("hello.txt", opts).unwrap();
    w.write_all(HELLO).unwrap();
    w.finish().unwrap().into_inner()
}

#[test]
fn zip_integrity() {
    assert!(test_zip(&zip_bytes(None)).is_ok());
    assert!(test_zip(&stored_zip()).is_ok());
    let e = test_zip(b"not a zip archive").err().unwrap();
    assert_eq!(e.kind, ErrorKind::Other);
    // Flip one byte of the stored content: the CRC check fails.
    let mut damaged = stored_zip();
    let at = damaged.windows(HELLO.len()).position(|w| w == HELLO).unwrap();
    damaged[at] ^= 0x20;
    let e = test_zip(&damaged).err().unwrap();
    assert_eq!(e.kind, ErrorKind::Other);
}

#[test]
fn encrypted_zip_needs_the_password_to_test() {
    assert!(test_zip(&zip_bytes(Some("pw"))).is_err());
}

fn consistent(s: &matterpackr::models::EncryptionStatus) -> bool {
    s.password_valid == s.error_message.is_none() && (s.is_encrypted || s.password_valid)
}

#[test]
fn sevenz_status_from_sample_reads() {
    let ok = status_from_reads(&vec![Ok(()), Ok(())]);
    assert!(ok.is_encrypted && ok.password_valid && ok.error_message.is_none());
    let none = status_from_reads(&Vec::new());
    assert!(none.is_encrypted && !none.password_valid);
    assert_eq!(none.error_message.as_deref(), Some("Invalid password"));
    let last = status_from_reads(&vec![Err("first".to_string()), Ok(()), Err("second".to_string())]);
    assert!(!last.password_valid);
    assert_eq!(last.error_message.as_deref(), Some("second"));
    let failed = sevenz_walk_status(&Err("bad data".to_string()));
    assert!(failed.is_encrypted && !failed.password_valid);
    assert_eq!(failed.error_message.as_deref(), Some("Invalid password: bad data"));
    let walked = sevenz_walk_status(&Ok(vec![Ok(())]));
    assert!(walked.password_valid && walked.error_message.is_none());
    for s in [ok, none, last, failed, walked] {
        assert!(consistent(&s));
    }
}

#[test]
fn every_status_keeps_its_rule() {
    let locked = zip_bytes(Some("pw"));
    for pw in [None, Some(""), Some("pw"), Some("wrong")] {
        assert!(consistent(&check_zip_encryption(&locked, pw).unwrap()));
    }
    assert!(consistent(&check_zip_encryption(&zip_bytes(None), None).unwrap()));
    let locked = sevenz_bytes(Some("secret"));
    for pw in [None, Some(""), Some("secret"), Some("nope")] {
        assert!(consistent(&check_7z_encryption(&locked, pw).unwrap()));
    }
    match matterpackr::dispatch::check_encryption("a.tar.gz") {
        Err(s) => assert!(consistent(&s) && !s.is_encrypted),
        Ok(_) => panic!("tar archives are never encrypted"),
    }
}

fn zip_with_folder() -> Vec<u8> {
    let mut w = zip::ZipWriter::new(Cursor::new(Vec::new()));
    let opts = zip::write::SimpleFileOptions::default().compression_method(zip::CompressionMethod::Stored);
    w.add_directory("docs/", opts).unwrap();
    w.start_file("docs/hello.txt", opts).unwrap();
    w.write_all(HELLO).unwrap();
    w.finish().unwrap().into_inner()
}

#[test]
fn zip_test_reads_files_and_skips_folders() {
    assert!(test_zip(&zip_with_folder()).is_ok());
    let mut damaged = zip_with_folder();
    let at = damaged.windows(HELLO.len()).position(|w| w == HELLO).unwrap();
    damaged[at] ^= 0x20;
    let e = test_zip(&damaged).err().unwrap();
    assert_eq!(e.kind, ErrorKind::Other);
    assert!(!e.message.is_empty());
}
