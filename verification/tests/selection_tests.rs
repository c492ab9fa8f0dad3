use matterpackr::disk_image::{
    child_path, clean_entry_name, disk_entry, selective_step, visit_disk_record, SelectiveStep,
};
use matterpackr::drag::{
    hand_over,
    drag_outcome, entry_matches, exposed_paths, first_component_of, normalize_path, raw_stream_name,
};
use matterpackr::errors::ErrorKind;

fn strings(v: &[&str]) -> Vec<String> {
    v.iter().map(|s| s.to_string()).collect()
}

#[test]
fn normalized_selection_paths() {
    assert_eq!(normalize_path("\\a\\b\\"), "a/b");
    assert_eq!(normalize_path("//x/y//"), "x/y");
    assert_eq!(normalize_path("plain"), "plain");
}

#[test]
fn selecting_a_folder_selects_its_subtree() {
    let req = strings(&["folder"]);
    assert!(entry_matches("folder", &req));
    assert!(entry_matches("folder/", &req));
    assert!(entry_matches("folder/sub/x.txt", &req));
    assert!(entry_matches("folder\\sub\\x.txt", &req));
    assert!(!entry_matches("folder2/x.txt", &req));
    assert!(!entry_matches("other", &req));
    assert!(entry_matches("folder", &strings(&["/folder/"])));
    assert!(!entry_matches("anything", &Vec::new()));
}

#[test]
fn exposed_items() {
    assert_eq!(first_component_of("a/b/c"), "a");
    assert_eq!(first_component_of("abc"), "abc");
    let found = vec![Some("/s/a".to_string()), None, Some("/s/a".to_string()), Some("/s/b".to_string())];
    assert_eq!(exposed_paths(&found), strings(&["/s/a", "/s/b"]));
    let e = drag_outcome(Vec::new(), Vec::new()).err().unwrap();
    assert_eq!(e.kind, ErrorKind::NotFound);
    assert_eq!(e.message, "No files were extracted from the archive");
    assert_eq!(drag_outcome(Vec::new(), strings(&["x"])).unwrap(), strings(&["x"]));
    assert_eq!(drag_outcome(strings(&["a"]), strings(&["x"])).unwrap(), strings(&["a"]));
}

#[test]
fn names_of_single_stream_files() {
    assert_eq!(raw_stream_name(Some("Data.TXT.GZ")), "Data.TXT");
    assert_eq!(raw_stream_name(Some("x.bz2")), "x");
    assert_eq!(raw_stream_name(Some("plain")), "plain");
    assert_eq!(raw_stream_name(None), "extracted_file");
}

#[test]
fn disk_image_records() {
    assert_eq!(clean_entry_name("\0 boot \u{1}"), "boot");
    assert_eq!(clean_entry_name("\0boot\u{1} "), "boot\u{1}");
    assert_eq!(clean_entry_name(" setup.exe "), "setup.exe");
    assert_eq!(child_path("", "boot"), "boot");
    assert_eq!(child_path("boot", "grub"), "boot/grub");
    let f = disk_entry("boot/grub.cfg".to_string(), "grub.cfg", false, 42);
    assert_eq!(f.name, "boot/grub.cfg");
    assert_eq!(f.kind, "File");
    assert_eq!(f.size, 42);
    assert_eq!(f.compressed_size, 42);
    let d = disk_entry("boot".to_string(), "boot", true, 2048);
    assert_eq!(d.kind, "Folder");
    assert_eq!(d.size, 0);
    assert!(d.is_dir && d.modified.is_none());
}

#[test]
fn selective_image_extraction() {
    assert_eq!(selective_step("Boot/grub", "boot", false), SelectiveStep::Extract);
    assert_eq!(selective_step("BOOT", "boot", true), SelectiveStep::Extract);
    assert_eq!(selective_step("boot", "boot/grub/x", true), SelectiveStep::Descend);
    assert_eq!(selective_step("boot", "boot/grub", false), SelectiveStep::Skip);
    assert_eq!(selective_step("bootx", "boot", false), SelectiveStep::Skip);
    assert_eq!(selective_step("sources", "boot", true), SelectiveStep::Skip);
}

#[test]
fn walking_image_records() {
    assert!(visit_disk_record("", "\0", true, 0, true).is_none());
    assert!(visit_disk_record("boot", " .. ", true, 0, false).is_none());
    let (e, d) = visit_disk_record("", "\0 boot \u{1}", true, 2048, true).unwrap();
    assert_eq!(e.name, "boot");
    assert_eq!(e.kind, "Folder");
    assert_eq!(e.size, 0);
    assert_eq!(d, Some("boot".to_string()));
    let (e, d) = visit_disk_record("boot", "grub.cfg", false, 77, true).unwrap();
    assert_eq!(e.name, "boot/grub.cfg");
    assert_eq!(e.size, 77);
    assert_eq!(d, None);
    let (e, _) = visit_disk_record("x", " raw name ", false, 1, false).unwrap();
    assert_eq!(e.name, "x/ raw name ");
}

#[test]
fn drag_hand_over() {
    let found = vec![Some("/s/a".to_string()), None, Some("/s/a".to_string()), Some("/s/b".to_string())];
    assert_eq!(hand_over(&found, strings(&["/s/x"])).unwrap(), strings(&["/s/a", "/s/b"]));
    assert_eq!(hand_over(&vec![None], strings(&["/s/x", "/s/y"])).unwrap(), strings(&["/s/x", "/s/y"]));
    let e = hand_over(&vec![None, None], Vec::new()).err().unwrap();
    assert_eq!(e.kind, matterpackr::errors::ErrorKind::NotFound);
    assert_eq!(e.message, "No files were extracted from the archive");
}
