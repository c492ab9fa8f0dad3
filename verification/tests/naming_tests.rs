use matterpackr::errors::ErrorKind;
use matterpackr::inputs::{
    check_input_exists, check_inputs_selected, sevenz_added_input_name, staged_input_name,
    tar_added_input_name,
};
use matterpackr::zip_engine::{
    clean_target_dir, compression_method, directory_entry_name, entry_name_in, is_removed,
    relative_name, ZipMethod,
};

fn strings(v: &[&str]) -> Vec<String> {
    v.iter().map(|s| s.to_string()).collect()
}

#[test]
fn zip_compression_methods() {
    assert_eq!(compression_method("Fast"), (ZipMethod::Deflated, Some(1)));
    assert_eq!(compression_method("Maximum"), (ZipMethod::Deflated, Some(9)));
    assert_eq!(compression_method("Normal"), (ZipMethod::Deflated, Some(6)));
}

#[test]
fn names_of_added_entries() {
    assert_eq!(clean_target_dir(Some("\\docs\\sub\\")), Some("docs/sub".to_string()));
    assert_eq!(clean_target_dir(Some("//")), None);
    assert_eq!(clean_target_dir(None), None);
    assert_eq!(entry_name_in(Some("docs"), "a.txt"), "docs/a.txt");
    assert_eq!(entry_name_in(None, "a.txt"), "a.txt");
    assert_eq!(directory_entry_name("folder//"), "folder/");
    assert_eq!(directory_entry_name("folder"), "folder/");
    assert_eq!(relative_name("/base", "/base/sub/x.txt"), "sub/x.txt");
    assert_eq!(relative_name("/other", "/base/x"), "/base/x");
    assert_eq!(relative_name("/base", "/base"), "");
    assert_eq!(relative_name("in", "in/a\\b.txt"), "a/b.txt");
}

#[test]
fn removal_covers_folders() {
    let names = strings(&["folder"]);
    assert!(is_removed("folder", &names));
    assert!(is_removed("folder/", &names));
    assert!(is_removed("folder/x.txt", &names));
    assert!(is_removed("folder/deep/y.txt", &names));
    assert!(!is_removed("folder2/x.txt", &names));
    let slash = strings(&["folder/"]);
    assert!(is_removed("folder/", &slash));
    assert!(is_removed("folder/x.txt", &slash));
    assert!(!is_removed("folder", &slash));
    assert!(!is_removed("anything", &Vec::new()));
}

#[test]
fn input_checks() {
    let e = check_inputs_selected(0).err().unwrap();
    assert_eq!(e.kind, ErrorKind::InvalidInput);
    assert_eq!(e.message, "No input files selected");
    assert!(check_inputs_selected(2).is_ok());
    assert_eq!(staged_input_name("/home/u/photos/", true).unwrap(), "photos");
    let e = staged_input_name("/home/u/x", false).err().unwrap();
    assert_eq!(e.kind, ErrorKind::NotFound);
    assert_eq!(e.message, "Input does not exist: /home/u/x");
    let e = staged_input_name("/", true).err().unwrap();
    assert_eq!(e.kind, ErrorKind::InvalidInput);
    assert_eq!(e.message, "Invalid input filename: /");
    let e = tar_added_input_name("a/..", true).err().unwrap();
    assert_eq!(e.message, "Invalid filename: a/..");
    let e = sevenz_added_input_name("gone.txt", false).err().unwrap();
    assert_eq!(e.message, "File not found: gone.txt");
    assert_eq!(sevenz_added_input_name("dir/kept.txt", true).unwrap(), "kept.txt");
    assert!(check_input_exists("x", true).is_ok());
    assert_eq!(check_input_exists("x", false).err().unwrap().message, "File not found: x");
}
