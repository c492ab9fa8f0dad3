use matterpackr::associations::{
    association_keys, elevation_command, elevation_outcome, get_registered_associations,
    icon_value, is_selected, open_command, parse_association_args, query_names_program, registered_associations_from,
    supported_associations,
};

fn strings(v: &[&str]) -> Vec<String> {
    v.iter().map(|s| s.to_string()).collect()
}

#[test]
fn association_table() {
    let all = supported_associations();
    assert_eq!(all.len(), 15);
    assert_eq!(all[0].prog_id, "MatterPackr.zip");
    assert_eq!(all[14].ext, "a");
    assert_eq!(all[14].description, "Static Library Archive");
    let exts = get_registered_associations();
    assert_eq!(exts, all.iter().map(|a| a.ext.to_string()).collect::<Vec<_>>());
}

#[test]
fn registered_values_are_read_back() {
    let mut values: Vec<Option<String>> = vec![None; 15];
    values[0] = Some("matterpackr.ZIP".to_string());
    values[1] = Some("Other.7z".to_string());
    values[2] = Some("xx MatterPackr.rar yy".to_string());
    values[9] = Some("MatterPackr.iso".to_string());
    assert_eq!(registered_associations_from(&values), strings(&["zip", "rar", "iso"]));
}

#[test]
fn selected_extensions() {
    let selected = strings(&[".ZIP", "..tgz", "iso"]);
    assert!(is_selected("zip", &selected));
    assert!(is_selected("tgz", &selected));
    assert!(is_selected("iso", &selected));
    assert!(!is_selected("rar", &selected));
}

#[test]
fn registry_values() {
    let item = supported_associations()[4];
    let keys = association_keys(&item);
    assert_eq!(keys.ext_key, "HKCR\\.tgz");
    assert_eq!(keys.prog_key, "HKCR\\MatterPackr.tgz");
    assert_eq!(keys.icon_key, "HKCR\\MatterPackr.tgz\\DefaultIcon");
    assert_eq!(keys.command_key, "HKCR\\MatterPackr.tgz\\shell\\open\\command");
    assert_eq!(icon_value(Some("C:\\icons\\archive.ico"), "C:\\mp.exe"), "\"C:\\icons\\archive.ico\"");
    assert_eq!(icon_value(None, "C:\\mp.exe"), "\"C:\\mp.exe\",0");
    assert_eq!(open_command("C:\\mp.exe"), "\"C:\\mp.exe\" \"%1\"");
}

#[test]
fn helper_process_arguments() {
    let args = strings(&["mp.exe", "--set-associations", " .zip, 7z ,,.tgz "]);
    assert_eq!(parse_association_args(&args), Some(strings(&["zip", "7z", "tgz"])));
    assert_eq!(parse_association_args(&strings(&["mp.exe", "--set-associations"])), Some(Vec::new()));
    assert_eq!(parse_association_args(&strings(&["mp.exe", "file.zip"])), None);
}

#[test]
fn elevation() {
    let cmd = elevation_command("C:\\it's\\mp.exe", &strings(&["zip", "7z"]));
    assert_eq!(
        cmd,
        "Start-Process -FilePath 'C:\\it''s\\mp.exe' -ArgumentList '--set-associations zip,7z' -Verb RunAs -Wait -WindowStyle Hidden"
    );
    assert_eq!(elevation_outcome(true, Some(0), ""), Ok(()));
    assert_eq!(
        elevation_outcome(false, Some(5), "The operation was canceled by the user."),
        Err("Administrator elevation was cancelled by user.".to_string())
    );
    assert_eq!(elevation_outcome(false, Some(1), ""), Err("Administrator elevation was cancelled by user.".to_string()));
    assert_eq!(elevation_outcome(false, Some(2), "  access denied \n"), Err("Elevation failed: access denied".to_string()));
}

#[test]
fn only_our_associations_are_removed() {
    let out = "\r\nHKEY_CLASSES_ROOT\\.zip\r\n    (Default)    REG_SZ    MatterPackr.zip\r\n";
    assert!(query_names_program(out, "MatterPackr.zip"));
    assert!(!query_names_program("    (Default)    REG_SZ    OtherApp.zip", "MatterPackr.zip"));
    assert!(!query_names_program("", "MatterPackr.zip"));
}
