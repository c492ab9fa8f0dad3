use matterpackr::errors::{error_of, ErrorKind};
use matterpackr::session::{check_extracted_file, check_view_file, get_cli_open_path, safe_entry_path, view_target, AppError, AppState};

fn strings(v: &[&str]) -> Vec<String> {
    v.iter().map(|s| s.to_string()).collect()
}

#[test]
fn error_messages() {
    let io = AppError::from(error_of(ErrorKind::NotFound, "missing file"));
    assert_eq!(io.message(), "I/O error: missing file");
    assert_eq!(AppError::UnsupportedFormat("xyz".to_string()).message(), "unsupported format: xyz");
    assert_eq!(AppError::InvalidPath("../x".to_string()).message(), "invalid path: ../x");
    assert_eq!(
        AppError::Opener("no handler".to_string()).message(),
        "could not open file with the system default application: no handler"
    );
}

#[test]
fn state_between_commands() {
    let mut s = AppState::default();
    assert_eq!(s.current_archive(), None);
    s.set_current_archive("a.zip".to_string());
    s.set_current_archive("b.7z".to_string());
    assert_eq!(s.current_archive(), Some("b.7z".to_string()));
    s.retain_workspace("/tmp/w1".to_string());
    s.retain_workspace("/tmp/w2".to_string());
    assert_eq!(s.take_workspaces(), strings(&["/tmp/w1", "/tmp/w2"]));
    assert!(s.take_workspaces().is_empty());
    assert_eq!(s.current_archive(), Some("b.7z".to_string()));
    assert_eq!(AppState::new().current_archive(), None);
}

#[test]
fn view_entry_paths() {
    assert_eq!(safe_entry_path("dir\\file.txt").unwrap(), "dir/file.txt");
    assert_eq!(safe_entry_path("a/b/c.txt").unwrap(), "a/b/c.txt");
    assert_eq!(safe_entry_path("a/..b/c").unwrap(), "a/..b/c");
    for bad in ["/abs/file", "a\\..\\b", "..", "x/../y", "\\root"] {
        match safe_entry_path(bad) {
            Err(AppError::InvalidPath(p)) => assert_eq!(p, bad),
            other => panic!("{} accepted: {:?}", bad, other),
        }
    }
}

#[test]
fn view_target_is_the_first_extracted_file() {
    assert_eq!(view_target(&strings(&["/s/a.txt", "/s/b.txt"]), "a.txt").unwrap(), "/s/a.txt");
    match view_target(&Vec::new(), "docs/a.txt") {
        Err(AppError::Io(e)) => {
            assert_eq!(e.kind, ErrorKind::NotFound);
            assert_eq!(e.message, "The selected file was not found after extraction: docs/a.txt");
        }
        other => panic!("unexpected {:?}", other),
    }
}

#[test]
fn command_line_file() {
    let args = strings(&["matterpackr", "-v", "missing.zip", "ok.zip", "later.zip"]);
    assert_eq!(get_cli_open_path(&args, &vec![true, true, false, true, true]), Some("ok.zip".to_string()));
    assert_eq!(get_cli_open_path(&args, &vec![true, true, false, false, false]), None);
    let only_program = strings(&["matterpackr"]);
    assert_eq!(get_cli_open_path(&only_program, &vec![true]), None);
    assert_eq!(get_cli_open_path(&Vec::new(), &Vec::new()), None);
    let dash = strings(&["p", "-archive.zip"]);
    assert_eq!(get_cli_open_path(&dash, &vec![true, true]), None);
}

#[test]
fn viewed_files_must_exist() {
    assert!(check_extracted_file("/s/a.txt", true).is_ok());
    match check_extracted_file("/s/a.txt", false) {
        Err(AppError::Io(e)) => assert_eq!(e.message, "The selected file was not found after extraction: /s/a.txt"),
        other => panic!("unexpected {:?}", other),
    }
    assert!(check_view_file("/s/a.txt", true).is_ok());
    match check_view_file("/s/b.txt", false) {
        Err(AppError::Io(e)) => {
            assert_eq!(e.kind, ErrorKind::NotFound);
            assert_eq!(e.message, "Temporary view file does not exist: /s/b.txt");
        }
        other => panic!("unexpected {:?}", other),
    }
}
