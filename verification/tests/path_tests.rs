use matterpackr::errors::ErrorKind;
use matterpackr::models::{resolve_output_path, ConflictMode, OutputStep, MAX_RENAME_ATTEMPTS};
use matterpackr::paths::{
    extension, file_name, file_stem, safe_relative, sevenz_safe_relative, sevenz_target_dir,
    tar_target_dir,
};

fn chars(s: &str) -> Vec<char> {
    s.chars().collect()
}

fn used(step: OutputStep) -> String {
    match step {
        OutputStep::Use(p) => p,
        other => panic!("expected a path, got {:?}", other),
    }
}

#[test]
fn path_parts() {
    assert_eq!(file_name(&chars("a/b/archive.tar.gz")), Some("archive.tar.gz".to_string()));
    assert_eq!(file_stem(&chars("a/b/archive.tar.gz")), Some("archive.tar".to_string()));
    assert_eq!(extension(&chars("a/b/archive.tar.gz")), Some("gz".to_string()));
    assert_eq!(file_name(&chars("a/b/.")), Some("b".to_string()));
    assert_eq!(file_name(&chars("a/b/..")), None);
    assert_eq!(file_name(&chars("/")), None);
    assert_eq!(file_name(&chars("dir/")), Some("dir".to_string()));
    assert_eq!(extension(&chars(".bashrc")), None);
    assert_eq!(file_stem(&chars(".bashrc")), Some(".bashrc".to_string()));
    assert_eq!(extension(&chars("name.")), Some("".to_string()));
}

#[test]
fn safe_relative_paths() {
    assert_eq!(safe_relative("a/./b//c").unwrap(), "a/b/c");
    assert_eq!(safe_relative("docs/readme.txt").unwrap(), "docs/readme.txt");
    let e = safe_relative("/etc/passwd").err().unwrap();
    assert_eq!(e.kind, ErrorKind::InvalidInput);
    assert_eq!(e.message, "Absolute path not allowed: /etc/passwd");
    let e = safe_relative("a/../b").err().unwrap();
    assert_eq!(e.message, "Invalid path component: a/../b");
    let e = safe_relative("./").err().unwrap();
    assert_eq!(e.message, "Empty relative path: ./");
    let e = safe_relative("").err().unwrap();
    assert_eq!(e.message, "Empty relative path: ");
    let e = sevenz_safe_relative("../x").err().unwrap();
    assert_eq!(e.message, "Invalid path component in: ../x");
    assert_eq!(sevenz_safe_relative("x/./y/").unwrap(), "x/y");
}

#[test]
fn safe_paths_stay_inside() {
    for name in ["x/./y/", "a//b", "./c", "deep/er/file.txt"] {
        let p = safe_relative(name).unwrap();
        assert!(!p.is_empty() && !p.starts_with('/'));
        assert!(p.split('/').all(|s| !s.is_empty() && s != "." && s != ".."));
    }
}

#[test]
fn target_folders_for_added_files() {
    assert_eq!(tar_target_dir(None).unwrap(), None);
    assert_eq!(tar_target_dir(Some("//")).unwrap(), None);
    assert_eq!(tar_target_dir(Some("/docs/sub/")).unwrap(), Some("docs/sub".to_string()));
    let e = tar_target_dir(Some("a/../b")).err().unwrap();
    assert_eq!(e.message, "Invalid path component: a/../b");
    let e = sevenz_target_dir(Some("/../x/")).err().unwrap();
    assert_eq!(e.message, "Invalid path component in: ../x");
    assert_eq!(sevenz_target_dir(Some("x")).unwrap(), Some("x".to_string()));
}

#[test]
fn output_path_resolution() {
    assert_eq!(MAX_RENAME_ATTEMPTS, 9999);
    assert_eq!(used(resolve_output_path("out/file.txt", &ConflictMode::Rename, 0, false)), "out/file.txt");
    assert_eq!(used(resolve_output_path("out/file.txt", &ConflictMode::Overwrite, 0, true)), "out/file.txt");
    assert!(matches!(resolve_output_path("out/file.txt", &ConflictMode::Cancel, 0, true), OutputStep::Abort));
    match resolve_output_path("out/file.txt", &ConflictMode::Rename, 0, true) {
        OutputStep::Probe { attempt, candidate } => {
            assert_eq!(attempt, 1);
            assert_eq!(candidate, "out/file (1).txt");
        }
        other => panic!("unexpected {:?}", other),
    }
    match resolve_output_path("/abs/x.tar.gz", &ConflictMode::Rename, 4, true) {
        OutputStep::Probe { attempt, candidate } => {
            assert_eq!(attempt, 5);
            assert_eq!(candidate, "/abs/x.tar (5).gz");
        }
        other => panic!("unexpected {:?}", other),
    }
    match resolve_output_path("noext", &ConflictMode::Rename, 0, true) {
        OutputStep::Probe { candidate, .. } => assert_eq!(candidate, "noext (1)"),
        other => panic!("unexpected {:?}", other),
    }
    assert_eq!(used(resolve_output_path("out/file.txt", &ConflictMode::Rename, 1, false)), "out/file (1).txt");
    assert_eq!(
        used(resolve_output_path("out/file.txt", &ConflictMode::Rename, MAX_RENAME_ATTEMPTS, true)),
        "out/file.txt"
    );
}

#[test]
fn rename_candidates_are_distinct() {
    let mut seen: Vec<String> = Vec::new();
    let mut attempt = 0;
    while attempt < 12 {
        match resolve_output_path("d/f.txt", &ConflictMode::Rename, attempt, true) {
            OutputStep::Probe { attempt: next, candidate } => {
                assert!(!seen.contains(&candidate));
                seen.push(candidate);
                attempt = next;
            }
            other => panic!("unexpected {:?}", other),
        }
    }
    assert_eq!(seen[9], "d/f (10).txt");
}

#[test]
fn backslash_separated_paths() {
    assert_eq!(file_name(&chars("C:\\dir\\a.zip")), Some("a.zip".to_string()));
    assert_eq!(extension(&chars("C:\\dir\\a.zip")), Some("zip".to_string()));
    assert_eq!(file_stem(&chars("dir\\sub\\b.tar.gz")), Some("b.tar".to_string()));
    assert_eq!(matterpackr::models::format_from_path("C:\\d\\x.ZIP"), "zip");
    assert_eq!(safe_relative("a\\b").unwrap(), "a/b");
    let e = safe_relative("..\\x").err().unwrap();
    assert_eq!(e.kind, ErrorKind::InvalidInput);
    assert_eq!(e.message, "Invalid path component: ..\\x");
    let e = safe_relative("C:x").err().unwrap();
    assert_eq!(e.message, "Invalid path component: C:x");
    let e = safe_relative("./C:\\y").err().unwrap();
    assert_eq!(e.message, "Invalid path component: ./C:\\y");
    let e = safe_relative("\\etc\\passwd").err().unwrap();
    assert_eq!(e.message, "Absolute path not allowed: \\etc\\passwd");
    assert_eq!(safe_relative("dir\\C:x").unwrap(), "dir/C:x");
}

#[test]
fn safe_path_passes_the_check_again() {
    for name in ["x/./y/", "a\\\\b", "./c", "deep/er/file.txt"] {
        let p = safe_relative(name).unwrap();
        assert_eq!(safe_relative(&p).unwrap(), p);
    }
}
