use matterpackr::associations::supported_associations;
use matterpackr::disk_image::is_reserved_or_special_entry;
use matterpackr::models::{capabilities_for_path, format_catalog};

#[test]
fn test_special_entry_filter() {
    assert!(is_reserved_or_special_entry("\0"));
    assert!(is_reserved_or_special_entry("\u{1}"));
    assert!(is_reserved_or_special_entry("."));
    assert!(is_reserved_or_special_entry(".."));
    assert!(is_reserved_or_special_entry("  "));
    assert!(!is_reserved_or_special_entry("boot"));
    assert!(!is_reserved_or_special_entry("setup.exe"));
    assert!(!is_reserved_or_special_entry("sources"));
}

#[test]
fn test_supported_associations_catalog() {
    let associations = supported_associations();
    assert!(!associations.is_empty());
    assert!(associations.iter().any(|a| a.ext == "zip"));
    assert!(associations.iter().any(|a| a.ext == "7z"));
    assert!(associations.iter().any(|a| a.ext == "rar"));
    assert!(associations.iter().any(|a| a.ext == "tar"));
    assert!(associations.iter().any(|a| a.ext == "tgz"));
    assert!(associations.iter().any(|a| a.ext == "iso"));
}

#[test]
fn test_format_catalog_capabilities() {
    let catalog = format_catalog();

    // Only zip, 7z, tar, tar.gz and gz can create, add and remove.
    for item in &catalog {
        if matches!(item.id.as_str(), "zip" | "7z" | "tar" | "tar.gz" | "gz") {
            assert!(item.can_create, "{} should have can_create: true", item.id);
            assert!(item.can_add, "{} should have can_add: true", item.id);
            assert!(item.can_remove, "{} should have can_remove: true", item.id);
            assert!(item.can_extract, "{} should have can_extract: true", item.id);
            assert!(item.can_test, "{} should have can_test: true", item.id);
            assert!(item.can_view, "{} should have can_view: true", item.id);
        } else if item.implemented {
            assert!(!item.can_create, "{} should have can_create: false", item.id);
            assert!(!item.can_add, "{} should have can_add: false", item.id);
            assert!(!item.can_remove, "{} should have can_remove: false", item.id);
            assert!(item.can_extract, "{} should have can_extract: true", item.id);
            assert!(item.can_test, "{} should have can_test: true", item.id);
            assert!(item.can_view, "{} should have can_view: true", item.id);
        }
    }

    // RAR: viewable, password support, read-only.
    let rar_cap = capabilities_for_path("sample.rar");
    assert_eq!(rar_cap.format, "RAR");
    assert!(!rar_cap.can_create);
    assert!(!rar_cap.can_add);
    assert!(!rar_cap.can_remove);
    assert!(rar_cap.can_extract);
    assert!(rar_cap.can_test);
    assert!(rar_cap.can_view);
    assert!(rar_cap.password_support);

    // ZIP: full read/write with password support.
    let zip_cap = capabilities_for_path("sample.zip");
    assert_eq!(zip_cap.format, "ZIP");
    assert!(zip_cap.can_create);
    assert!(zip_cap.can_add);
    assert!(zip_cap.can_remove);
    assert!(zip_cap.can_extract);
    assert!(zip_cap.can_test);
    assert!(zip_cap.can_view);
    assert!(zip_cap.password_support);

    // BIN/CUE and MDF/MDS are not in the catalog.
    assert!(!catalog.iter().any(|item| item.id == "bin-cue"));
    assert!(!catalog.iter().any(|item| item.id == "mdf-mds"));
    assert_eq!(capabilities_for_path("disk.bin").format, "Unknown");
    assert_eq!(capabilities_for_path("disk.cue").format, "Unknown");
    assert_eq!(capabilities_for_path("disk.mdf").format, "Unknown");
    assert_eq!(capabilities_for_path("disk.mds").format, "Unknown");
}
