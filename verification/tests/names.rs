//! Name sanitization, path joining and the small text helpers.

use libset::disk::Disk;
use libset::error::Error;
use libset::utils::{
    basename, join_path, sanitize_name, str_contains, str_ends_with, str_starts_with, FileType,
};

#[test]
fn sanitize_rejects_traversal_and_empty_names() {
    assert!(matches!(sanitize_name("a/b"), Err(Error::InvalidName(_))));
    assert!(matches!(sanitize_name("."), Err(Error::InvalidName(_))));
    assert!(matches!(sanitize_name(".."), Err(Error::InvalidName(_))));
    assert!(matches!(sanitize_name(""), Err(Error::InvalidName(_))));
}

#[test]
fn sanitize_accepts_single_components() {
    assert_eq!(sanitize_name("settings").unwrap(), "settings");
    assert_eq!(sanitize_name("my-app_01").unwrap(), "my-app_01");
    assert_eq!(sanitize_name("...").unwrap(), "...");
}

#[test]
fn joining_an_empty_name_resolves_to_the_base() {
    assert_eq!(join_path("/data/app", ""), "/data/app");
    assert_eq!(join_path("/data", "app"), "/data/app");
}

#[test]
fn file_types_carry_their_extensions() {
    assert_eq!(FileType::Plain.as_str(), "");
    assert_eq!(FileType::Toml.as_str(), "toml");
    assert_eq!(FileType::Json.as_str(), "json");
    assert_eq!(FileType::Ron.as_str(), "ron");
}

#[test]
fn text_search_helpers_match_exactly() {
    assert!(str_contains("settings.toml", "settings"));
    assert!(str_contains("settings.toml", ""));
    assert!(!str_contains("settings.toml", "json"));
    assert!(str_ends_with("settings.toml", ".toml"));
    assert!(!str_ends_with("settings.toml", ".json"));
    assert!(str_starts_with("/data/app", "/data"));
    assert!(!str_starts_with("/data", "/data/app"));
    assert_eq!(basename("/data/app/settings.toml"), "settings.toml");
    assert_eq!(basename("settings.toml"), "settings.toml");
}

#[test]
fn the_disk_lists_each_file_path_once() {
    let mut disk = Disk::new();
    disk.write_file("/a", "1");
    disk.write_file("/b", "2");
    disk.write_file("/a", "3");
    let paths = disk.paths();
    assert_eq!(paths.len(), 2);
    assert!(paths.iter().any(|p| p == "/a"));
    assert!(paths.iter().any(|p| p == "/b"));
    assert_eq!(disk.read("/a").unwrap(), "3");
    disk.mkdir("/d");
    assert!(disk.dir_list().iter().any(|p| p == "/d"));
}
