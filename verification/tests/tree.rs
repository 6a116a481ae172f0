//! The element tree and its writer: path propagation, materialization,
//! the writer's idempotence for directories and truncation for files, and
//! the persisted self-description.

use libset::config::Config;
use libset::disk::Disk;
use libset::element::{Element, ElementType, Format};
use libset::error::Error;
use libset::format::FileFormat;

#[test]
fn new_config_holds_the_app_description_file() {
    let mut disk = Disk::new();
    let config = Config::new("app", "/data");
    config.write(&mut disk).unwrap();
    assert!(disk.has_dir("/data/app"));
    let record = disk.read("/data/app/app.toml").unwrap();
    assert!(record.contains("name = \"app\""));
}

#[test]
fn writing_a_tree_materializes_exactly_its_paths() {
    let mut disk = Disk::new();
    let config = Config::new("app", "/data").add(
        Element::new("config")
            .set_type(ElementType::Directory)
            .add_child(Element::new("config.toml")),
    );
    config.write(&mut disk).unwrap();
    assert!(disk.has_dir("/data/app"));
    assert!(disk.has_dir("/data/app/config"));
    assert_eq!(disk.read("/data/app/config/config.toml").unwrap(), "");
    assert!(!disk.has_dir("/data/app/config/config.toml"));
    assert!(disk.read("/data/app/config/other.toml").is_none());
}

#[test]
fn rewriting_keeps_directories_and_truncates_files() {
    let mut disk = Disk::new();
    let config = Config::new("app", "/data").add(
        Element::new("config")
            .set_type(ElementType::Directory)
            .add_child(Element::new("config.toml")),
    );
    config.write(&mut disk).unwrap();
    disk.write_file("/data/app/config/config.toml", "stale content");
    config.write(&mut disk).unwrap();
    assert!(disk.has_dir("/data/app"));
    assert!(disk.has_dir("/data/app/config"));
    assert_eq!(disk.read("/data/app/config/config.toml").unwrap(), "");
}

#[test]
fn attaching_a_child_rederives_every_descendant_path() {
    let leaf = Element::new("deep.json").set_format(FileFormat::JSON);
    let inner = Element::new("inner").set_type(ElementType::Directory).add_child(leaf);
    let outer = Element::new("outer")
        .set_type(ElementType::Directory)
        .set_path("/root")
        .add_child(inner);
    assert_eq!(outer.path, "/root/outer");
    assert_eq!(outer.children[0].path, "/root/outer/inner");
    assert_eq!(outer.children[0].children[0].path, "/root/outer/inner/deep.json");
}

#[test]
fn a_file_with_content_and_format_is_written_with_it() {
    let mut disk = Disk::new();
    let file = Element::new("settings.toml")
        .set_format(FileFormat::TOML)
        .set_content("dark_mode_enabled = true\n")
        .set_path("/data/app");
    file.write(&mut disk).unwrap();
    assert_eq!(
        disk.read("/data/app/settings.toml").unwrap(),
        "dark_mode_enabled = true\n"
    );
}

#[test]
fn a_file_with_content_but_no_format_is_written_empty() {
    let mut disk = Disk::new();
    let file = Element::new("settings.toml").set_content("dropped").set_path("/data/app");
    file.write(&mut disk).unwrap();
    assert_eq!(disk.read("/data/app/settings.toml").unwrap(), "");
}

#[test]
fn the_format_name_also_selects_the_node_kind() {
    let dir = Element::new("d").format(Format::Directory);
    assert!(matches!(dir.element_type, ElementType::Directory));
    let file = Element::new("f").format(Format::File);
    assert!(matches!(file.element_type, ElementType::File));
    let with_child = dir.child(file);
    assert_eq!(with_child.children.len(), 1);
}

#[test]
fn current_reads_the_description_back() {
    let mut disk = Disk::new();
    assert!(Config::current("app", "/data", &disk).is_none());
    let config = Config::new("app", "/data").author("Eve").version("0.3.1").about("a demo");
    assert!(!config.is_written(&disk));
    config.write(&mut disk).unwrap();
    assert!(config.is_written(&disk));
    let read = Config::current("app", "/data", &disk).unwrap();
    assert_eq!(read.name, "app");
    assert_eq!(read.author, "Eve");
    assert_eq!(read.version, "0.3.1");
    assert_eq!(read.about, "a demo");
}

#[test]
fn renaming_moves_the_tree() {
    let mut disk = Disk::new();
    let config = Config::new("first", "/data").name("second");
    config.write(&mut disk).unwrap();
    assert!(disk.has_dir("/data/second"));
    assert!(!disk.has_dir("/data/first"));
    assert!(disk.read("/data/second/app.toml").is_some());
}

#[test]
fn metadata_that_needs_escaping_round_trips_through_the_record() {
    let mut disk = Disk::new();
    let config = Config::new("app", "/data")
        .author("quo\"te \\ back")
        .about("line one\nline\ttwo");
    config.write(&mut disk).unwrap();
    let record = disk.read("/data/app/app.toml").unwrap();
    assert!(record.contains("author = \"quo\\\"te \\\\ back\""));
    let read = Config::current("app", "/data", &disk).unwrap();
    assert_eq!(read.author, "quo\"te \\ back");
    assert_eq!(read.about, "line one\nline\ttwo");
}

#[test]
fn relative_get_and_set_work_under_a_base() {
    let mut disk = Disk::new();
    let mut map = serde_json::Map::new();
    map.insert(
        "dark_mode_enabled".to_string(),
        serde_json::Value::Bool(true),
    );
    let value = serde_json::Value::Object(map);
    Config::set("app/settings.toml", &value, FileFormat::TOML, "/data", &mut disk).unwrap();
    let got = Config::get("app/settings.toml", FileFormat::TOML, "/data", &disk).unwrap();
    assert_eq!(got, value);
    assert!(Config::get("app/missing.toml", FileFormat::TOML, "/data", &disk).is_none());
}

#[test]
fn file_extensions_follow_the_format() {
    assert_eq!(FileFormat::Plain.extension(), "");
    assert_eq!(FileFormat::TOML.extension(), ".toml");
    assert_eq!(FileFormat::JSON.extension(), ".json");
    assert_eq!(FileFormat::TOML.ext("settings"), "settings.toml");
    assert_eq!(FileFormat::Plain.ext("settings"), "settings");
    assert_eq!(FileFormat::default(), FileFormat::TOML);
}

#[test]
fn clear_removes_the_application_directory_alone() {
    let mut disk = Disk::new();
    let config = Config::new("app", "/data");
    config.write(&mut disk).unwrap();
    disk.write_file("/data/other/file.toml", "kept");
    config.clear(&mut disk).unwrap();
    assert!(!disk.has_dir("/data/app"));
    assert!(disk.read("/data/app/app.toml").is_none());
    assert_eq!(disk.read("/data/other/file.toml").unwrap(), "kept");
    assert!(!config.is_written(&disk));
}

#[test]
fn validate_accepts_built_trees_and_spots_stale_paths() {
    let config = Config::new("app", "/data");
    assert!(config.validate().is_ok());
    let mut broken = Config::new("app", "/data");
    broken.name = "other".to_string();
    assert!(broken.validate().is_err());
}

#[test]
fn fill_paths_rebases_every_child() {
    let mut element = Element::new("root").set_type(ElementType::Directory).set_path("/data");
    element.children.push(
        Element::new("inner").set_type(ElementType::Directory).add_child(Element::new("f.toml")),
    );
    Config::fill_paths(&mut element);
    assert_eq!(element.path, "/data/root");
    assert_eq!(element.children[0].path, "/data/root/inner");
    assert_eq!(element.children[0].children[0].path, "/data/root/inner/f.toml");
}
