//! The builder-style layout descriptions and the options record.

use libset::builder::{ConfigBuilder, DirectoryBuilder, FileBuilder};
use libset::directory::Directory;
use libset::disk::Disk;
use libset::file::File;
use libset::format::FileFormat;
use libset::writer::{get, Options, Writer};

#[test]
fn check_get() {
    let options = Options { name: "Eddy".to_string(), color: false };
    assert_eq!(get(&options, "name").unwrap(), "Eddy");
}

#[test]
fn get_reads_every_field_by_name() {
    let options = Options { name: "Devmode".to_string(), color: true };
    assert_eq!(get(&options, "name").unwrap(), "Devmode");
    assert_eq!(get(&options, "color").unwrap(), "true");
    assert!(get(&options, "missing").is_none());
}

#[test]
fn options_write_their_record() {
    let mut disk = Disk::new();
    let options = Options { name: "Devmode".to_string(), color: false };
    options.write(&mut disk, "/data/options.toml").unwrap();
    assert_eq!(
        disk.read("/data/options.toml").unwrap(),
        "name = \"Devmode\"\ncolor = \"false\"\n"
    );
}

#[test]
fn a_directory_builds_its_subtree() {
    let mut disk = Disk::new();
    let dir = Directory::new()
        .name("config")
        .path("/data/app/config")
        .dir(Directory::new().name("themes").path("/data/app/config/themes"))
        .file(File::new("settings"));
    dir.build(&mut disk).unwrap();
    assert!(disk.has_dir("/data/app/config"));
    assert!(disk.has_dir("/data/app/config/themes"));
    assert_eq!(disk.read("/data/app/config/settings.toml").unwrap(), "");
}

#[test]
fn a_config_builder_materializes_the_layout() {
    let mut disk = Disk::new();
    let builder = ConfigBuilder::new()
        .project("devmode", "/data")
        .dir(DirectoryBuilder::new().name("paths").file(FileBuilder::new().name("devpaths")))
        .file(FileBuilder::new().name("config").format(FileFormat::JSON));
    builder.build(&mut disk).unwrap();
    assert!(disk.has_dir("/data/devmode"));
    assert!(disk.has_dir("/data/devmode/paths"));
    assert_eq!(disk.read("/data/devmode/paths/devpaths.toml").unwrap(), "");
    assert_eq!(disk.read("/data/devmode/config.json").unwrap(), "");
    assert_eq!(
        disk.read("/data/devmode/app.json").unwrap(),
        "{\"project\": \"devmode\"}"
    );
    assert_eq!(
        builder.current(&disk).unwrap(),
        "{\"project\": \"devmode\"}"
    );
    assert!(ConfigBuilder::validate().is_ok());
}

#[test]
fn file_builder_data_is_rendered_and_written() {
    let mut disk = Disk::new();
    let mut map = serde_json::Map::new();
    map.insert("color".to_string(), serde_json::Value::Bool(true));
    let value = serde_json::Value::Object(map);
    let file = FileBuilder::new()
        .name("app")
        .format(FileFormat::JSON)
        .path("/data/devmode")
        .data(&value)
        .unwrap();
    file.write(&mut disk).unwrap();
    let text = disk.read("/data/devmode/app.json").unwrap();
    assert!(text.contains("\"color\""));
    assert_eq!(file.current(&disk).unwrap(), text);
}

#[test]
fn a_file_builder_without_data_writes_nothing() {
    let mut disk = Disk::new();
    let file = FileBuilder::new().name("empty").path("/data");
    file.write(&mut disk).unwrap();
    assert!(disk.read("/data/empty.toml").is_none());
    file.build(&mut disk).unwrap();
    assert_eq!(disk.read("/data/empty.toml").unwrap(), "");
}

#[test]
fn typed_file_content_follows_the_format() {
    let mut map = serde_json::Map::new();
    map.insert(
        "dark_mode_enabled".to_string(),
        serde_json::Value::Bool(true),
    );
    let value = serde_json::Value::Object(map);
    let toml_file = File::new("settings").set_content(&value).unwrap();
    assert!(toml_file.content.contains("dark_mode_enabled = true"));
    let json_file = File::new("settings")
        .set_format(FileFormat::JSON)
        .set_content(&value)
        .unwrap();
    assert!(json_file.content.contains("\"dark_mode_enabled\": true"));
    let plain = File::new("settings").set_format(FileFormat::Plain);
    assert!(plain.set_content(&value).is_err());
}

#[test]
fn plain_text_goes_through_set_text_alone() {
    let text_file = File::new("notes").set_format(FileFormat::Plain).set_text("remember").unwrap();
    assert_eq!(text_file.content, "remember");
    let toml_file = File::new("notes").set_text("ignored").unwrap();
    assert_eq!(toml_file.content, "");
    assert_eq!(toml_file.get_name(), "notes.toml");
}

#[test]
fn a_layout_config_materializes_like_its_builder() {
    let mut disk = Disk::new();
    let layout = libset::layout::Config::new()
        .project("devmode", "/data")
        .dir(Directory::new().name("config").file(File::new("theme")))
        .file(File::new("notes").set_format(FileFormat::Plain).set_text("kept").unwrap());
    assert!(layout.current(&disk).is_none());
    layout.build(&mut disk).unwrap();
    assert!(disk.has_dir("/data/devmode"));
    assert!(disk.has_dir("/data/devmode/config"));
    assert_eq!(disk.read("/data/devmode/config/theme.toml").unwrap(), "");
    assert_eq!(disk.read("/data/devmode/notes").unwrap(), "kept");
    assert_eq!(
        layout.current(&disk).unwrap(),
        "{\"project\": \"devmode\"}"
    );
}
