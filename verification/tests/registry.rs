//! The project registry: the persisted record, the write-through
//! mutators, and the search over the project directory.

use libset::disk::Disk;
use libset::error::Error;
use libset::file::File;
use libset::format::FileFormat;
use libset::project::Project;

#[test]
fn new_persists_the_record() {
    let mut disk = Disk::new();
    let project = Project::new("com", "organization", "App", "/data/App", &mut disk);
    assert!(disk.has_dir("/data/App"));
    let record = disk.read("/data/App/com.organization.App.toml").unwrap();
    assert!(record.contains("qualifier = \"com\""));
    assert!(record.contains("application = \"App\""));
    assert_eq!(project.author, "");
}

#[test]
fn mutators_write_the_whole_record_through() {
    let mut disk = Disk::new();
    let project = Project::new("com", "organization", "App", "/data/App", &mut disk)
        .author("Eve", "/data/App", &mut disk)
        .version("0.2.0", "/data/App", &mut disk)
        .about("a demo", "/data/App", &mut disk);
    let record = disk.read("/data/App/com.organization.App.toml").unwrap();
    assert!(record.contains("author = \"Eve\""));
    assert!(record.contains("version = \"0.2.0\""));
    assert!(record.contains("about = \"a demo\""));
    assert_eq!(project.version, "0.2.0");
}

#[test]
fn open_reads_the_record_back() {
    let mut disk = Disk::new();
    let written = Project::new("com", "organization", "App", "/data/App", &mut disk)
        .author("Eve", "/data/App", &mut disk);
    let read = Project::open("com", "organization", "App", "/data/App", &disk).unwrap();
    assert_eq!(read, written);
}

#[test]
fn open_of_a_missing_record_is_an_io_error() {
    let disk = Disk::new();
    let r = Project::open("com", "organization", "App", "/data/App", &disk);
    assert!(matches!(r, Err(Error::Io(_))));
}

#[test]
fn add_files_places_files_and_keeps_existing_ones() {
    let mut disk = Disk::new();
    let project = Project::new("com", "organization", "App", "/data/App", &mut disk);
    disk.write_file("/data/App/kept.toml", "kept");
    let files = vec![
        File::new("kept").set_text("replaced?").unwrap(),
        File::new("settings").set_format(FileFormat::JSON),
    ];
    project.add_files(&files, "/data/App", &mut disk).unwrap();
    assert_eq!(disk.read("/data/App/kept.toml").unwrap(), "kept");
    assert_eq!(disk.read("/data/App/settings.json").unwrap(), "");
}

#[test]
fn find_returns_each_matching_file_once() {
    let mut disk = Disk::new();
    let project = Project::new("com", "organization", "App", "/data/App", &mut disk);
    disk.write_file("/data/App/settings.toml", "a = 1");
    disk.write_file("/data/App/nested/settings.json", "{}");
    disk.write_file("/data/App/other.txt", "ignored");
    disk.write_file("/elsewhere/settings.toml", "outside");
    let found = project.find("settings", "/data/App", &disk).unwrap();
    assert_eq!(found.len(), 2);
    for file in &found {
        assert!(file.name.contains("settings"));
        assert!(file.path.starts_with("/data/App/"));
    }
    let toml = found.iter().find(|f| f.path.ends_with(".toml")).unwrap();
    assert_eq!(toml.content, "a = 1");
    assert!(matches!(toml.format, FileFormat::TOML));
}

#[test]
fn get_file_needs_exactly_one_match() {
    let mut disk = Disk::new();
    let project = Project::new("com", "organization", "App", "/data/App", &mut disk);
    let r = project.get_file("settings", FileFormat::TOML, "/data/App", &disk);
    assert!(matches!(r, Err(Error::NotFound(_))));
    disk.write_file("/data/App/settings.toml", "a = 1");
    let file = project
        .get_file("settings", FileFormat::TOML, "/data/App", &disk)
        .unwrap();
    assert_eq!(file.name, "settings.toml");
    assert_eq!(file.content, "a = 1");
    disk.write_file("/data/App/more-settings.toml", "b = 2");
    let r = project.get_file("settings", FileFormat::TOML, "/data/App", &disk);
    assert!(matches!(r, Err(Error::Ambiguous(_))));
}

#[test]
fn fields_that_need_escaping_round_trip_through_the_record() {
    let mut disk = Disk::new();
    let written = Project::new("com", "organization", "App", "/data/App", &mut disk)
        .author("back\\slash \"quoted\"", "/data/App", &mut disk)
        .about("two\nlines", "/data/App", &mut disk);
    let read = Project::open("com", "organization", "App", "/data/App", &disk).unwrap();
    assert_eq!(read, written);
    assert_eq!(read.author, "back\\slash \"quoted\"");
    assert_eq!(read.about, "two\nlines");
}

#[test]
fn clear_removes_the_project_directory_alone() {
    let mut disk = Disk::new();
    let project = Project::new("com", "organization", "App", "/data/App", &mut disk);
    disk.write_file("/data/other.toml", "kept");
    project.clear("/data/App", &mut disk).unwrap();
    assert!(!disk.has_dir("/data/App"));
    assert!(disk.read("/data/App/com.organization.App.toml").is_none());
    assert_eq!(disk.read("/data/other.toml").unwrap(), "kept");
}
