//! The keyed store: opening, paths, existence checks, typed and plain
//! round trips, and the error taxonomy.

use libset::disk::Disk;
use libset::error::Error;
use libset::Config;
use libset::FileType;

fn object(key: &str, value: &str) -> serde_json::Value {
    let mut map = serde_json::Map::new();
    map.insert(key.to_string(), serde_json::Value::String(value.to_string()));
    serde_json::Value::Object(map)
}

#[test]
fn open_creates_the_store_directories() {
    let mut disk = Disk::new();
    let store = Config::new("org.example.Demo", 1, None, "/cfg", &mut disk).unwrap();
    assert!(disk.has_dir("/cfg/org.example.Demo"));
    assert!(disk.has_dir("/cfg/org.example.Demo/v1"));
    let path = store.path("colors", FileType::Json).unwrap();
    assert_eq!(path, "/cfg/org.example.Demo/v1/colors.json");
}

#[test]
fn open_rejects_traversal_names() {
    let mut disk = Disk::new();
    let r = Config::new("..", 1, None, "/cfg", &mut disk);
    assert!(matches!(r, Err(Error::InvalidName(_))));
    let r = Config::new("app", 1, Some("a/b"), "/cfg", &mut disk);
    assert!(matches!(r, Err(Error::InvalidName(_))));
}

#[test]
fn json_set_then_get_round_trips() {
    let mut disk = Disk::new();
    let store = Config::new("org.example.Demo", 1, None, "/cfg", &mut disk).unwrap();
    let value = object("accent", "#7a7af9");
    store.set("colors", FileType::Json, &value, &mut disk).unwrap();
    let got = store.get("colors", FileType::Json, &disk).unwrap();
    assert_eq!(got, value);
    let text = disk.read("/cfg/org.example.Demo/v1/colors.json").unwrap();
    assert!(text.contains("\"accent\""));
    assert!(text.contains("#7a7af9"));
    assert!(text.contains('\n'));
}

#[test]
fn toml_set_then_get_round_trips() {
    let mut disk = Disk::new();
    let store = Config::new("app", 3, None, "/cfg", &mut disk).unwrap();
    let value = object("editor", "hx");
    store.set("tools", FileType::Toml, &value, &mut disk).unwrap();
    let got = store.get("tools", FileType::Toml, &disk).unwrap();
    assert_eq!(got, value);
    let text = disk.read("/cfg/app/v3/tools.toml").unwrap();
    assert!(text.contains("editor"));
}

#[test]
fn ron_set_then_get_round_trips() {
    let mut disk = Disk::new();
    let store = Config::new("app", 1, None, "/cfg", &mut disk).unwrap();
    let value = serde_json::Value::String("plain enough".to_string());
    store.set("note", FileType::Ron, &value, &mut disk).unwrap();
    let got = store.get("note", FileType::Ron, &disk).unwrap();
    assert_eq!(got, value);
}

#[test]
fn has_is_false_before_and_true_after_set() {
    let mut disk = Disk::new();
    let store = Config::new("app", 1, None, "/cfg", &mut disk).unwrap();
    assert!(!store.has_json("colors", &disk));
    assert!(!store.has_toml("colors", &disk));
    assert!(!store.has_ron("colors", &disk));
    assert!(!store.has_plain("colors", &disk));
    let value = object("accent", "#7a7af9");
    store.set("colors", FileType::Json, &value, &mut disk).unwrap();
    assert!(store.has_json("colors", &disk));
    assert!(!store.has_toml("colors", &disk));
}

#[test]
fn plain_set_then_get_round_trips() {
    let mut disk = Disk::new();
    let store = Config::new("app", 1, None, "/cfg", &mut disk).unwrap();
    store.set_plain("motd", "hello there\n", &mut disk).unwrap();
    assert!(store.has_plain("motd", &disk));
    assert_eq!(store.get_plain("motd", &disk).unwrap(), "hello there\n");
    assert_eq!(disk.read("/cfg/app/v1/motd").unwrap(), "hello there\n");
}

#[test]
fn get_of_a_missing_key_is_a_get_key_error() {
    let mut disk = Disk::new();
    let store = Config::new("app", 1, None, "/cfg", &mut disk).unwrap();
    let r = store.get("missing", FileType::Toml, &disk);
    match r {
        Err(Error::GetKey(key, _)) => assert_eq!(key, "missing"),
        other => panic!("expected a GetKey error, got {:?}", other),
    }
    let r = store.get_plain("missing", &disk);
    assert!(matches!(r, Err(Error::GetKey(_, _))));
}

#[test]
fn get_of_an_unparsable_file_is_the_format_error() {
    let mut disk = Disk::new();
    let store = Config::new("app", 1, None, "/cfg", &mut disk).unwrap();
    disk.write_file("/cfg/app/v1/broken.json", "{ not json");
    let r = store.get("broken", FileType::Json, &disk);
    assert!(matches!(r, Err(Error::Json(_))));
    disk.write_file("/cfg/app/v1/broken.toml", "= nope =");
    let r = store.get("broken", FileType::Toml, &disk);
    assert!(matches!(r, Err(Error::TomlDeserialize(_))));
}

#[test]
fn set_of_an_unserializable_value_leaves_the_disk_alone() {
    let mut disk = Disk::new();
    let store = Config::new("app", 1, None, "/cfg", &mut disk).unwrap();
    let top_level_string = serde_json::Value::String("no table".to_string());
    let r = store.set("odd", FileType::Toml, &top_level_string, &mut disk);
    assert!(matches!(r, Err(Error::TomlSerialize(_))));
    assert!(!store.has_toml("odd", &disk));
}

#[test]
fn set_rejects_invalid_keys() {
    let mut disk = Disk::new();
    let store = Config::new("app", 1, None, "/cfg", &mut disk).unwrap();
    let value = object("a", "b");
    let r = store.set("a/b", FileType::Json, &value, &mut disk);
    assert!(matches!(r, Err(Error::InvalidName(_))));
    let r = store.get("a/b", FileType::Json, &disk);
    assert!(matches!(r, Err(Error::InvalidName(_))));
}

#[test]
fn a_scope_keeps_stores_apart() {
    let mut disk = Disk::new();
    let scoped = Config::new("app", 1, Some("appearance"), "/cfg", &mut disk).unwrap();
    let unscoped = Config::new("app", 1, None, "/cfg", &mut disk).unwrap();
    assert!(disk.has_dir("/cfg/app/v1/appearance"));
    scoped.set_plain("colors", "dark", &mut disk).unwrap();
    assert!(scoped.has_plain("colors", &disk));
    assert!(!unscoped.has_plain("colors", &disk));
    assert_eq!(disk.read("/cfg/app/v1/appearance/colors").unwrap(), "dark");
    assert_eq!(
        scoped.path("colors", FileType::Plain).unwrap(),
        "/cfg/app/v1/appearance/colors"
    );
    assert_eq!(
        unscoped.path("colors", FileType::Plain).unwrap(),
        "/cfg/app/v1/colors"
    );
}

#[test]
fn version_appears_in_decimal_in_the_path() {
    let mut disk = Disk::new();
    let store = Config::new("app", 120, None, "/cfg", &mut disk).unwrap();
    assert_eq!(store.path("k", FileType::Ron).unwrap(), "/cfg/app/v120/k.ron");
    assert!(disk.has_dir("/cfg/app/v120"));
}

#[test]
fn overwrite_is_unconditional_and_last_wins() {
    let mut disk = Disk::new();
    let store = Config::new("app", 1, None, "/cfg", &mut disk).unwrap();
    store.set_plain("k", "first", &mut disk).unwrap();
    store.set_plain("k", "second", &mut disk).unwrap();
    assert_eq!(store.get_plain("k", &disk).unwrap(), "second");
}

#[test]
fn every_accessor_rejects_a_key_that_is_not_one_component() {
    let mut disk = Disk::new();
    let store = Config::new("app", 1, None, "/cfg", &mut disk).unwrap();
    assert!(matches!(store.path(".", FileType::Toml), Err(Error::InvalidName(_))));
    assert!(matches!(store.path("..", FileType::Json), Err(Error::InvalidName(_))));
    assert!(matches!(
        store.set_plain("../escape", "x", &mut disk),
        Err(Error::InvalidName(_))
    ));
    assert!(matches!(store.get_plain("a/b", &disk), Err(Error::InvalidName(_))));
    assert!(!store.has_plain("a/b", &disk));
    assert!(!store.has_toml(".", &disk));
    assert!(disk.read("/cfg/app/v1/../escape").is_none());
}
