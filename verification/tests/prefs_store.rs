use gtd_flow::store::{get_default_store_path, read_prefs, set_default_store_path, write_prefs};
use gtd_flow::Prefs;

#[test]
fn get_missing_file_is_none() {
    assert_eq!(get_default_store_path(None), None);
}

#[test]
fn set_then_get_returns_exact_value() {
    let text = set_default_store_path(None, Some(String::from("/home/user/notes.md")));
    assert_eq!(
        get_default_store_path(Some(&text)),
        Some(String::from("/home/user/notes.md"))
    );
}

#[test]
fn set_none_clears_default() {
    let first = set_default_store_path(None, Some(String::from("/tmp/a.md")));
    let cleared = set_default_store_path(Some(&first), None);
    assert_eq!(get_default_store_path(Some(&cleared)), None);
}

#[test]
fn set_overwrites_previous_value() {
    let first = set_default_store_path(None, Some(String::from("/old/place.md")));
    let second = set_default_store_path(Some(&first), Some(String::from("/new/place.md")));
    assert_eq!(
        get_default_store_path(Some(&second)),
        Some(String::from("/new/place.md"))
    );
}

#[test]
fn path_with_specials_round_trips() {
    let odd = String::from("C:\\Users\\who\u{ff1f}\\\"quoted\"\nname\t\u{1f4e5}.md");
    let text = set_default_store_path(None, Some(odd.clone()));
    assert_eq!(get_default_store_path(Some(&text)), Some(odd));
}

#[test]
fn empty_path_round_trips() {
    let text = set_default_store_path(None, Some(String::new()));
    assert_eq!(get_default_store_path(Some(&text)), Some(String::new()));
}

#[test]
fn malformed_prefs_reads_as_none() {
    for bad in [
        "",
        "{",
        "garbage",
        "{\"default_store_path\": 42\n}",
        "[1, 2, 3]",
        "{\n  \"default_store_path\": \"unterminated\n}",
        "{\n  \"default_store_path\": \"bad escape \\q\"\n}",
        "null",
    ] {
        assert_eq!(get_default_store_path(Some(bad)), None, "input: {bad:?}");
    }
}

#[test]
fn written_text_is_exactly_the_pretty_object() {
    let text = set_default_store_path(None, Some(String::from("/a.md")));
    assert_eq!(text, "{\n  \"default_store_path\": \"/a.md\"\n}");
    let cleared = set_default_store_path(None, None);
    assert_eq!(cleared, "{\n  \"default_store_path\": null\n}");
}

#[test]
fn prefs_record_round_trips() {
    let p = Prefs {
        default_store_path: Some(String::from("/somewhere/store.md")),
    };
    let text = write_prefs(&p);
    let back = read_prefs(Some(&text));
    assert_eq!(back.default_store_path, p.default_store_path);
}

#[test]
fn written_text_is_what_serde_json_writes() {
    for path in [
        Some("/plain/path.md".to_string()),
        Some("spaces and \u{6c49}\u{5b57}.md".to_string()),
        Some("with \"quotes\" and \\slashes\\".to_string()),
        None,
    ] {
        let ours = set_default_store_path(None, path.clone());
        let mut obj = serde_json::Map::new();
        let value = match &path {
            Some(p) => serde_json::Value::String(p.clone()),
            None => serde_json::Value::Null,
        };
        obj.insert("default_store_path".to_string(), value);
        let theirs = serde_json::to_string_pretty(&serde_json::Value::Object(obj)).unwrap();
        assert_eq!(ours, theirs, "path: {path:?}");
    }
}

#[test]
fn serde_json_written_file_is_read_back() {
    let path = "dir with \"quotes\"\\and\nbreaks\t\u{7bb1}.md".to_string();
    let mut obj = serde_json::Map::new();
    obj.insert(
        "default_store_path".to_string(),
        serde_json::Value::String(path.clone()),
    );
    let theirs = serde_json::to_string_pretty(&serde_json::Value::Object(obj)).unwrap();
    assert_eq!(get_default_store_path(Some(&theirs)), Some(path));
}

#[test]
fn control_characters_round_trip() {
    let odd = String::from("bell\u{0007}form\u{000c}feed.md");
    let text = set_default_store_path(None, Some(odd.clone()));
    assert_eq!(get_default_store_path(Some(&text)), Some(odd));
}
