use gtd_flow::commands::{default_template, ensure_default_path, read_markdown};
use gtd_flow::store::get_default_store_path;

const TEMPLATE: &str = "# \u{1f4e5} \u{6536}\u{4ef6}\u{7bb1}\n- [ ] \u{793a}\u{4f8b}\u{4efb}\u{52a1}\u{ff08}\u{53ef}\u{5220}\u{9664}\u{6216}\u{5f00}\u{59cb}\u{6dfb}\u{52a0}\u{ff09}\n\n# \u{26a1} \u{4e0b}\u{4e00}\u{6b65}\u{884c}\u{52a8}\n\n\n# \u{23f3} \u{7b49}\u{5f85}\u{786e}\u{8ba4}\n\n\n# \u{2615} \u{5c06}\u{6765}/\u{4e5f}\u{8bb8}\n";

#[test]
fn missing_store_yields_exact_template() {
    assert_eq!(read_markdown(None), TEMPLATE);
    assert_eq!(default_template(), TEMPLATE);
}

#[test]
fn existing_store_yields_its_content() {
    let content = String::from("# my own notes\n- [x] done\n");
    assert_eq!(read_markdown(Some(content.clone())), content);
}

#[test]
fn store_content_round_trips_byte_for_byte() {
    let content = String::from("arbitrary \u{6587}\u{672c} with \"quotes\", \\backslashes\\ and \u{0000} controls\r\n");
    let read_back = read_markdown(Some(content.clone()));
    assert_eq!(read_back.as_bytes(), content.as_bytes());
}

#[test]
fn first_resolution_synthesizes_and_persists() {
    let (path, written) = ensure_default_path(None, "/data/app");
    assert_eq!(path, "/data/app/gtd-flow/store.md");
    let text = written.expect("first resolution must persist the path");
    assert_eq!(get_default_store_path(Some(&text)), Some(path));
}

#[test]
fn second_resolution_returns_identical_path() {
    let (first_path, written) = ensure_default_path(None, "/data/app");
    let text = written.unwrap();
    let (second_path, rewritten) = ensure_default_path(Some(&text), "/another/dir");
    assert_eq!(second_path, first_path);
    assert!(rewritten.is_none());
}

#[test]
fn recorded_default_wins_over_synthesis() {
    let text = gtd_flow::store::set_default_store_path(None, Some(String::from("/picked/by/user.md")));
    let (path, written) = ensure_default_path(Some(&text), "/data/app");
    assert_eq!(path, "/picked/by/user.md");
    assert!(written.is_none());
}

#[test]
fn malformed_prefs_falls_back_to_synthesis() {
    let (path, written) = ensure_default_path(Some("{ not json"), "/data/app");
    assert_eq!(path, "/data/app/gtd-flow/store.md");
    assert!(written.is_some());
}
