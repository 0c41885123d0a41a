//! The decision parts of the commands the GUI invokes: which content a read
//! yields, which path a command works on, and what the first resolution of
//! the store path writes back. File contents come in and go out as plain
//! values; the surrounding process does the reads and writes.

use crate::codec;
use crate::store;
use vstd::prelude::*;

verus! {

/// The markdown skeleton a fresh store presents before any content exists.
pub open spec fn template_text() -> Seq<char> {
    "# \u{1f4e5} \u{6536}\u{4ef6}\u{7bb1}\n- [ ] \u{793a}\u{4f8b}\u{4efb}\u{52a1}\u{ff08}\u{53ef}\u{5220}\u{9664}\u{6216}\u{5f00}\u{59cb}\u{6dfb}\u{52a0}\u{ff09}\n\n# \u{26a1} \u{4e0b}\u{4e00}\u{6b65}\u{884c}\u{52a8}\n\n\n# \u{23f3} \u{7b49}\u{5f85}\u{786e}\u{8ba4}\n\n\n# \u{2615} \u{5c06}\u{6765}/\u{4e5f}\u{8bb8}\n"@
}

/// The default template, as a value.
pub fn default_template() -> (r: String)
    ensures
        r@ == template_text(),
{
    "# \u{1f4e5} \u{6536}\u{4ef6}\u{7bb1}\n- [ ] \u{793a}\u{4f8b}\u{4efb}\u{52a1}\u{ff08}\u{53ef}\u{5220}\u{9664}\u{6216}\u{5f00}\u{59cb}\u{6dfb}\u{52a0}\u{ff09}\n\n# \u{26a1} \u{4e0b}\u{4e00}\u{6b65}\u{884c}\u{52a8}\n\n\n# \u{23f3} \u{7b49}\u{5f85}\u{786e}\u{8ba4}\n\n\n# \u{2615} \u{5c06}\u{6765}/\u{4e5f}\u{8bb8}\n".to_owned()
}

/// The store path synthesized on first use under the application data
/// directory.
pub open spec fn synthesized_path(app_data_dir: Seq<char>) -> Seq<char> {
    app_data_dir + "/gtd-flow/store.md"@
}

/// The effective content of the store: the store file's own content where
/// the file exists, the fixed default template where it does not. The file
/// is never created by reading.
pub fn read_markdown(store_file: Option<String>) -> (r: String)
    ensures
        match store_file {
            Some(c) => r@ == c@,
            None => r@ == template_text(),
        },
{
    match store_file {
        Some(c) => c,
        None => default_template(),
    }
}

/// Resolve the effective store path. Where the preference file already
/// records a default, that path is handed back unchanged and nothing is to
/// be written; otherwise the path `<app-data-dir>/gtd-flow/store.md` is
/// synthesized and the second component carries the new preference-file
/// content that persists it.
pub fn ensure_default_path(prefs_file: Option<&str>, app_data_dir: &str) -> (r: (
    String,
    Option<String>,
))
    ensures
        match store::stored_default_path(prefs_file.deep_view()) {
            Some(p) => r.0@ == p && r.1 is None,
            None => r.0@ == synthesized_path(app_data_dir@) && (r.1 matches Some(w) && w@
                == codec::prefs_json(Some(synthesized_path(app_data_dir@)))),
        },
{
    match store::get_default_store_path(prefs_file) {
        Some(p) => (p, None),
        None => {
            let path = app_data_dir.to_owned().concat("/gtd-flow/store.md");
            let written = store::set_default_store_path(prefs_file, Some(path.clone()));
            (path, Some(written))
        },
    }
}

/// Resolving the store path is idempotent: the preference text a first
/// resolution writes, read back, records exactly the path that resolution
/// returned, so a second resolution returns the identical path and writes
/// nothing.
pub proof fn lemma_resolution_idempotent(app_data_dir: Seq<char>)
    ensures
        store::stored_default_path(
            Some(codec::prefs_json(Some(synthesized_path(app_data_dir)))),
        ) == Some(synthesized_path(app_data_dir)),
{
    codec::lemma_parse_prefs_encode(Some(synthesized_path(app_data_dir)));
}

} // verus!
