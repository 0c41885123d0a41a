//! The preference store: one optional default path, kept in a small JSON
//! file. The functions here work on the file's content as a plain value;
//! the surrounding process reads and writes the file itself.

use crate::Prefs;
use crate::codec;
use vstd::prelude::*;

verus! {

/// The default path a preference file records, if any. `file` is the file's
/// content, or `None` where no file could be read; a malformed file counts
/// the same as a missing one.
pub open spec fn stored_default_path(file: Option<Seq<char>>) -> Option<Seq<char>> {
    match file {
        None => None,
        Some(s) => match codec::parse_prefs_json(s) {
            Some(p) => p,
            None => None,
        },
    }
}

/// The preference record a file's text holds, empty on any read or parse
/// failure.
pub fn read_prefs(prefs_file: Option<&str>) -> (r: Prefs)
    ensures
        r@ == stored_default_path(prefs_file.deep_view()),
{
    Prefs { default_store_path: get_default_store_path(prefs_file) }
}

/// The text that serializes a preference record.
pub fn write_prefs(p: &Prefs) -> (r: String)
    ensures
        r@ == codec::prefs_json(p@),
{
    codec::encode_prefs_text(p.default_store_path.as_ref())
}

/// Read the default store path out of the preference file's content. Never
/// fails: a missing, unreadable or malformed file means no default is set.
pub fn get_default_store_path(prefs_file: Option<&str>) -> (r: Option<String>)
    ensures
        r.deep_view() == stored_default_path(prefs_file.deep_view()),
{
    match prefs_file {
        None => None,
        Some(s) => match codec::parse_prefs_text(s) {
            Some(p) => p,
            None => None,
        },
    }
}

/// The preference file's new content after recording `path` as the default
/// store path. The old content, where there is any, is loaded first and only
/// the one field overwritten; with a single recorded preference the result
/// therefore depends on `path` alone.
pub fn set_default_store_path(prefs_file: Option<&str>, path: Option<String>) -> (r: String)
    ensures
        r@ == codec::prefs_json(path.deep_view()),
{
    let mut prefs = read_prefs(prefs_file);
    prefs.default_store_path = path;
    write_prefs(&prefs)
}

/// Whatever default path is recorded — a concrete path or none — reading the
/// written preference text back yields exactly that value.
pub proof fn lemma_set_then_get(path: Option<Seq<char>>)
    ensures
        stored_default_path(Some(codec::prefs_json(path))) == path,
{
    codec::lemma_parse_prefs_encode(path);
}

} // verus!
