//! A small desktop-note backend: a markdown "store" file whose location is
//! remembered in a JSON preference file, plus the pure decision logic of the
//! commands a GUI front end invokes.
//!
//! Everything here is pure: file contents and directory paths come in as plain
//! values and new file contents go out as plain values. The surrounding
//! process performs the actual reads and writes.

use vstd::prelude::*;

pub mod codec;
pub mod commands;
pub mod store;

verus! {

/// The preference record: the one remembered value, an optional default
/// location for the store file.
pub struct Prefs {
    pub default_store_path: Option<String>,
}

impl View for Prefs {
    type V = Option<Seq<char>>;

    open spec fn view(&self) -> Option<Seq<char>> {
        match self.default_store_path {
            Some(ref s) => Some(s@),
            None => None,
        }
    }
}

} // verus!
