//! The schema of a search dialog, as handed to the native toolkit.
use vstd::prelude::*;

verus! {

/// One entry of a search dialog: the id it returns when chosen, the label
/// shown, and an optional trigger text that the search also looks at.
#[derive(Debug)]
pub struct SearchItem {
    pub id: String,
    pub label: String,
    pub trigger: Option<String>,
}

/// A search dialog: a window title, an optional icon and the entries.
#[derive(Debug)]
pub struct Search {
    pub title: String,
    pub icon: Option<String>,
    pub items: Vec<SearchItem>,
}

} // verus!
