//! The descriptor of a search dialog, as read from YAML or JSON, and the
//! defaults of its optional entries.
use vstd::prelude::*;
use crate::form_config::modulo_title;

verus! {

/// The algorithm used when a descriptor names none: `"ikey"`.
pub open spec fn ikey_name() -> Seq<char> {
    seq!['i', 'k', 'e', 'y']
}

/// A search descriptor.
#[derive(Debug)]
pub struct SearchConfig {
    pub title: String,
    pub icon: Option<String>,
    pub items: Vec<SearchItem>,
    pub algorithm: String,
}

/// An entry of a search descriptor.
#[derive(Debug)]
pub struct SearchItem {
    pub id: String,
    pub label: String,
}

/// The default title of a search dialog: `"modulo"`.
pub fn default_title() -> (r: String)
    ensures
        r@ == modulo_title(),
{
    let s = "modulo";
    proof {
        reveal_strlit("modulo");
    }
    s.to_owned()
}

/// A search dialog has no icon unless its descriptor gives one.
pub fn default_icon() -> (r: Option<String>)
    ensures
        r is None,
{
    None
}

/// A search dialog has no entries unless its descriptor gives some.
pub fn default_items() -> (r: Vec<SearchItem>)
    ensures
        r@.len() == 0,
{
    Vec::new()
}

/// The default search algorithm: `"ikey"` (case-insensitive keywords).
pub fn default_algorithm() -> (r: String)
    ensures
        r@ == ikey_name(),
{
    let s = "ikey";
    proof {
        reveal_strlit("ikey");
    }
    s.to_owned()
}

} // verus!
