//! Builds a search dialog from a search descriptor.
use vstd::prelude::*;
use crate::form_types::opt_string_view;
use crate::search_config::SearchConfig;
use crate::search_types::{Search, SearchItem};

verus! {

/// Builds the search dialog that a descriptor describes: same title, icon
/// and entries (id and label), in order; no entry has a trigger.
pub fn generate(config: SearchConfig) -> (r: Search)
    ensures
        r.title@ == config.title@,
        opt_string_view(r.icon) == opt_string_view(config.icon),
        r.items@.len() == config.items@.len(),
        forall|i: int|
            0 <= i < r.items@.len() ==> {
                &&& #[trigger] r.items@[i].id@ == config.items@[i].id@
                &&& r.items@[i].label@ == config.items@[i].label@
                &&& r.items@[i].trigger is None
            },
{
    let mut items: Vec<SearchItem> = Vec::new();
    let mut i: usize = 0;
    while i < config.items.len()
        invariant
            i <= config.items@.len(),
            items@.len() == i,
            forall|k: int|
                0 <= k < i ==> {
                    &&& #[trigger] items@[k].id@ == config.items@[k].id@
                    &&& items@[k].label@ == config.items@[k].label@
                    &&& items@[k].trigger is None
                },
        decreases config.items.len() - i,
    {
        let item = &config.items[i];
        items.push(SearchItem { id: item.id.clone(), label: item.label.clone(), trigger: None });
        i = i + 1;
    }
    Search { title: config.title, items, icon: config.icon }
}

} // verus!
