//! The answer to a lookup: a crate's name and the items that matched.
use vstd::prelude::*;
use crate::item::{items_view, Item, ItemModel};

verus! {

/// The items found for one crate, in traversal order.
#[derive(Debug)]
pub struct Documentation {
    pub name: String,
    pub items: Vec<Item>,
}

/// The model of a lookup's answer.
pub struct DocumentationModel {
    pub name: Seq<char>,
    pub items: Seq<ItemModel>,
}

impl View for Documentation {
    type V = DocumentationModel;

    open spec fn view(&self) -> DocumentationModel {
        DocumentationModel { name: self.name@, items: items_view(self.items@) }
    }
}

} // verus!
