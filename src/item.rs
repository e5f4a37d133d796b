//! Documented items and their methods, with their mathematical models.
use vstd::prelude::*;
use crate::item_kind::ItemKind;

verus! {

/// A method listed on a struct or trait page.
#[derive(Debug, PartialEq)]
pub struct Method {
    pub name: String,
    pub signature: String,
    pub description: Option<String>,
}

/// One documented item. Every variant has a name and an optional
/// description; all but `Module` have a signature.
#[derive(Debug, PartialEq)]
pub enum Item {
    Function { name: String, signature: String, description: Option<String> },
    Struct {
        name: String,
        signature: String,
        description: Option<String>,
        methods: Vec<Method>,
    },
    Enum { name: String, signature: String, description: Option<String>, variants: Vec<String> },
    Trait {
        name: String,
        signature: String,
        description: Option<String>,
        methods: Vec<Method>,
    },
    Macro { name: String, signature: String, description: Option<String> },
    Type { name: String, signature: String, description: Option<String> },
    Constant { name: String, signature: String, description: Option<String> },
    Module { name: String, description: Option<String>, items: Vec<String> },
}

/// The model of a method.
pub struct MethodModel {
    pub name: Seq<char>,
    pub signature: Seq<char>,
    pub description: Option<Seq<char>>,
}

/// The model of an item: its kind and every field, with the fields that its
/// kind lacks empty.
pub struct ItemModel {
    pub kind: ItemKind,
    pub name: Seq<char>,
    pub signature: Seq<char>,
    pub description: Option<Seq<char>>,
    pub methods: Seq<MethodModel>,
    pub variants: Seq<Seq<char>>,
    pub members: Seq<Seq<char>>,
}

/// The model of an optional string.
pub open spec fn opt_view(o: Option<String>) -> Option<Seq<char>> {
    match o {
        Some(s) => Some(s@),
        None => None,
    }
}

/// The models of a sequence of strings.
pub open spec fn strings_view(v: Seq<String>) -> Seq<Seq<char>> {
    v.map_values(|s: String| s@)
}

/// The models of a sequence of methods.
pub open spec fn methods_view(v: Seq<Method>) -> Seq<MethodModel> {
    v.map_values(|m: Method| m@)
}

/// The models of a sequence of items.
pub open spec fn items_view(v: Seq<Item>) -> Seq<ItemModel> {
    v.map_values(|i: Item| i@)
}

impl View for Method {
    type V = MethodModel;

    open spec fn view(&self) -> MethodModel {
        MethodModel {
            name: self.name@,
            signature: self.signature@,
            description: opt_view(self.description),
        }
    }
}

/// The model of an item of `kind` without methods, variants or members.
pub open spec fn plain_model(
    kind: ItemKind,
    name: Seq<char>,
    signature: Seq<char>,
    description: Option<Seq<char>>,
) -> ItemModel {
    ItemModel {
        kind,
        name,
        signature,
        description,
        methods: Seq::empty(),
        variants: Seq::empty(),
        members: Seq::empty(),
    }
}

impl View for Item {
    type V = ItemModel;

    open spec fn view(&self) -> ItemModel {
        match self {
            Item::Function { name, signature, description } => plain_model(
                ItemKind::Function,
                name@,
                signature@,
                opt_view(*description),
            ),
            Item::Struct { name, signature, description, methods } => ItemModel {
                methods: methods_view(methods@),
                ..plain_model(ItemKind::Struct, name@, signature@, opt_view(*description))
            },
            Item::Enum { name, signature, description, variants } => ItemModel {
                variants: strings_view(variants@),
                ..plain_model(ItemKind::Enum, name@, signature@, opt_view(*description))
            },
            Item::Trait { name, signature, description, methods } => ItemModel {
                methods: methods_view(methods@),
                ..plain_model(ItemKind::Trait, name@, signature@, opt_view(*description))
            },
            Item::Macro { name, signature, description } => plain_model(
                ItemKind::Macro,
                name@,
                signature@,
                opt_view(*description),
            ),
            Item::Type { name, signature, description } => plain_model(
                ItemKind::Type,
                name@,
                signature@,
                opt_view(*description),
            ),
            Item::Constant { name, signature, description } => plain_model(
                ItemKind::Constant,
                name@,
                signature@,
                opt_view(*description),
            ),
            Item::Module { name, description, items } => ItemModel {
                members: strings_view(items@),
                ..plain_model(ItemKind::Module, name@, Seq::empty(), opt_view(*description))
            },
        }
    }
}

impl Item {
    /// The fields that a text query searches: the name and the description.
    pub fn search_items(&self) -> (r: (&String, &Option<String>))
        ensures
            r.0@ == self@.name,
            opt_view(*r.1) == self@.description,
    {
        match self {
            Item::Function { name, description, .. } => (name, description),
            Item::Struct { name, description, .. } => (name, description),
            Item::Enum { name, description, .. } => (name, description),
            Item::Trait { name, description, .. } => (name, description),
            Item::Macro { name, description, .. } => (name, description),
            Item::Type { name, description, .. } => (name, description),
            Item::Constant { name, description, .. } => (name, description),
            Item::Module { name, description, .. } => (name, description),
        }
    }

    /// The kind of this item.
    pub fn kind(&self) -> (r: ItemKind)
        ensures
            r == self@.kind,
    {
        match self {
            Item::Function { .. } => ItemKind::Function,
            Item::Struct { .. } => ItemKind::Struct,
            Item::Enum { .. } => ItemKind::Enum,
            Item::Trait { .. } => ItemKind::Trait,
            Item::Macro { .. } => ItemKind::Macro,
            Item::Type { .. } => ItemKind::Type,
            Item::Constant { .. } => ItemKind::Constant,
            Item::Module { .. } => ItemKind::Module,
        }
    }
}

} // verus!
