//! The kind of a documented item, read from its page's file name.
use vstd::prelude::*;
use crate::chars::{
    chars_of, ends_with_chars, find_char, find_char_index, has_prefix, has_suffix, slice_chars,
    starts_with_chars, string_of,
};
use crate::error::{Error, ErrorKind};

verus! {

/// What sort of item a documentation page describes.
#[derive(Debug, Clone, Copy, PartialEq, Eq, Structural)]
pub enum ItemKind {
    Function,
    Struct,
    Enum,
    Trait,
    Macro,
    Type,
    Constant,
    Module,
}

/// The file-name prefix that marks a kind; a module page has none.
pub open spec fn kind_prefix(k: ItemKind) -> Seq<char> {
    match k {
        ItemKind::Function => "fn."@,
        ItemKind::Struct => "struct."@,
        ItemKind::Enum => "enum."@,
        ItemKind::Trait => "trait."@,
        ItemKind::Macro => "macro."@,
        ItemKind::Type => "type."@,
        ItemKind::Constant => "constant."@,
        ItemKind::Module => Seq::empty(),
    }
}

/// The kind of the item that the page `file_name` describes: the first of
/// the prefixes `fn.`, `struct.`, `enum.`, `trait.`, `macro.`, `type.` and
/// `constant.` that it starts with, else a module.
pub open spec fn kind_of(file_name: Seq<char>) -> ItemKind {
    if has_prefix(file_name, kind_prefix(ItemKind::Function)) {
        ItemKind::Function
    } else if has_prefix(file_name, kind_prefix(ItemKind::Struct)) {
        ItemKind::Struct
    } else if has_prefix(file_name, kind_prefix(ItemKind::Enum)) {
        ItemKind::Enum
    } else if has_prefix(file_name, kind_prefix(ItemKind::Trait)) {
        ItemKind::Trait
    } else if has_prefix(file_name, kind_prefix(ItemKind::Macro)) {
        ItemKind::Macro
    } else if has_prefix(file_name, kind_prefix(ItemKind::Type)) {
        ItemKind::Type
    } else if has_prefix(file_name, kind_prefix(ItemKind::Constant)) {
        ItemKind::Constant
    } else {
        ItemKind::Module
    }
}

/// The lower-case name of a kind, as a kind filter spells it.
pub open spec fn kind_label(k: ItemKind) -> Seq<char> {
    match k {
        ItemKind::Function => "function"@,
        ItemKind::Struct => "struct"@,
        ItemKind::Enum => "enum"@,
        ItemKind::Trait => "trait"@,
        ItemKind::Macro => "macro"@,
        ItemKind::Type => "type"@,
        ItemKind::Constant => "constant"@,
        ItemKind::Module => "module"@,
    }
}

impl ItemKind {
    /// The lower-case name of this kind.
    pub fn label(&self) -> (r: &'static str)
        ensures
            r@ == kind_label(*self),
    {
        match self {
            ItemKind::Function => "function",
            ItemKind::Struct => "struct",
            ItemKind::Enum => "enum",
            ItemKind::Trait => "trait",
            ItemKind::Macro => "macro",
            ItemKind::Type => "type",
            ItemKind::Constant => "constant",
            ItemKind::Module => "module",
        }
    }

    /// The kind of the item that the page `file_name` describes.
    pub fn classify(file_name: &str) -> (r: ItemKind)
        ensures
            r == kind_of(file_name@),
    {
        let name = chars_of(file_name);
        if starts_with_chars(&name, &chars_of("fn.")) {
            ItemKind::Function
        } else if starts_with_chars(&name, &chars_of("struct.")) {
            ItemKind::Struct
        } else if starts_with_chars(&name, &chars_of("enum.")) {
            ItemKind::Enum
        } else if starts_with_chars(&name, &chars_of("trait.")) {
            ItemKind::Trait
        } else if starts_with_chars(&name, &chars_of("macro.")) {
            ItemKind::Macro
        } else if starts_with_chars(&name, &chars_of("type.")) {
            ItemKind::Type
        } else if starts_with_chars(&name, &chars_of("constant.")) {
            ItemKind::Constant
        } else {
            ItemKind::Module
        }
    }
}

impl<'a> From<&'a str> for ItemKind {
    fn from(value: &'a str) -> (r: ItemKind)
        ensures
            r == kind_of(value@),
    {
        ItemKind::classify(value)
    }
}

impl<'a> vstd::std_specs::convert::FromSpecImpl<&'a str> for ItemKind {
    open spec fn obeys_from_spec() -> bool {
        true
    }

    open spec fn from_spec(v: &'a str) -> ItemKind {
        kind_of(v@)
    }
}

/// The item name that the page `file_name` carries: what lies between its
/// first `.` and a final `.html`; none without a `.` or without that ending.
pub open spec fn item_name(file_name: Seq<char>) -> Option<Seq<char>> {
    match find_char(file_name, '.') {
        None => None,
        Some(dot) => {
            let rest = file_name.subrange(dot + 1, file_name.len() as int);
            if has_suffix(rest, ".html"@) {
                Some(rest.subrange(0, rest.len() - ".html"@.len()))
            } else {
                None
            }
        },
    }
}

/// The item name that the page `file_name` carries, or `MalformedFileName`
/// when it has no `.` or does not end in `.html` after it.
pub fn extract_item_name(file_name: &str) -> (r: Result<String, Error>)
    ensures
        match r {
            Ok(name) => item_name(file_name@) == Some(name@),
            Err(e) => item_name(file_name@) is None && e.kind == ErrorKind::MalformedFileName,
        },
{
    let name = chars_of(file_name);
    let len = name.len();
    match find_char_index(&name, '.') {
        None => Err(Error::new(ErrorKind::MalformedFileName, "invalid file name format".to_owned())),
        Some(dot) => {
            let rest = slice_chars(&name, dot + 1, len);
            let suffix = chars_of(".html");
            if ends_with_chars(&rest, &suffix) {
                Ok(string_of(&slice_chars(&rest, 0, rest.len() - suffix.len())))
            } else {
                Err(
                    Error::new(
                        ErrorKind::MalformedFileName,
                        "file name doesn't end with .html".to_owned(),
                    ),
                )
            }
        },
    }
}

} // verus!
