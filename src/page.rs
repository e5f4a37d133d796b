//! Extraction of one item from one documentation page: the declaration,
//! the description and the kind-specific parts (methods, variants, members).
use vstd::prelude::*;
use crate::chars::{chars_of, find_char, find_char_index, has_prefix, slice_chars, starts_with_chars, string_of, trim, trim_chars};
use crate::error::{Error, ErrorKind};
use crate::item::{methods_view, strings_view, Item, ItemModel, Method, MethodModel};
use crate::item_kind::{extract_item_name, item_name, kind_of, ItemKind};
use crate::text::{html_to_text, normalize};

verus! {

/// The block that holds an item's declaration.
pub const DECL_SELECTOR: &'static str = "pre.rust.item-decl";

/// The expandable documentation block at the top of a page.
pub const DESCRIPTION_SELECTOR: &'static str = "details.toggle.top-doc div.docblock";

/// A method block on a struct or trait page.
pub const METHOD_SELECTOR: &'static str = "div.impl-items .method";

/// The signature header inside a method or variant block.
pub const HEADER_SELECTOR: &'static str = ".code-header";

/// The documentation inside a method block.
pub const DOCBLOCK_SELECTOR: &'static str = ".docblock";

/// A variant block on an enum page.
pub const VARIANT_SELECTOR: &'static str = "div.variants .variant";

/// A link in a module page's table of members.
pub const MEMBER_SELECTOR: &'static str = "div.item-table .item-name a";

/// The inner HTML of each element of the HTML document `content` that the
/// CSS selector `selector` matches, in the order in which the parser created
/// the elements (document order, for well-nested markup).
pub uninterp spec fn selected_inner_html(content: Seq<char>, selector: Seq<char>) -> Seq<Seq<char>>;

/// For each element of the HTML document `content` that `outer` matches, in
/// the order of `selected_inner_html`, the inner HTML of the first element
/// under it, in tree order, that `inner` matches, if there is one.
pub uninterp spec fn first_inner_html_within(
    content: Seq<char>,
    outer: Seq<char>,
    inner: Seq<char>,
) -> Seq<Option<Seq<char>>>;

/// The models of a sequence of optional strings.
pub open spec fn opt_strings_view(v: Seq<Option<String>>) -> Seq<Option<Seq<char>>> {
    v.map_values(|o: Option<String>| crate::item::opt_view(o))
}

/// Relies on scraper's `Html::parse_document`, `Selector::parse`,
/// `Html::select` and `ElementRef::inner_html`: the inner HTML of every
/// match, in the order `Html::select` yields them, which depends on the two
/// texts alone. A selector that does not parse matches nothing.
#[verifier::external_body]
fn select_inner_html(content: &str, selector: &str) -> (r: Vec<String>)
    ensures
        strings_view(r@) == selected_inner_html(content@, selector@),
{
    let document = scraper::Html::parse_document(content);
    match scraper::Selector::parse(selector) {
        Ok(selector) => document.select(&selector).map(|element| element.inner_html()).collect(),
        Err(_) => Vec::new(),
    }
}

/// Relies on scraper's `Html::parse_document`, `Selector::parse`,
/// `Html::select`, `ElementRef::select` and `ElementRef::inner_html`: one
/// entry for each match of `outer`, as `select_inner_html` lists them, with
/// the inner HTML of the first match of `inner` under it. A selector that
/// does not parse matches nothing.
#[verifier::external_body]
fn select_first_within(content: &str, outer: &str, inner: &str) -> (r: Vec<Option<String>>)
    ensures
        opt_strings_view(r@) == first_inner_html_within(content@, outer@, inner@),
        r@.len() == selected_inner_html(content@, outer@).len(),
{
    let document = scraper::Html::parse_document(content);
    let inner = scraper::Selector::parse(inner).ok();
    match scraper::Selector::parse(outer) {
        Ok(outer) => document.select(&outer).map(|element| {
            inner.as_ref().and_then(|inner| element.select(inner).next()).map(|found| found.inner_html())
        }).collect(),
        Err(_) => Vec::new(),
    }
}

/// The normalized text of a block, absent when there is no block or its
/// text is empty.
pub open spec fn text_of(block: Option<Seq<char>>) -> Option<Seq<char>> {
    match block {
        None => None,
        Some(html) => if normalize(html).len() == 0 {
            None
        } else {
            Some(normalize(html))
        },
    }
}

/// The first element of `s`, if any.
pub open spec fn first_of(s: Seq<Seq<char>>) -> Option<Seq<char>> {
    if s.len() > 0 {
        Some(s[0])
    } else {
        None
    }
}

/// The description at the top of the page `content`.
pub open spec fn page_description(content: Seq<char>) -> Option<Seq<char>> {
    text_of(first_of(selected_inner_html(content, DESCRIPTION_SELECTOR@)))
}

/// The name of a method with signature `sig`: after a leading `fn `, the
/// trimmed text before the first `(`; `unknown` when either is missing.
pub open spec fn method_name(sig: Seq<char>) -> Seq<char> {
    if has_prefix(sig, "fn "@) {
        let after = sig.subrange("fn "@.len() as int, sig.len() as int);
        match find_char(after, '(') {
            Some(k) => trim(after.subrange(0, k)),
            None => "unknown"@,
        }
    } else {
        "unknown"@
    }
}

/// The method that a block with signature header `header` and
/// documentation `doc` describes; none without a non-empty signature.
pub open spec fn method_of(header: Option<Seq<char>>, doc: Option<Seq<char>>) -> Option<MethodModel> {
    match text_of(header) {
        None => None,
        Some(sig) => Some(MethodModel { name: method_name(sig), signature: sig, description: text_of(doc) }),
    }
}

/// The methods of the first `n` method blocks, given their headers and documentation.
pub open spec fn methods_upto(
    headers: Seq<Option<Seq<char>>>,
    docs: Seq<Option<Seq<char>>>,
    n: int,
) -> Seq<MethodModel>
    decreases n,
{
    if n <= 0 {
        Seq::empty()
    } else {
        let prev = methods_upto(headers, docs, n - 1);
        match method_of(headers[n - 1], docs[n - 1]) {
            Some(m) => prev.push(m),
            None => prev,
        }
    }
}

/// The methods listed on the page `content`, in the order of their blocks.
pub open spec fn page_methods(content: Seq<char>) -> Seq<MethodModel> {
    let headers = first_inner_html_within(content, METHOD_SELECTOR@, HEADER_SELECTOR@);
    let docs = first_inner_html_within(content, METHOD_SELECTOR@, DOCBLOCK_SELECTOR@);
    methods_upto(headers, docs, headers.len() as int)
}

/// The non-empty texts among the first `n` optional blocks.
pub open spec fn texts_upto(blocks: Seq<Option<Seq<char>>>, n: int) -> Seq<Seq<char>>
    decreases n,
{
    if n <= 0 {
        Seq::empty()
    } else {
        let prev = texts_upto(blocks, n - 1);
        match text_of(blocks[n - 1]) {
            Some(t) => prev.push(t),
            None => prev,
        }
    }
}

/// The variant headers listed on the page `content`, in the order of their blocks.
pub open spec fn page_variants(content: Seq<char>) -> Seq<Seq<char>> {
    let headers = first_inner_html_within(content, VARIANT_SELECTOR@, HEADER_SELECTOR@);
    texts_upto(headers, headers.len() as int)
}

/// The linked member names on the page `content`, in the order of their links.
pub open spec fn page_members(content: Seq<char>) -> Seq<Seq<char>> {
    let links = selected_inner_html(content, MEMBER_SELECTOR@);
    texts_upto(links.map_values(|l: Seq<char>| Some(l)), links.len() as int)
}

/// The normalized text of some inner HTML, absent when it is empty.
fn block_text(block: &Option<String>) -> (r: Option<String>)
    ensures
        crate::item::opt_view(r) == text_of(crate::item::opt_view(*block)),
{
    match block {
        None => None,
        Some(html) => {
            let text = html_to_text(html.clone());
            if text.as_str().is_empty() {
                None
            } else {
                Some(text)
            }
        },
    }
}

/// The description at the top of the page `content`, absent when the page
/// has none or its text is empty.
pub fn extract_description(content: &str) -> (r: Option<String>)
    ensures
        crate::item::opt_view(r) == page_description(content@),
{
    let blocks = select_inner_html(content, DESCRIPTION_SELECTOR);
    if blocks.len() == 0 {
        None
    } else {
        block_text(&Some(blocks[0].clone()))
    }
}

/// The name of a method with signature `signature`: after a leading `fn `,
/// the trimmed text before the first `(`, else `unknown`.
pub fn extract_method_name(signature: &str) -> (r: String)
    ensures
        r@ == method_name(signature@),
{
    let sig = chars_of(signature);
    let keyword = chars_of("fn ");
    if starts_with_chars(&sig, &keyword) {
        let after = slice_chars(&sig, keyword.len(), sig.len());
        match find_char_index(&after, '(') {
            Some(k) => string_of(&trim_chars(&slice_chars(&after, 0, k))),
            None => "unknown".to_owned(),
        }
    } else {
        "unknown".to_owned()
    }
}

/// The methods listed on the page `content`: one for each method block
/// whose signature header has non-empty text, in the order of the blocks.
pub fn extract_method_structs(content: &str) -> (r: Vec<Method>)
    ensures
        methods_view(r@) == page_methods(content@),
{
    let headers = select_first_within(content, METHOD_SELECTOR, HEADER_SELECTOR);
    let docs = select_first_within(content, METHOD_SELECTOR, DOCBLOCK_SELECTOR);
    let ghost hv = opt_strings_view(headers@);
    let ghost dv = opt_strings_view(docs@);
    let mut methods: Vec<Method> = Vec::new();
    let mut i: usize = 0;
    while i < headers.len()
        invariant
            i <= headers@.len(),
            headers@.len() == docs@.len(),
            hv == opt_strings_view(headers@),
            dv == opt_strings_view(docs@),
            methods_view(methods@) == methods_upto(hv, dv, i as int),
        decreases headers.len() - i,
    {
        let ghost prev = methods@;
        match block_text(&headers[i]) {
            None => {},
            Some(signature) => {
                let name = extract_method_name(signature.as_str());
                let description = block_text(&docs[i]);
                methods.push(Method { name, signature, description });
                assert(methods_view(methods@) =~= methods_view(prev).push(methods@.last()@));
            },
        }
        i = i + 1;
    }
    methods
}

/// The variant headers listed on the page `content`, skipping empty ones.
pub fn extract_enum_variants(content: &str) -> (r: Vec<String>)
    ensures
        strings_view(r@) == page_variants(content@),
{
    let headers = select_first_within(content, VARIANT_SELECTOR, HEADER_SELECTOR);
    let ghost hv = opt_strings_view(headers@);
    let mut variants: Vec<String> = Vec::new();
    let mut i: usize = 0;
    while i < headers.len()
        invariant
            i <= headers@.len(),
            hv == opt_strings_view(headers@),
            strings_view(variants@) == texts_upto(hv, i as int),
        decreases headers.len() - i,
    {
        let ghost prev = variants@;
        match block_text(&headers[i]) {
            None => {},
            Some(text) => {
                variants.push(text);
                assert(strings_view(variants@) =~= strings_view(prev).push(variants@.last()@));
            },
        }
        i = i + 1;
    }
    variants
}

/// The linked member names on the module page `content`, skipping empty ones.
pub fn extract_module_items(content: &str) -> (r: Vec<String>)
    ensures
        strings_view(r@) == page_members(content@),
{
    let links = select_inner_html(content, MEMBER_SELECTOR);
    let ghost lv = selected_inner_html(content@, MEMBER_SELECTOR@).map_values(|l: Seq<char>| Some(l));
    let mut members: Vec<String> = Vec::new();
    let mut i: usize = 0;
    while i < links.len()
        invariant
            i <= links@.len(),
            strings_view(links@) == selected_inner_html(content@, MEMBER_SELECTOR@),
            lv == selected_inner_html(content@, MEMBER_SELECTOR@).map_values(|l: Seq<char>| Some(l)),
            strings_view(members@) == texts_upto(lv, i as int),
        decreases links.len() - i,
    {
        let ghost prev = members@;
        assert(lv[i as int] == Some(links@[i as int]@));
        match block_text(&Some(links[i].clone())) {
            None => {},
            Some(text) => {
                members.push(text);
                assert(strings_view(members@) =~= strings_view(prev).push(members@.last()@));
            },
        }
        i = i + 1;
    }
    members
}

/// What the page `content`, stored as `file_name`, contributes: no item when
/// it has no declaration block or the declaration's text is empty;
/// `MalformedFileName` when it has one but the file name carries no item
/// name; else the item of the kind that the file name gives.
pub open spec fn page_item(content: Seq<char>, file_name: Seq<char>) -> Result<
    Option<ItemModel>,
    ErrorKind,
> {
    match text_of(first_of(selected_inner_html(content, DECL_SELECTOR@))) {
        None => Ok(None),
        Some(signature) => match item_name(file_name) {
            None => Err(ErrorKind::MalformedFileName),
            Some(name) => {
                let kind = kind_of(file_name);
                Ok(
                    Some(
                        ItemModel {
                            kind,
                            name,
                            signature: if kind == ItemKind::Module {
                                Seq::empty()
                            } else {
                                signature
                            },
                            description: page_description(content),
                            methods: if kind == ItemKind::Struct || kind == ItemKind::Trait {
                                page_methods(content)
                            } else {
                                Seq::empty()
                            },
                            variants: if kind == ItemKind::Enum {
                                page_variants(content)
                            } else {
                                Seq::empty()
                            },
                            members: if kind == ItemKind::Module {
                                page_members(content)
                            } else {
                                Seq::empty()
                            },
                        },
                    ),
                )
            },
        },
    }
}

/// The model of an extraction's outcome.
pub open spec fn outcome_view(r: Result<Option<Item>, Error>) -> Result<Option<ItemModel>, ErrorKind> {
    match r {
        Ok(Some(item)) => Ok(Some(item@)),
        Ok(None) => Ok(None),
        Err(e) => Err(e.kind),
    }
}

/// The item that the page `content`, stored as `file_name`, describes.
/// A page without a declaration, or whose declaration has no text, gives
/// `Ok(None)`; a malformed file name is an error.
pub fn parse_html_file(content: &str, file_name: &str) -> (r: Result<Option<Item>, Error>)
    ensures
        outcome_view(r) == page_item(content@, file_name@),
{
    let decls = select_inner_html(content, DECL_SELECTOR);
    let first = if decls.len() == 0 {
        None
    } else {
        Some(decls[0].clone())
    };
    let signature = match block_text(&first) {
        None => {
            return Ok(None);
        },
        Some(signature) => signature,
    };
    let description = extract_description(content);
    let name = match extract_item_name(file_name) {
        Err(e) => {
            return Err(e);
        },
        Ok(name) => name,
    };
    let item = match ItemKind::classify(file_name) {
        ItemKind::Function => Item::Function { name, signature, description },
        ItemKind::Struct => Item::Struct {
            name,
            signature,
            description,
            methods: extract_method_structs(content),
        },
        ItemKind::Enum => Item::Enum {
            name,
            signature,
            description,
            variants: extract_enum_variants(content),
        },
        ItemKind::Trait => Item::Trait {
            name,
            signature,
            description,
            methods: extract_method_structs(content),
        },
        ItemKind::Macro => Item::Macro { name, signature, description },
        ItemKind::Type => Item::Type { name, signature, description },
        ItemKind::Constant => Item::Constant { name, signature, description },
        ItemKind::Module => Item::Module {
            name,
            description,
            items: extract_module_items(content),
        },
    };
    Ok(Some(item))
}

} // verus!
