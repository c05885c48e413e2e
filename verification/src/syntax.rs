//! The parts of a Rust file's syntax tree that the style rules read.
//!
//! The `syn` crate parses a file; this module holds, as plain values, what
//! the rules need of each top-level item: its kind, the attributes of a
//! function, the items of an inline module, and the visibility and name of
//! a struct, enum or trait.

use vstd::prelude::*;

use crate::text::chars_of;
use crate::text::chars_eq_str;
use crate::text::contains;
use crate::text::contains_str;

verus! {

#[verifier::external_type_specification]
#[verifier::external_body]
pub struct ExSynItem(syn::Item);

#[verifier::external_type_specification]
#[verifier::external_body]
pub struct ExSynAttribute(syn::Attribute);

#[verifier::external_type_specification]
#[verifier::external_body]
pub struct ExSynPathSegment(syn::PathSegment);

#[verifier::external_type_specification]
#[verifier::external_body]
pub struct ExSynMeta(syn::Meta);

#[verifier::external_type_specification]
#[verifier::external_body]
pub struct ExSynVisibility(syn::Visibility);

/// The kind of arguments that a path segment carries.
#[derive(Debug, Clone, Copy, PartialEq, Eq)]
pub enum SegmentArguments {
    /// No arguments, as in `cfg`.
    Bare,
    /// Angle-bracketed arguments, as in `Vec<T>`.
    AngleBracketed,
    /// Parenthesized arguments, as in `Fn(A) -> B`.
    Parenthesized,
}

/// One segment of an attribute path.
#[derive(Debug, Clone)]
pub struct SegmentSummary {
    /// The segment's identifier.
    pub name: String,
    /// The kind of arguments it carries.
    pub arguments: SegmentArguments,
}

/// The form of an attribute after its path.
#[derive(Debug, Clone)]
pub enum AttributeMeta {
    /// A bare path, as in `#[test]`.
    Path,
    /// A list in parentheses, as in `#[cfg(test)]`; holds its tokens as
    /// text.
    List { tokens: String },
    /// A name and a value, as in `#[path = "x.rs"]`.
    NameValue,
}

/// What the style rules read of one attribute.
#[derive(Debug, Clone)]
pub struct AttributeSummary {
    /// Whether the path starts with `::`.
    pub leading_colon: bool,
    /// The segments of the attribute path.
    pub segments: Vec<SegmentSummary>,
    /// The form of the attribute after its path.
    pub meta: AttributeMeta,
}

/// The declared visibility of an item.
#[derive(Debug, Clone, Copy, PartialEq, Eq)]
pub enum VisibilityKind {
    /// `pub`.
    Public,
    /// `pub(crate)`, `pub(super)`, `pub(self)` or `pub(in path)`.
    Restricted,
    /// No visibility keyword.
    Inherited,
}

/// What the style rules read of one top-level item.
#[derive(Debug)]
pub enum SourceItem {
    /// A function with its outer attributes.
    Function { attributes: Vec<AttributeSummary> },
    /// A module; inline modules carry their items.
    Module { content: Option<Vec<SourceItem>> },
    /// A `use` declaration.
    Import,
    /// A struct, with its visibility and name.
    Struct { visibility: VisibilityKind, name: String },
    /// An enum, with its visibility and name.
    Enum { visibility: VisibilityKind, name: String },
    /// A trait, with its visibility and name.
    Trait { visibility: VisibilityKind, name: String },
    /// A type alias.
    TypeAlias,
    /// Any other item.
    Other,
}

/// The top-level items of a Rust file as `syn::parse_file` parses them, or
/// `None` when the text does not parse.
pub uninterp spec fn rust_items(text: Seq<char>) -> Option<Seq<SourceItem>>;

/// Parses a Rust file with `syn::parse_file` and summarizes its items.
///
/// Trusted: the result is the summary of what `syn` parsed, named
/// `rust_items` of the text; nothing else is claimed of `syn`.
#[verifier::external_body]
pub fn parse_rust_items(text: &str) -> (r: Option<Vec<SourceItem>>)
    ensures
        match r {
            Some(items) => rust_items(text@) == Some(items@),
            None => rust_items(text@) is None,
        },
{
    syn::parse_file(text).ok().map(|file| summarize_items(&file.items))
}

/// Summarizes a list of `syn` items, one for one.
#[verifier::external_body]
fn summarize_items(items: &[syn::Item]) -> Vec<SourceItem> {
    items.iter().map(summarize_item).collect()
}

/// Summarizes one `syn` item by its variant.
#[verifier::external_body]
fn summarize_item(item: &syn::Item) -> SourceItem {
    match item {
        syn::Item::Fn(f) => SourceItem::Function { attributes: f.attrs.iter().map(summarize_attribute).collect() },
        syn::Item::Mod(m) => SourceItem::Module { content: m.content.as_ref().map(|c| summarize_items(&c.1)) },
        syn::Item::Use(_) => SourceItem::Import,
        syn::Item::Type(_) => SourceItem::TypeAlias,
        _ => summarize_type_item(item),
    }
}

/// Summarizes a `syn` struct, enum or trait item by its variant; any other
/// item is summarized as `Other`.
#[verifier::external_body]
fn summarize_type_item(item: &syn::Item) -> SourceItem {
    match item {
        syn::Item::Struct(s) => SourceItem::Struct { visibility: summarize_visibility(&s.vis), name: s.ident.to_string() },
        syn::Item::Enum(e) => SourceItem::Enum { visibility: summarize_visibility(&e.vis), name: e.ident.to_string() },
        syn::Item::Trait(t) => SourceItem::Trait { visibility: summarize_visibility(&t.vis), name: t.ident.to_string() },
        _ => SourceItem::Other,
    }
}

/// Summarizes a `syn` visibility by its variant.
#[verifier::external_body]
fn summarize_visibility(visibility: &syn::Visibility) -> VisibilityKind {
    match visibility {
        syn::Visibility::Public(_) => VisibilityKind::Public,
        syn::Visibility::Restricted(_) => VisibilityKind::Restricted,
        syn::Visibility::Inherited => VisibilityKind::Inherited,
    }
}

/// Summarizes one `syn` attribute: its path and its form.
#[verifier::external_body]
fn summarize_attribute(attribute: &syn::Attribute) -> AttributeSummary {
    AttributeSummary {
        leading_colon: attribute.path().leading_colon.is_some(),
        segments: attribute.path().segments.iter().map(summarize_segment).collect(),
        meta: summarize_meta(&attribute.meta),
    }
}

/// Summarizes one `syn` path segment: its identifier and the variant of
/// its arguments.
#[verifier::external_body]
fn summarize_segment(segment: &syn::PathSegment) -> SegmentSummary {
    let arguments = match &segment.arguments {
        syn::PathArguments::None => SegmentArguments::Bare,
        syn::PathArguments::AngleBracketed(_) => SegmentArguments::AngleBracketed,
        syn::PathArguments::Parenthesized(_) => SegmentArguments::Parenthesized,
    };
    SegmentSummary { name: segment.ident.to_string(), arguments }
}

/// Summarizes a `syn` attribute form by its variant; a list keeps its
/// tokens as text.
#[verifier::external_body]
fn summarize_meta(meta: &syn::Meta) -> AttributeMeta {
    match meta {
        syn::Meta::Path(_) => AttributeMeta::Path,
        syn::Meta::List(list) => AttributeMeta::List { tokens: list.tokens.to_string() },
        syn::Meta::NameValue(_) => AttributeMeta::NameValue,
    }
}

/// The name of the last segment of an attribute path, if it has one.
pub open spec fn last_segment_name(a: AttributeSummary) -> Option<Seq<char>> {
    if a.segments@.len() == 0 {
        None
    } else {
        Some(a.segments@.last().name@)
    }
}

/// Whether an attribute is `test` or `rstest`, by its last path segment.
pub open spec fn is_test_attribute(a: AttributeSummary) -> bool {
    match last_segment_name(a) {
        Some(s) => s == "test"@ || s == "rstest"@,
        None => false,
    }
}

/// Whether an attribute path is exactly the identifier `cfg`: no leading
/// `::`, one segment, no arguments (`Path::is_ident`).
pub open spec fn is_cfg_path(a: AttributeSummary) -> bool {
    &&& !a.leading_colon
    &&& a.segments@.len() == 1
    &&& a.segments@[0].arguments == SegmentArguments::Bare
    &&& a.segments@[0].name@ == "cfg"@
}

/// The tokens of a list attribute, as text.
pub open spec fn list_tokens(a: AttributeSummary) -> Option<Seq<char>> {
    match a.meta {
        AttributeMeta::List { tokens } => Some(tokens@),
        _ => None,
    }
}

/// Whether an attribute is a `cfg(..)` whose tokens mention `test`.
pub open spec fn is_test_cfg(a: AttributeSummary) -> bool {
    is_cfg_path(a) && match list_tokens(a) {
        Some(t) => contains(t, "test"@),
        None => false,
    }
}

/// Whether a function with these attributes is a test function.
pub open spec fn is_test_function(attributes: Seq<AttributeSummary>) -> bool {
    exists|i: int| 0 <= i < attributes.len() && (is_test_attribute(attributes[i]) || is_test_cfg(
        attributes[i],
    ))
}

/// Whether any of the items, or of the items of their inline modules, is a
/// test function.
pub open spec fn items_have_tests(items: Seq<SourceItem>) -> bool
    decreases items,
{
    if items.len() == 0 {
        false
    } else {
        item_has_tests(items[0]) || items_have_tests(items.drop_first())
    }
}

/// Whether an item is a test function or an inline module that holds one.
pub open spec fn item_has_tests(item: SourceItem) -> bool
    decreases item,
{
    match item {
        SourceItem::Function { attributes } => is_test_function(attributes@),
        SourceItem::Module { content } => match content {
            Some(v) => items_have_tests(v@),
            None => false,
        },
        _ => false,
    }
}


/// Whether an attribute marks a procedural macro, by its last path segment.
pub open spec fn is_proc_macro_attribute(a: AttributeSummary) -> bool {
    match last_segment_name(a) {
        Some(s) => s == "proc_macro"@ || s == "proc_macro_attribute"@ || s == "proc_macro_derive"@,
        None => false,
    }
}

/// Whether an item may stand in an aggregation file (`lib.rs`, `mod.rs`):
/// a module, a `use` declaration, or a procedural macro function.
pub open spec fn allowed_in_aggregation(item: SourceItem) -> bool {
    match item {
        SourceItem::Module { .. } => true,
        SourceItem::Import => true,
        SourceItem::Function { attributes } => exists|i: int|
            0 <= i < attributes@.len() && is_proc_macro_attribute(#[trigger] attributes@[i]),
        _ => false,
    }
}

/// A public top-level type: its kind (`struct`, `enum` or `trait`) and
/// name, for an item declared plainly `pub`.
pub open spec fn public_type(item: SourceItem) -> Option<(Seq<char>, Seq<char>)> {
    match item {
        SourceItem::Struct { visibility, name } => if visibility == VisibilityKind::Public { Some(("struct"@, name@)) } else { None },
        SourceItem::Enum { visibility, name } => if visibility == VisibilityKind::Public { Some(("enum"@, name@)) } else { None },
        SourceItem::Trait { visibility, name } => if visibility == VisibilityKind::Public { Some(("trait"@, name@)) } else { None },
        _ => None,
    }
}

/// The public top-level types among the items, in order.
pub open spec fn public_types(items: Seq<SourceItem>) -> Seq<(Seq<char>, Seq<char>)>
    decreases items.len(),
{
    if items.len() == 0 {
        seq![]
    } else {
        match public_type(items[0]) {
            Some(t) => seq![t] + public_types(items.drop_first()),
            None => public_types(items.drop_first()),
        }
    }
}

/// Whether every item is a type alias, and there is at least one.
pub open spec fn only_type_aliases(items: Seq<SourceItem>) -> bool {
    items.len() > 0 && forall|i: int| 0 <= i < items.len() ==> (#[trigger] items[i]) is TypeAlias
}

fn last_segment_is(a: &AttributeSummary, name: &str) -> (r: bool)
    ensures
        r == match last_segment_name(*a) {
            Some(s) => s == name@,
            None => false,
        },
{
    let n = a.segments.len();
    if n == 0 {
        return false;
    }
    let c = chars_of(a.segments[n - 1].name.as_str());
    chars_eq_str(&c, name)
}

/// Whether an attribute is `test` or `rstest`.
pub fn attribute_is_test(a: &AttributeSummary) -> (r: bool)
    ensures
        r == is_test_attribute(*a),
{
    last_segment_is(a, "test") || last_segment_is(a, "rstest")
}

/// Whether an attribute path is exactly the identifier `cfg`.
fn attribute_path_is_cfg(a: &AttributeSummary) -> (r: bool)
    ensures
        r == is_cfg_path(*a),
{
    if a.leading_colon || a.segments.len() != 1 {
        return false;
    }
    let segment = &a.segments[0];
    let bare = match segment.arguments {
        SegmentArguments::Bare => true,
        _ => false,
    };
    let c = chars_of(segment.name.as_str());
    bare && chars_eq_str(&c, "cfg")
}

/// Whether an attribute is a `cfg(..)` that mentions `test`.
pub fn attribute_is_test_cfg(a: &AttributeSummary) -> (r: bool)
    ensures
        r == is_test_cfg(*a),
{
    if !attribute_path_is_cfg(a) {
        return false;
    }
    match &a.meta {
        AttributeMeta::List { tokens } => {
            let c = chars_of(tokens.as_str());
            contains_str(&c, "test")
        },
        _ => false,
    }
}

/// Whether a function with these attributes is a test function.
pub fn function_is_test(attributes: &Vec<AttributeSummary>) -> (r: bool)
    ensures
        r == is_test_function(attributes@),
{
    let mut i: usize = 0;
    while i < attributes.len()
        invariant
            i <= attributes.len(),
            forall|j: int| 0 <= j < i ==> !(is_test_attribute(attributes@[j]) || is_test_cfg(
                attributes@[j],
            )),
        decreases attributes.len() - i,
    {
        if attribute_is_test(&attributes[i]) || attribute_is_test_cfg(&attributes[i]) {
            return true;
        }
        i = i + 1;
    }
    false
}

/// Whether an item is a test function or an inline module holding one.
pub fn item_contains_test_functions(item: &SourceItem) -> (r: bool)
    ensures
        r == item_has_tests(*item),
    decreases item,
{
    match item {
        SourceItem::Function { attributes } => function_is_test(attributes),
        SourceItem::Module { content } => match content {
            Some(v) => items_contain_test_functions(v),
            None => false,
        },
        _ => false,
    }
}

/// Recursively checks items for test and rstest function attributes.
pub fn items_contain_test_functions(items: &Vec<SourceItem>) -> (r: bool)
    ensures
        r == items_have_tests(items@),
    decreases items,
{
    let mut i: usize = 0;
    assert(items@.skip(0) =~= items@);
    while i < items.len()
        invariant
            i <= items.len(),
            items_have_tests(items@) == items_have_tests(items@.skip(i as int)),
        decreases items.len() - i,
    {
        let ghost rest = items@.skip(i as int);
        assert(rest[0] == items@[i as int]);
        assert(rest.drop_first() =~= items@.skip(i + 1));
        if item_contains_test_functions(&items[i]) {
            return true;
        }
        i = i + 1;
    }
    false
}

/// Whether one of the attributes marks a procedural macro.
fn has_proc_macro_attribute(attributes: &Vec<AttributeSummary>) -> (r: bool)
    ensures
        r == exists|i: int| 0 <= i < attributes@.len() && is_proc_macro_attribute(
            #[trigger] attributes@[i],
        ),
{
    let mut i: usize = 0;
    while i < attributes.len()
        invariant
            i <= attributes.len(),
            forall|j: int| 0 <= j < i ==> !is_proc_macro_attribute(#[trigger] attributes@[j]),
        decreases attributes.len() - i,
    {
        let a = &attributes[i];
        if last_segment_is(a, "proc_macro") || last_segment_is(a, "proc_macro_attribute")
            || last_segment_is(a, "proc_macro_derive") {
            assert(is_proc_macro_attribute(attributes@[i as int]));
            return true;
        }
        i = i + 1;
    }
    false
}

/// Whether an item may stand in an aggregation file.
pub fn item_allowed_in_aggregation(item: &SourceItem) -> (r: bool)
    ensures
        r == allowed_in_aggregation(*item),
{
    match item {
        SourceItem::Module { .. } => true,
        SourceItem::Import => true,
        SourceItem::Function { attributes } => has_proc_macro_attribute(attributes),
        _ => false,
    }
}

/// Whether a visibility is plain `pub`.
fn is_public(visibility: VisibilityKind) -> (r: bool)
    ensures
        r == (visibility == VisibilityKind::Public),
{
    match visibility {
        VisibilityKind::Public => true,
        _ => false,
    }
}

/// The public top-level types among the items, in order.
pub fn public_types_of(items: &Vec<SourceItem>) -> (r: Vec<(Vec<char>, Vec<char>)>)
    ensures
        r@.map_values(|t: (Vec<char>, Vec<char>)| (t.0@, t.1@)) == public_types(items@),
{
    let mut r: Vec<(Vec<char>, Vec<char>)> = Vec::new();
    let mut i: usize = items.len();
    assert(items@.skip(items.len() as int) =~= Seq::<SourceItem>::empty());
    while i > 0
        invariant
            i <= items.len(),
            r@.map_values(|t: (Vec<char>, Vec<char>)| (t.0@, t.1@)) == public_types(
                items@.skip(i as int),
            ),
        decreases i,
    {
        let ghost tail = items@.skip(i as int);
        let ghost prev = r@;
        assert(items@.skip(i - 1).drop_first() =~= tail);
        assert(items@.skip(i - 1)[0] == items@[i - 1]);
        let entry: Option<(Vec<char>, Vec<char>)> = match &items[i - 1] {
            SourceItem::Struct { visibility, name } => if is_public(*visibility) {
                Some((chars_of("struct"), chars_of(name.as_str())))
            } else {
                None
            },
            SourceItem::Enum { visibility, name } => if is_public(*visibility) {
                Some((chars_of("enum"), chars_of(name.as_str())))
            } else {
                None
            },
            SourceItem::Trait { visibility, name } => if is_public(*visibility) {
                Some((chars_of("trait"), chars_of(name.as_str())))
            } else {
                None
            },
            _ => None,
        };
        match entry {
            Some(t) => {
                r.insert(0, t);
                assert(r@.map_values(|t: (Vec<char>, Vec<char>)| (t.0@, t.1@)) =~= seq![
                    (t.0@, t.1@),
                ] + prev.map_values(|t: (Vec<char>, Vec<char>)| (t.0@, t.1@)));
            },
            None => {},
        }
        i = i - 1;
    }
    assert(items@.skip(0) =~= items@);
    r
}

/// Whether every item is a type alias, and there is at least one.
pub fn all_type_aliases(items: &Vec<SourceItem>) -> (r: bool)
    ensures
        r == only_type_aliases(items@),
{
    if items.len() == 0 {
        return false;
    }
    let mut i: usize = 0;
    while i < items.len()
        invariant
            i <= items.len(),
            forall|j: int| 0 <= j < i ==> (#[trigger] items@[j]) is TypeAlias,
        decreases items.len() - i,
    {
        match &items[i] {
            SourceItem::TypeAlias => {},
            _ => {
                return false;
            },
        }
        i = i + 1;
    }
    true
}

} // verus!
