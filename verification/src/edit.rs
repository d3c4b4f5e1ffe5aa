//! Trusted interface to `toml_edit`.
//!
//! `toml_edit` parses TOML documents, keeps their formatting, edits them and
//! prints them back. Its values are opaque to Verus: each is described here
//! by its shape, a [`TomlNode`], through the names [`item_tree`],
//! [`doc_tree`] and [`key_text`], and by which of its parts an edit leaves
//! as they were, formatting included. Every function in this file is trusted; its
//! doc comment says what is claimed of the `toml_edit` call it makes.

use vstd::prelude::*;

use toml_edit::{DocumentMut, Item, Key};

use crate::tree::{
    entries_put, entries_remove, entry_lookup, is_value_node, node_wf, present_entries, TomlNode,
};

verus! {

#[verifier::external_type_specification]
#[verifier::external_body]
pub struct ExItem(toml_edit::Item);

#[verifier::external_type_specification]
#[verifier::external_body]
pub struct ExDocumentMut(toml_edit::DocumentMut);

#[verifier::external_type_specification]
#[verifier::external_body]
pub struct ExKey(toml_edit::Key);

/// Shape of what an item holds (see [`TomlNode`]): an absent item is
/// `Empty`, a string its decoded text, a boolean its value, an integer,
/// float or datetime the text that `display_repr` gives of it; arrays,
/// inline tables, tables and arrays of tables the shapes of what they hold,
/// in order, keyed by the keys' texts.
pub uninterp spec fn item_tree(item: Item) -> TomlNode;

/// Shape of the root table of a document.
pub uninterp spec fn doc_tree(doc: DocumentMut) -> TomlNode;

/// Text that a document prints as.
pub uninterp spec fn doc_text(doc: DocumentMut) -> Seq<char>;

/// Text of a key.
pub uninterp spec fn key_text(key: Key) -> Seq<char>;

/// Text of the prefix decoration of a value item, where one was set as text:
/// `item.as_value()?.decor().prefix()?.as_str()`.
pub uninterp spec fn item_prefix(item: Item) -> Option<Seq<char>>;

/// Text of the suffix decoration of a value item, where one was set as text:
/// `item.as_value()?.decor().suffix()?.as_str()`.
pub uninterp spec fn item_suffix(item: Item) -> Option<Seq<char>>;

/// The root table of `doc` stores, under the key text `key`, the key `k` and
/// the item `item`, identical to them in every field, formatting included.
pub uninterp spec fn root_entry(doc: DocumentMut, key: Seq<char>, k: Key, item: Item) -> bool;

/// The root table of `doc` stores a table under `section`, and that table
/// stores, under the key text `key`, the key `k` and the item `item`,
/// identical to them in every field, formatting included.
pub uninterp spec fn section_entry(
    doc: DocumentMut,
    section: Seq<char>,
    key: Seq<char>,
    k: Key,
    item: Item,
) -> bool;

/// The root table of `doc` stores a table under `section` whose own
/// formatting (decoration, position, implicit and dotted flags) is that of
/// the table item `t`.
pub uninterp spec fn section_header(doc: DocumentMut, section: Seq<char>, t: Item) -> bool;

/// `a` and `b` carry the same leaf decoration (`Key::leaf_decor`): the
/// whitespace and comments written around the key.
pub uninterp spec fn key_decor_eq(a: Key, b: Key) -> bool;

/// Text after the last item of a document (`doc.trailing().as_str()`).
pub uninterp spec fn doc_trailing(doc: DocumentMut) -> Option<Seq<char>>;

/// Shape of the document that `toml_edit` parses from a text, or `None`
/// where the text is not TOML.
pub uninterp spec fn parsed_tree(text: Seq<char>) -> Option<TomlNode>;

/// Kind of a TOML item, as far as this library tells them apart.
#[derive(Clone, Copy, PartialEq, Eq, Debug)]
pub enum ItemKind {
    Empty,
    Str,
    Bool,
    Other,
    Array,
    Inline,
    Table,
    TableArray,
}

pub open spec fn kind_of(n: TomlNode) -> ItemKind {
    match n {
        TomlNode::Empty => ItemKind::Empty,
        TomlNode::Str(_) => ItemKind::Str,
        TomlNode::Bool(_) => ItemKind::Bool,
        TomlNode::Other(_) => ItemKind::Other,
        TomlNode::Array(_) => ItemKind::Array,
        TomlNode::Inline(_) => ItemKind::Inline,
        TomlNode::Table(_) => ItemKind::Table,
        TomlNode::TableArray(_) => ItemKind::TableArray,
    }
}

/// Entries of a table node; empty for any other node.
pub open spec fn table_entries(n: TomlNode) -> Seq<(Seq<char>, TomlNode)> {
    match n {
        TomlNode::Table(es) => es,
        _ => Seq::empty(),
    }
}

/// `text.parse::<DocumentMut>()`; a parse error is given back as its message
/// (`TomlError::to_string`).
///
/// Claims: the outcome depends on the text alone; a parsed document's root
/// is a table; a parsed document holds no absent items, its tables hold
/// distinct keys, and its arrays and inline tables hold values only (all three
/// hold of every `toml_edit` table and array that the parser builds).
#[verifier::external_body]
pub(crate) fn doc_parse(text: &str) -> (res: Result<DocumentMut, String>)
    ensures
        match res {
            Ok(doc) => parsed_tree(text@) == Some(doc_tree(doc)) && node_wf(doc_tree(doc))
                && doc_tree(doc) is Table,
            Err(_) => parsed_tree(text@) is None,
        },
{
    text.parse::<DocumentMut>().map_err(|e| e.to_string())
}

/// `DocumentMut::new()`: a document with an empty root table.
#[verifier::external_body]
pub(crate) fn doc_new() -> (res: DocumentMut)
    ensures
        doc_tree(res) == TomlNode::Table(Seq::empty()),
{
    DocumentMut::new()
}

/// `doc.to_string()`: the document printed as TOML, with its formatting.
///
/// Claims: the text depends on the document alone (it is named
/// [`doc_text`]). What the text is, is left unsaid: `toml_edit` documents
/// that printing does not keep the order of dotted keys, so no claim relates
/// the text to the parsed one. What the edits keep of a document's
/// formatting is stated over the document itself ([`root_entry`],
/// [`section_entry`], [`section_header`], [`doc_trailing`]).
#[verifier::external_body]
pub(crate) fn doc_display(doc: &DocumentMut) -> (res: String)
    ensures
        res@ == doc_text(*doc),
{
    doc.to_string()
}

/// `doc.as_item()`: the root item of a document.
#[verifier::external_body]
pub(crate) fn doc_root(doc: &DocumentMut) -> (res: &Item)
    ensures
        item_tree(*res) == doc_tree(*doc),
{
    doc.as_item()
}

/// Tells the variants of an item apart (`Item::None`, the value variants,
/// `Item::Table`, `Item::ArrayOfTables`).
#[verifier::external_body]
pub(crate) fn item_kind(item: &Item) -> (res: ItemKind)
    ensures
        res == kind_of(item_tree(*item)),
{
    match item {
        toml_edit::Item::None => ItemKind::Empty,
        toml_edit::Item::Value(toml_edit::Value::String(_)) => ItemKind::Str,
        toml_edit::Item::Value(toml_edit::Value::Boolean(_)) => ItemKind::Bool,
        toml_edit::Item::Value(toml_edit::Value::Array(_)) => ItemKind::Array,
        toml_edit::Item::Value(toml_edit::Value::InlineTable(_)) => ItemKind::Inline,
        toml_edit::Item::Value(_) => ItemKind::Other,
        toml_edit::Item::Table(_) => ItemKind::Table,
        toml_edit::Item::ArrayOfTables(_) => ItemKind::TableArray,
    }
}

/// `item.as_str()`, copied into a `String`.
#[verifier::external_body]
pub(crate) fn item_as_str(item: &Item) -> (res: Option<String>)
    ensures
        match item_tree(*item) {
            TomlNode::Str(s) => res is Some && res->0@ == s,
            _ => res is None,
        },
{
    item.as_str().map(|s| s.to_string())
}

/// `item.as_bool()`.
#[verifier::external_body]
pub(crate) fn item_as_bool(item: &Item) -> (res: Option<bool>)
    ensures
        match item_tree(*item) {
            TomlNode::Bool(b) => res == Some(b),
            _ => res is None,
        },
{
    item.as_bool()
}

/// `item.clone()`: the copy holds what the item holds.
#[verifier::external_body]
pub(crate) fn item_clone(item: &Item) -> (res: Item)
    ensures
        item_tree(res) == item_tree(*item),
{
    item.clone()
}

/// Entries of an inline table node; empty for any other node.
pub open spec fn inline_entries(n: TomlNode) -> Seq<(Seq<char>, TomlNode)> {
    match n {
        TomlNode::Inline(es) => es,
        _ => Seq::empty(),
    }
}

/// Elements of an array node; empty for any other node.
pub open spec fn array_values(n: TomlNode) -> Seq<TomlNode> {
    match n {
        TomlNode::Array(vs) => vs,
        _ => Seq::empty(),
    }
}

/// Tables of an array-of-tables node; empty for any other node.
pub open spec fn array_tables(n: TomlNode) -> Seq<Seq<(Seq<char>, TomlNode)>> {
    match n {
        TomlNode::TableArray(ts) => ts,
        _ => Seq::empty(),
    }
}

/// Copied key-value pairs have the texts and shapes of `es`.
pub open spec fn pairs_match(pairs: Seq<(String, Item)>, es: Seq<(Seq<char>, TomlNode)>) -> bool {
    &&& pairs.len() == es.len()
    &&& forall|i: int|
        #![trigger pairs[i]]
        0 <= i < pairs.len() ==> pairs[i].0@ == es[i].0 && item_tree(pairs[i].1) == es[i].1
}

/// Copies of the values of an array, in order (`array.iter()`, each value
/// cloned into an `Item::Value`). Nothing for an item that is not an array.
#[verifier::external_body]
pub(crate) fn item_array_values(item: &Item) -> (res: Vec<Item>)
    ensures
        res.len() == array_values(item_tree(*item)).len(),
        forall|i: int|
            0 <= i < res.len() ==> item_tree(#[trigger] res[i]) == array_values(
                item_tree(*item),
            )[i],
{
    match item.as_array() {
        Some(a) => a.iter().map(|v| Item::Value(v.clone())).collect(),
        None => Vec::new(),
    }
}

/// Copies of the present key-value pairs of a table, in order
/// (`table.iter()`, which skips absent items). Nothing for an item that is not
/// a table.
#[verifier::external_body]
pub(crate) fn item_table_entries(item: &Item) -> (res: Vec<(String, Item)>)
    ensures
        pairs_match(res@, present_entries(table_entries(item_tree(*item)))),
{
    match item.as_table() {
        Some(t) => t.iter().map(|(k, v)| (k.to_string(), v.clone())).collect(),
        None => Vec::new(),
    }
}

/// Copies of the key-value pairs of an inline table, in order (the
/// `TableLike` iterator of `InlineTable`). Nothing for an item that is not an
/// inline table.
#[verifier::external_body]
pub(crate) fn item_inline_entries(item: &Item) -> (res: Vec<(String, Item)>)
    ensures
        pairs_match(res@, inline_entries(item_tree(*item))),
{
    match item.as_inline_table() {
        Some(t) => toml_edit::TableLike::iter(t).map(|(k, v)| (k.to_string(), v.clone())).collect(),
        None => Vec::new(),
    }
}

/// Copies of the tables of an array of tables, each as its present key-value
/// pairs, in order. Nothing for an item that is not an array of tables.
#[verifier::external_body]
pub(crate) fn item_array_tables(item: &Item) -> (res: Vec<Vec<(String, Item)>>)
    ensures
        res.len() == array_tables(item_tree(*item)).len(),
        forall|i: int|
            0 <= i < res.len() ==> pairs_match(
                #[trigger] res[i]@,
                present_entries(array_tables(item_tree(*item))[i]),
            ),
{
    match item.as_array_of_tables() {
        Some(a) => a.iter().map(
            |t| t.iter().map(|(k, v)| (k.to_string(), v.clone())).collect(),
        ).collect(),
        None => Vec::new(),
    }
}

/// `Item::Value(Value::from(text))`: a string value.
#[verifier::external_body]
pub(crate) fn item_new_str(text: &str) -> (res: Item)
    ensures
        item_tree(res) == TomlNode::Str(text@),
{
    Item::Value(toml_edit::Value::from(text))
}

/// `Item::Value(Value::from(b))`: a boolean value.
#[verifier::external_body]
pub(crate) fn item_new_bool(b: bool) -> (res: Item)
    ensures
        item_tree(res) == TomlNode::Bool(b),
{
    Item::Value(toml_edit::Value::from(b))
}

/// `Item::Value(Value::Array(Array::new()))`: an empty array.
#[verifier::external_body]
pub(crate) fn item_new_array() -> (res: Item)
    ensures
        item_tree(res) == TomlNode::Array(Seq::empty()),
{
    Item::Value(toml_edit::Value::Array(toml_edit::Array::new()))
}

/// `array.push_formatted(value)`: appends a value, keeping the formatting it
/// has.
#[verifier::external_body]
pub(crate) fn item_array_push(item: &mut Item, value: Item)
    requires
        item_tree(*old(item)) is Array,
        is_value_node(item_tree(value)),
    ensures
        item_tree(*final(item)) == TomlNode::Array(
            array_values(item_tree(*old(item))).push(item_tree(value)),
        ),
{
    match (item.as_array_mut(), value.into_value()) {
        (Some(a), Ok(v)) => a.push_formatted(v),
        _ => {},
    }
}

/// `Item::Value(Value::InlineTable(InlineTable::new()))`: an empty inline
/// table, with the default decoration (no prefix, no suffix).
#[verifier::external_body]
pub(crate) fn item_new_inline() -> (res: Item)
    ensures
        item_tree(res) == TomlNode::Inline(Seq::empty()),
        item_prefix(res) == None::<Seq<char>>,
        item_suffix(res) == None::<Seq<char>>,
{
    Item::Value(toml_edit::Value::InlineTable(toml_edit::InlineTable::new()))
}

/// `inline_table.insert(key, value)`: stores a value under a key, in place
/// where the key is present, appended otherwise. The table's own
/// decoration is untouched.
#[verifier::external_body]
pub(crate) fn item_inline_insert(item: &mut Item, key: &str, value: Item)
    requires
        item_tree(*old(item)) is Inline,
        is_value_node(item_tree(value)),
    ensures
        item_tree(*final(item)) == TomlNode::Inline(
            entries_put(inline_entries(item_tree(*old(item))), key@, item_tree(value)),
        ),
        item_prefix(*final(item)) == item_prefix(*old(item)),
        item_suffix(*final(item)) == item_suffix(*old(item)),
{
    match (item.as_inline_table_mut(), value.into_value()) {
        (Some(t), Ok(v)) => {
            t.insert(key, v);
        },
        _ => {},
    }
}

/// `value.decor_mut().set_prefix(prefix)`: whitespace printed before a
/// value. Formatting only: what the item holds is unchanged; a value item
/// then has `prefix` as its prefix, and its suffix is untouched.
#[verifier::external_body]
pub(crate) fn item_set_prefix(item: &mut Item, prefix: &str)
    ensures
        item_tree(*final(item)) == item_tree(*old(item)),
        is_value_node(item_tree(*old(item))) ==> item_prefix(*final(item)) == Some(prefix@),
        item_suffix(*final(item)) == item_suffix(*old(item)),
{
    if let Some(v) = item.as_value_mut() {
        v.decor_mut().set_prefix(prefix)
    }
}

/// `value.decor_mut().set_suffix(suffix)`: whitespace printed after a
/// value. Formatting only: what the item holds is unchanged; a value item
/// then has `suffix` as its suffix, and its prefix is untouched.
#[verifier::external_body]
pub(crate) fn item_set_suffix(item: &mut Item, suffix: &str)
    ensures
        item_tree(*final(item)) == item_tree(*old(item)),
        is_value_node(item_tree(*old(item))) ==> item_suffix(*final(item)) == Some(suffix@),
        item_prefix(*final(item)) == item_prefix(*old(item)),
{
    if let Some(v) = item.as_value_mut() {
        v.decor_mut().set_suffix(suffix)
    }
}

/// `Item::Table(table)` for a new table; `implicit` sets
/// `table.set_implicit`, which only decides whether an empty table prints its
/// header.
#[verifier::external_body]
pub(crate) fn item_new_table(implicit: bool) -> (res: Item)
    ensures
        item_tree(res) == TomlNode::Table(Seq::empty()),
{
    let mut t = toml_edit::Table::new();
    t.set_implicit(implicit);
    Item::Table(t)
}

/// `table.insert(key, value)`: stores an item under a key, in place where
/// the key is present, appended otherwise; gives back the item it replaced.
#[verifier::external_body]
pub(crate) fn item_table_insert(item: &mut Item, key: &str, value: Item) -> (res: Option<Item>)
    requires
        item_tree(*old(item)) is Table,
    ensures
        item_tree(*final(item)) == TomlNode::Table(
            entries_put(table_entries(item_tree(*old(item))), key@, item_tree(value)),
        ),
        match entry_lookup(table_entries(item_tree(*old(item))), key@) {
            Some(n) => res is Some && item_tree(res->0) == n,
            None => res is None,
        },
{
    match item.as_table_mut() {
        Some(t) => t.insert(key, value),
        None => None,
    }
}

/// `Item::ArrayOfTables(ArrayOfTables::new())`: an empty array of tables.
#[verifier::external_body]
pub(crate) fn item_new_table_array() -> (res: Item)
    ensures
        item_tree(res) == TomlNode::TableArray(Seq::empty()),
{
    Item::ArrayOfTables(toml_edit::ArrayOfTables::new())
}

/// `array_of_tables.push(table)`: appends a table.
#[verifier::external_body]
pub(crate) fn item_table_array_push(item: &mut Item, table: Item)
    requires
        item_tree(*old(item)) is TableArray,
        item_tree(table) is Table,
    ensures
        item_tree(*final(item)) == TomlNode::TableArray(
            array_tables(item_tree(*old(item))).push(table_entries(item_tree(table))),
        ),
{
    match (item.as_array_of_tables_mut(), table.into_table()) {
        (Some(a), Ok(t)) => a.push(t),
        _ => {},
    }
}

/// Item stored under `k` where it is not absent (what `Table::get` finds).
pub open spec fn present_lookup(es: Seq<(Seq<char>, TomlNode)>, k: Seq<char>) -> Option<TomlNode> {
    match entry_lookup(es, k) {
        Some(n) => if n is Empty {
            None
        } else {
            Some(n)
        },
        None => None,
    }
}

/// Root entries of a document.
pub open spec fn doc_entries(doc: DocumentMut) -> Seq<(Seq<char>, TomlNode)> {
    table_entries(doc_tree(doc))
}

/// `table.get(key)` on an item that is a table; nothing for any other item.
#[verifier::external_body]
pub(crate) fn table_get<'a>(item: &'a Item, key: &str) -> (res: Option<&'a Item>)
    ensures
        match present_lookup(table_entries(item_tree(*item)), key@) {
            Some(n) => res is Some && item_tree(*res->0) == n,
            None => res is None,
        },
{
    match item.as_table() {
        Some(t) => t.get(key),
        None => None,
    }
}

/// `doc.insert(key, item)` on the root table: stores an item under a key, in
/// place where the key is present, appended otherwise; gives back the item it
/// replaced. The other root entries and the trailing text are untouched.
#[verifier::external_body]
pub(crate) fn doc_insert(doc: &mut DocumentMut, key: &str, item: Item) -> (res: Option<Item>)
    ensures
        doc_tree(*final(doc)) == TomlNode::Table(
            entries_put(doc_entries(*old(doc)), key@, item_tree(item)),
        ),
        match entry_lookup(doc_entries(*old(doc)), key@) {
            Some(n) => res is Some && item_tree(res->0) == n,
            None => res is None,
        },
        doc_trailing(*final(doc)) == doc_trailing(*old(doc)),
        forall|r: Seq<char>, k: Key, it: Item|
            r != key@ ==> (root_entry(*final(doc), r, k, it) <==> root_entry(*old(doc), r, k, it)),
{
    doc.insert(key, item)
}

/// `insert(key, item)` on the table stored under `section` in the root table
/// (reached through `doc.get_mut(section)` and `Item::as_table_mut`). The
/// section keeps its place and its own formatting; the item is stored in
/// place where the key is present, appended otherwise, under a key of
/// default formatting; gives back the item it replaced. The other entries of
/// the section, the other root entries and the trailing text are untouched.
#[verifier::external_body]
pub(crate) fn doc_section_insert(doc: &mut DocumentMut, section: &str, key: &str, item: Item) -> (res:
    Option<Item>)
    requires
        doc_tree(*old(doc)) is Table,
        present_lookup(doc_entries(*old(doc)), section@) matches Some(TomlNode::Table(_)),
    ensures
        ({
            let es = table_entries(present_lookup(doc_entries(*old(doc)), section@)->0);
            &&& doc_tree(*final(doc)) == TomlNode::Table(
                entries_put(
                    doc_entries(*old(doc)),
                    section@,
                    TomlNode::Table(entries_put(es, key@, item_tree(item))),
                ),
            )
            &&& match entry_lookup(es, key@) {
                Some(n) => res is Some && item_tree(res->0) == n,
                None => res is None,
            }
        }),
        doc_trailing(*final(doc)) == doc_trailing(*old(doc)),
        forall|r: Seq<char>, k: Key, it: Item|
            r != section@ ==> (root_entry(*final(doc), r, k, it) <==> root_entry(
                *old(doc),
                r,
                k,
                it,
            )),
        forall|t: Item| section_header(*old(doc), section@, t) ==> section_header(*final(doc), section@, t),
        forall|e: Seq<char>, k: Key, it: Item|
            e != key@ ==> (section_entry(*final(doc), section@, e, k, it) <==> section_entry(
                *old(doc),
                section@,
                e,
                k,
                it,
            )),
        exists|k: Key| section_entry(*final(doc), section@, key@, k, item),
{
    match doc.get_mut(section).and_then(toml_edit::Item::as_table_mut) {
        Some(t) => t.insert(key, item),
        None => None,
    }
}

/// `remove_entry(key)` on the table stored under `section` in the root table
/// (reached through `doc.get_mut(section)` and `Item::as_table_mut`): takes
/// out the pair stored under the key (the stored key and item themselves),
/// keeping the order of the others. The section keeps its place and its own
/// formatting; the other entries of the section, the other root entries and
/// the trailing text are untouched, and where the key is not there nothing
/// changes.
#[verifier::external_body]
pub(crate) fn doc_section_remove(doc: &mut DocumentMut, section: &str, key: &str) -> (res: Option<
    (Key, Item),
>)
    requires
        doc_tree(*old(doc)) is Table,
        present_lookup(doc_entries(*old(doc)), section@) matches Some(TomlNode::Table(_)),
    ensures
        ({
            let es = table_entries(present_lookup(doc_entries(*old(doc)), section@)->0);
            &&& doc_tree(*final(doc)) == TomlNode::Table(
                entries_put(
                    doc_entries(*old(doc)),
                    section@,
                    TomlNode::Table(entries_remove(es, key@)),
                ),
            )
            &&& match entry_lookup(es, key@) {
                Some(n) => res is Some && key_text((res->0).0) == key@ && item_tree((res->0).1) == n,
                None => res is None,
            }
        }),        doc_trailing(*final(doc)) == doc_trailing(*old(doc)),
        forall|r: Seq<char>, k: Key, it: Item|
            r != section@ ==> (root_entry(*final(doc), r, k, it) <==> root_entry(
                *old(doc),
                r,
                k,
                it,
            )),
        forall|t: Item| section_header(*old(doc), section@, t) ==> section_header(*final(doc), section@, t),
        forall|e: Seq<char>, k: Key, it: Item|
            e != key@ ==> (section_entry(*final(doc), section@, e, k, it) <==> section_entry(
                *old(doc),
                section@,
                e,
                k,
                it,
            )),
        res matches Some(p) ==> section_entry(*old(doc), section@, key@, p.0, p.1),
        res is None ==> *final(doc) == *old(doc),
{
    match doc.get_mut(section).and_then(toml_edit::Item::as_table_mut) {
        Some(t) => t.remove_entry(key),
        None => None,
    }
}

/// `insert_formatted(key, item)` on the table stored under `section` in the
/// root table: as [`doc_section_insert`], but the entry is stored with a
/// copy of `key` itself, formatting included.
#[verifier::external_body]
pub(crate) fn doc_section_insert_formatted(
    doc: &mut DocumentMut,
    section: &str,
    key: &Key,
    item: Item,
) -> (res: Option<Item>)
    requires
        doc_tree(*old(doc)) is Table,
        present_lookup(doc_entries(*old(doc)), section@) matches Some(TomlNode::Table(_)),
    ensures
        ({
            let es = table_entries(present_lookup(doc_entries(*old(doc)), section@)->0);
            &&& doc_tree(*final(doc)) == TomlNode::Table(
                entries_put(
                    doc_entries(*old(doc)),
                    section@,
                    TomlNode::Table(entries_put(es, key_text(*key), item_tree(item))),
                ),
            )
            &&& match entry_lookup(es, key_text(*key)) {
                Some(n) => res is Some && item_tree(res->0) == n,
                None => res is None,
            }
        }),        doc_trailing(*final(doc)) == doc_trailing(*old(doc)),
        forall|r: Seq<char>, k: Key, it: Item|
            r != section@ ==> (root_entry(*final(doc), r, k, it) <==> root_entry(
                *old(doc),
                r,
                k,
                it,
            )),
        forall|t: Item| section_header(*old(doc), section@, t) ==> section_header(*final(doc), section@, t),
        forall|e: Seq<char>, k: Key, it: Item|
            e != key_text(*key) ==> (section_entry(*final(doc), section@, e, k, it) <==> section_entry(
                *old(doc),
                section@,
                e,
                k,
                it,
            )),
        section_entry(*final(doc), section@, key_text(*key), *key, item),
{
    match doc.get_mut(section).and_then(toml_edit::Item::as_table_mut) {
        Some(t) => t.insert_formatted(key, item),
        None => None,
    }
}

/// `Key::new(text).with_leaf_decor(old.leaf_decor().clone())`: a key with new
/// text and the formatting of `old`.
#[verifier::external_body]
pub(crate) fn key_renamed(old: &Key, text: &str) -> (res: Key)
    ensures
        key_text(res) == text@,
        key_decor_eq(res, *old),
{
    Key::new(text).with_leaf_decor(old.leaf_decor().clone())
}

/// `key.get()`: the text of a key.
#[verifier::external_body]
pub(crate) fn key_get(key: &Key) -> (res: String)
    ensures
        res@ == key_text(*key),
{
    key.get().to_string()
}

} // verus!
