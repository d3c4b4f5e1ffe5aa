//! Format preserving TOML document store.
//!
//! [`Toml`] holds a parsed document and offers basic create, read, update and
//! delete operations on the entries of its top-level tables. Its model is the
//! sequence of the document's top-level entries; each operation states how it
//! changes that sequence, through the spec functions [`toml_get`],
//! [`toml_add`], [`toml_remove`] and [`toml_rename`]. Each operation also
//! states which formatting it keeps: that of every part of the document it
//! does not edit ([`keeps_other_sections`], [`keeps_section`]), and, for a
//! rename, that of the renamed key.

use vstd::prelude::*;

use toml_edit::{DocumentMut, Item, Key};

use crate::convert::{from_item, to_item};
use crate::edit::{
    doc_display, doc_entries, doc_insert, doc_new, doc_parse, doc_root, doc_section_insert,
    doc_section_insert_formatted, doc_section_remove, doc_text, doc_trailing, doc_tree, item_kind,
    item_new_table, item_tree, key_decor_eq, key_get, key_renamed, parsed_tree, present_lookup,
    root_entry, section_entry, section_header, table_entries, table_get, ItemKind,
};
use crate::tree::{
    entries_put, entries_remove, entries_wf, entry_lookup, key_index,
    lemma_entries_wf, lemma_key_index, lemma_put_lookup, lemma_put_put, lemma_put_wf, lemma_remove_lookup,
    lemma_remove_wf, node_wf, TomlEntry, TomlNode,
};

verus! {

/// Error types for [`Toml`].
#[derive(Debug, PartialEq, Eq)]
pub enum TomlError {
    /// The text is not TOML; `message` says why.
    BadParse { message: String },
    /// No table of that name is in the document.
    TableNotFound { table: String },
    /// The top-level entry of that name is not a table.
    NotTable { table: String },
    /// The table holds no entry of that name.
    EntryNotFound { table: String, key: String },
}

/// Model of a [`TomlError`].
pub enum TomlErrorView {
    BadParse,
    TableNotFound(Seq<char>),
    NotTable(Seq<char>),
    EntryNotFound(Seq<char>, Seq<char>),
}

impl View for TomlError {
    type V = TomlErrorView;

    open spec fn view(&self) -> TomlErrorView {
        match self {
            TomlError::BadParse { .. } => TomlErrorView::BadParse,
            TomlError::TableNotFound { table } => TomlErrorView::TableNotFound(table@),
            TomlError::NotTable { table } => TomlErrorView::NotTable(table@),
            TomlError::EntryNotFound { table, key } => TomlErrorView::EntryNotFound(
                table@,
                key@,
            ),
        }
    }
}

/// What a document holds under a top-level name.
pub enum Section {
    Missing,
    NotTable,
    Table(Seq<(Seq<char>, TomlNode)>),
}

pub open spec fn section(doc: Seq<(Seq<char>, TomlNode)>, name: Seq<char>) -> Section {
    match present_lookup(doc, name) {
        None => Section::Missing,
        Some(TomlNode::Table(es)) => Section::Table(es),
        Some(_) => Section::NotTable,
    }
}

/// Entry `key` of table `table`.
pub open spec fn toml_get(doc: Seq<(Seq<char>, TomlNode)>, table: Seq<char>, key: Seq<char>) -> Result<
    (Seq<char>, TomlNode),
    TomlErrorView,
> {
    match section(doc, table) {
        Section::Missing => Err(TomlErrorView::TableNotFound(table)),
        Section::NotTable => Err(TomlErrorView::NotTable(table)),
        Section::Table(es) => match present_lookup(es, key) {
            Some(n) => Ok((key, n)),
            None => Err(TomlErrorView::EntryNotFound(table, key)),
        },
    }
}

/// Document after adding entry `(key, item)` to table `table`, creating the
/// table where it is missing, and the entry it replaced.
pub open spec fn toml_add(
    doc: Seq<(Seq<char>, TomlNode)>,
    table: Seq<char>,
    key: Seq<char>,
    item: TomlNode,
) -> (Seq<(Seq<char>, TomlNode)>, Result<Option<(Seq<char>, TomlNode)>, TomlErrorView>) {
    match section(doc, table) {
        Section::Missing => (
            entries_put(doc, table, TomlNode::Table(seq![(key, item)])),
            Ok(None),
        ),
        Section::NotTable => (doc, Err(TomlErrorView::NotTable(table))),
        Section::Table(es) => (
            entries_put(doc, table, TomlNode::Table(entries_put(es, key, item))),
            Ok(
                match entry_lookup(es, key) {
                    Some(old) => Some((key, old)),
                    None => None,
                },
            ),
        ),
    }
}

/// Document after removing entry `key` from table `table`, and the entry it
/// removed.
pub open spec fn toml_remove(doc: Seq<(Seq<char>, TomlNode)>, table: Seq<char>, key: Seq<char>) -> (
    Seq<(Seq<char>, TomlNode)>,
    Result<(Seq<char>, TomlNode), TomlErrorView>,
) {
    match section(doc, table) {
        Section::Missing => (doc, Err(TomlErrorView::TableNotFound(table))),
        Section::NotTable => (doc, Err(TomlErrorView::NotTable(table))),
        Section::Table(es) => match entry_lookup(es, key) {
            Some(old) => (
                entries_put(doc, table, TomlNode::Table(entries_remove(es, key))),
                Ok((key, old)),
            ),
            None => (doc, Err(TomlErrorView::EntryNotFound(table, key))),
        },
    }
}

/// Document after moving the item of entry `from` of table `table` under the
/// key `to`, and the entry as it was before.
pub open spec fn toml_rename(
    doc: Seq<(Seq<char>, TomlNode)>,
    table: Seq<char>,
    from: Seq<char>,
    to: Seq<char>,
) -> (Seq<(Seq<char>, TomlNode)>, Result<(Seq<char>, TomlNode), TomlErrorView>) {
    match section(doc, table) {
        Section::Missing => (doc, Err(TomlErrorView::TableNotFound(table))),
        Section::NotTable => (doc, Err(TomlErrorView::NotTable(table))),
        Section::Table(es) => match entry_lookup(es, from) {
            Some(old) => (
                entries_put(
                    doc,
                    table,
                    TomlNode::Table(entries_put(entries_remove(es, from), to, old)),
                ),
                Ok((from, old)),
            ),
            None => (doc, Err(TomlErrorView::EntryNotFound(table, from))),
        },
    }
}

/// Model of the outcome of an operation that gives back an entry.
pub open spec fn entry_result(r: Result<TomlEntry, TomlError>) -> Result<
    (Seq<char>, TomlNode),
    TomlErrorView,
> {
    match r {
        Ok(e) => Ok(e@),
        Err(e) => Err(e@),
    }
}

/// Model of the outcome of an operation that may give back an entry.
pub open spec fn opt_entry_result(r: Result<Option<TomlEntry>, TomlError>) -> Result<
    Option<(Seq<char>, TomlNode)>,
    TomlErrorView,
> {
    match r {
        Ok(Some(e)) => Ok(Some(e@)),
        Ok(None) => Ok(None),
        Err(e) => Err(e@),
    }
}

/// The formatting that `b` keeps of `a` outside section `section`: the
/// trailing text, and every other top-level entry, key and item, as it was.
pub open spec fn keeps_other_sections(a: DocumentMut, b: DocumentMut, section: Seq<char>) -> bool {
    &&& doc_trailing(b) == doc_trailing(a)
    &&& forall|r: Seq<char>, k: Key, it: Item|
        r != section ==> (root_entry(b, r, k, it) <==> root_entry(a, r, k, it))
}

/// The formatting that `b` keeps of section `section` of `a`: the section's
/// own formatting, and every entry whose key is not in `keys`, key and item,
/// as it was.
pub open spec fn keeps_section(
    a: DocumentMut,
    b: DocumentMut,
    section: Seq<char>,
    keys: Set<Seq<char>>,
) -> bool {
    &&& forall|t: Item| section_header(a, section, t) ==> section_header(b, section, t)
    &&& forall|e: Seq<char>, k: Key, it: Item|
        !keys.contains(e) ==> (section_entry(b, section, e, k, it) <==> section_entry(
            a,
            section,
            e,
            k,
            it,
        ))
}

/// Entry `to` of section `section` of `b` is entry `from` of `a` moved: the
/// same item, formatting included, under a key with the leaf decoration of
/// the key it had.
pub open spec fn entry_moved(
    a: DocumentMut,
    b: DocumentMut,
    section: Seq<char>,
    from: Seq<char>,
    to: Seq<char>,
) -> bool {
    exists|k1: Key, k2: Key, it: Item|
        {
            &&& section_entry(a, section, from, k1, it)
            &&& section_entry(b, section, to, k2, it)
            &&& key_decor_eq(k2, k1)
        }
}

/// The formatting that an addition under key `key` of section `section`
/// keeps: where it failed, the whole document; where it succeeded, all
/// outside the section, and where the section was a table already, its own
/// formatting and its other entries.
pub open spec fn add_keeps_format(
    a: DocumentMut,
    b: DocumentMut,
    section: Seq<char>,
    key: Seq<char>,
    had_section: bool,
    succeeded: bool,
) -> bool {
    &&& !succeeded ==> b == a
    &&& succeeded ==> keeps_other_sections(a, b, section)
    &&& succeeded && had_section ==> keeps_section(a, b, section, set![key])
}

/// The formatting that a removal of entry `key` of section `section` keeps:
/// where it failed, the whole document; where it succeeded, everything else.
pub open spec fn remove_keeps_format(
    a: DocumentMut,
    b: DocumentMut,
    section: Seq<char>,
    key: Seq<char>,
    succeeded: bool,
) -> bool {
    &&& !succeeded ==> b == a
    &&& succeeded ==> keeps_other_sections(a, b, section)
    &&& succeeded ==> keeps_section(a, b, section, set![key])
}

/// The formatting that a rename of entry `from` of section `section` to `to`
/// keeps: where it failed, the whole document; where it succeeded,
/// everything else, and the entry moved with its item and its key's leaf
/// decoration.
pub open spec fn rename_keeps_format(
    a: DocumentMut,
    b: DocumentMut,
    section: Seq<char>,
    from: Seq<char>,
    to: Seq<char>,
    succeeded: bool,
) -> bool {
    &&& !succeeded ==> b == a
    &&& succeeded ==> keeps_other_sections(a, b, section)
    &&& succeeded ==> keeps_section(a, b, section, set![from, to])
    &&& succeeded ==> entry_moved(a, b, section, from, to)
}

/// TOML parser.
///
/// Offers basic CRUD operations on the entries of the document's top-level
/// tables. Leaves file handling to the caller.
///
/// # Invariants
///
/// 1. Keeps the formatting that the document was parsed with: each edit
///    keeps the formatting of all that it does not edit (see
///    [`add_keeps_format`], [`remove_keeps_format`] and
///    [`rename_keeps_format`]).
/// 2. The document is well formed: its root is a table, its tables hold
///    distinct keys and no absent items.
#[derive(Debug)]
pub struct Toml {
    doc: DocumentMut,
}

impl View for Toml {
    type V = Seq<(Seq<char>, TomlNode)>;

    closed spec fn view(&self) -> Seq<(Seq<char>, TomlNode)> {
        doc_entries(self.doc)
    }
}

impl Default for Toml {
    /// An empty document.
    fn default() -> (res: Self)
        ensures
            res@ == Seq::<(Seq<char>, TomlNode)>::empty(),
    {
        Toml::new()
    }
}

impl std::str::FromStr for Toml {
    type Err = TomlError;

    /// Parse a TOML document (see [`Toml::parse`]).
    fn from_str(data: &str) -> (res: Result<Self, TomlError>)
        ensures
            res is Ok <==> parsed_tree(data@) is Some,
            res matches Ok(t) ==> parsed_tree(data@) == Some(TomlNode::Table(t@)) && entries_wf(
                t@,
                false,
            ),
            res matches Err(e) ==> e is BadParse,
    {
        Toml::parse(data)
    }
}

/// A lookup in well-formed entries finds a well-formed item.
proof fn lemma_lookup_wf(es: Seq<(Seq<char>, TomlNode)>, k: Seq<char>, values_only: bool)
    requires
        entries_wf(es, values_only),
    ensures
        entry_lookup(es, k) matches Some(n) ==> node_wf(n) && !(n is Empty),
        present_lookup(es, k) == entry_lookup(es, k),
{
    lemma_entries_wf(es, values_only);
    lemma_key_index(es, k);
    if key_index(es, k) >= 0 {
        assert(node_wf(es[key_index(es, k)].1));
    }
}

impl Toml {
    #[verifier::type_invariant]
    spec fn inv(self) -> bool {
        &&& doc_tree(self.doc) is Table
        &&& node_wf(doc_tree(self.doc))
    }

    /// Construct an empty document.
    pub fn new() -> (res: Self)
        ensures
            res@ == Seq::<(Seq<char>, TomlNode)>::empty(),
            entries_wf(res@, false),
    {
        let doc = doc_new();
        assert(node_wf(doc_tree(doc))) by {
            reveal_with_fuel(crate::tree::entries_wf, 1);
        }
        Toml { doc }
    }

    /// Parse a TOML document.
    ///
    /// # Errors
    ///
    /// - Return [`TomlError::BadParse`] if `data` is not TOML.
    pub fn parse(data: &str) -> (res: Result<Self, TomlError>)
        ensures
            res is Ok <==> parsed_tree(data@) is Some,
            res matches Ok(t) ==> parsed_tree(data@) == Some(TomlNode::Table(t@)) && entries_wf(
                t@,
                false,
            ),
            res matches Err(e) ==> e is BadParse,
    {
        match doc_parse(data) {
            Ok(doc) => Ok(Toml { doc }),
            Err(message) => Err(TomlError::BadParse { message }),
        }
    }

    /// The `toml_edit` document held, formatting included.
    pub closed spec fn document(&self) -> DocumentMut {
        self.doc
    }

    /// Text that the document prints as, with its formatting kept.
    pub closed spec fn text(&self) -> Seq<char> {
        doc_text(self.doc)
    }

    /// The document as TOML text, with its formatting kept.
    pub fn to_string(&self) -> (res: String)
        ensures
            res@ == self.text(),
    {
        doc_display(&self.doc)
    }

    /// Add TOML entry into the document.
    ///
    /// Adds `entry` into table `table`, creating the table where it does not
    /// exist. Replaces an entry of the same key, returning the entry it
    /// replaced; returns `None` where nothing was replaced.
    ///
    /// # Errors
    ///
    /// - Return [`TomlError::NotTable`] if `table` is not defined as a table.
    pub fn add(&mut self, table: &str, entry: TomlEntry) -> (res: Result<
        Option<TomlEntry>,
        TomlError,
    >)
        requires
            node_wf(entry.item@),
        ensures
            entries_wf(old(self)@, false),
            entries_wf(final(self)@, false),
            final(self)@ == toml_add(old(self)@, table@, entry.key@, entry.item@).0,
            opt_entry_result(res) == toml_add(old(self)@, table@, entry.key@, entry.item@).1,
            add_keeps_format(
                old(self).document(),
                final(self).document(),
                table@,
                entry.key@,
                section(old(self)@, table@) is Table,
                res is Ok,
            ),
    {
        proof {
            use_type_invariant(&*self);
        }
        let ghost root = self@;
        let ghost k = entry.key@;
        let ghost v = entry.item@;
        proof {
            lemma_lookup_wf(root, table@, false);
        }
        let kind = match table_get(doc_root(&self.doc), table) {
            Some(sec) => Some(item_kind(sec)),
            None => None,
        };
        let mut doc = doc_new();
        std::mem::swap(&mut doc, &mut self.doc);
        let res = match kind {
            None => {
                let new_table = item_new_table(true);
                proof {
                    lemma_put_wf(root, table@, TomlNode::Table(Seq::empty()), false);
                    reveal_with_fuel(crate::tree::entries_wf, 1);
                    lemma_put_lookup(root, table@, TomlNode::Table(Seq::empty()), table@);
                    let r1 = entries_put(root, table@, TomlNode::Table(Seq::empty()));
                    lemma_put_wf(Seq::empty(), k, v, false);
                    lemma_put_wf(r1, table@, TomlNode::Table(entries_put(Seq::empty(), k, v)), false);
                    lemma_key_index(root, table@);
                    assert(entries_put(r1, table@, TomlNode::Table(seq![(k, v)])) =~= entries_put(
                        root,
                        table@,
                        TomlNode::Table(seq![(k, v)]),
                    ));
                    assert(entries_put(Seq::<(Seq<char>, TomlNode)>::empty(), k, v) =~= seq![(k, v)]);
                }
                let _ = doc_insert(&mut doc, table, new_table);
                let item = to_item(&entry.item);
                let _ = doc_section_insert(&mut doc, table, entry.key.as_str(), item);
                Ok(None)
            },
            Some(ItemKind::Table) => {
                let ghost es = table_entries(present_lookup(root, table@)->0);
                proof {
                    lemma_lookup_wf(es, k, false);
                    lemma_put_wf(es, k, v, false);
                    lemma_put_wf(root, table@, TomlNode::Table(entries_put(es, k, v)), false);
                }
                let item = to_item(&entry.item);
                let old_item = doc_section_insert(&mut doc, table, entry.key.as_str(), item);
                match old_item {
                    Some(o) => {
                        let it = from_item(&o);
                        Ok(Some(TomlEntry { key: entry.key, item: it }))
                    },
                    None => Ok(None),
                }
            },
            Some(_) => Err(TomlError::NotTable { table: table.to_owned() }),
        };
        self.doc = doc;
        res
    }

    /// Get entry `key` from table `table`.
    ///
    /// # Errors
    ///
    /// - Return [`TomlError::TableNotFound`] if `table` is not in the document.
    /// - Return [`TomlError::NotTable`] if `table` is not defined as a table.
    /// - Return [`TomlError::EntryNotFound`] if `table` has no entry `key`.
    pub fn get(&self, table: &str, key: &str) -> (res: Result<TomlEntry, TomlError>)
        ensures
            entries_wf(self@, false),
            entry_result(res) == toml_get(self@, table@, key@),
    {
        proof {
            use_type_invariant(self);
            lemma_lookup_wf(self@, table@, false);
        }
        match table_get(doc_root(&self.doc), table) {
            None => Err(TomlError::TableNotFound { table: table.to_owned() }),
            Some(sec) => match item_kind(sec) {
                ItemKind::Table => {
                    proof {
                        lemma_lookup_wf(table_entries(item_tree(*sec)), key@, false);
                    }
                    match table_get(sec, key) {
                        Some(it) => {
                            let item = from_item(it);
                            Ok(TomlEntry { key: key.to_owned(), item })
                        },
                        None => Err(
                            TomlError::EntryNotFound { table: table.to_owned(), key: key.to_owned() },
                        ),
                    }
                },
                _ => Err(TomlError::NotTable { table: table.to_owned() }),
            },
        }
    }

    /// Remove entry `key` from table `table`, returning the removed entry.
    ///
    /// # Errors
    ///
    /// - Return [`TomlError::TableNotFound`] if `table` is not in the document.
    /// - Return [`TomlError::NotTable`] if `table` is not defined as a table.
    /// - Return [`TomlError::EntryNotFound`] if `table` has no entry `key`.
    pub fn remove(&mut self, table: &str, key: &str) -> (res: Result<TomlEntry, TomlError>)
        ensures
            entries_wf(old(self)@, false),
            entries_wf(final(self)@, false),
            final(self)@ == toml_remove(old(self)@, table@, key@).0,
            entry_result(res) == toml_remove(old(self)@, table@, key@).1,
            remove_keeps_format(
                old(self).document(),
                final(self).document(),
                table@,
                key@,
                res is Ok,
            ),
    {
        proof {
            use_type_invariant(&*self);
        }
        let ghost root = self@;
        proof {
            lemma_lookup_wf(root, table@, false);
        }
        let kind = match table_get(doc_root(&self.doc), table) {
            Some(sec) => Some(item_kind(sec)),
            None => None,
        };
        let mut doc = doc_new();
        std::mem::swap(&mut doc, &mut self.doc);
        let res = match kind {
            None => Err(TomlError::TableNotFound { table: table.to_owned() }),
            Some(ItemKind::Table) => {
                let ghost es = table_entries(present_lookup(root, table@)->0);
                proof {
                    lemma_lookup_wf(es, key@, false);
                    lemma_remove_wf(es, key@, false);
                    lemma_put_wf(root, table@, TomlNode::Table(entries_remove(es, key@)), false);
                    lemma_key_index(es, key@);
                    if key_index(es, key@) < 0 {
                        assert(entries_remove(es, key@) == es);
                        lemma_key_index(root, table@);
                        assert(root[key_index(root, table@)].1 == TomlNode::Table(es));
                        assert(entries_put(root, table@, TomlNode::Table(es)) =~= root);
                    }
                }
                match doc_section_remove(&mut doc, table, key) {
                    Some(pair) => {
                        let (k, o) = pair;
                        let item = from_item(&o);
                        Ok(TomlEntry { key: key_get(&k), item })
                    },
                    None => Err(
                        TomlError::EntryNotFound { table: table.to_owned(), key: key.to_owned() },
                    ),
                }
            },
            Some(_) => Err(TomlError::NotTable { table: table.to_owned() }),
        };
        self.doc = doc;
        res
    }

    /// Rename entry `from` of table `table` to `to`, keeping the formatting of
    /// its key. Returns the entry as it was before.
    ///
    /// # Errors
    ///
    /// - Return [`TomlError::TableNotFound`] if `table` is not in the document.
    /// - Return [`TomlError::NotTable`] if `table` is not defined as a table.
    /// - Return [`TomlError::EntryNotFound`] if `table` has no entry `from`.
    pub fn rename(&mut self, table: &str, from: &str, to: &str) -> (res: Result<
        TomlEntry,
        TomlError,
    >)
        ensures
            entries_wf(old(self)@, false),
            entries_wf(final(self)@, false),
            final(self)@ == toml_rename(old(self)@, table@, from@, to@).0,
            entry_result(res) == toml_rename(old(self)@, table@, from@, to@).1,
            rename_keeps_format(
                old(self).document(),
                final(self).document(),
                table@,
                from@,
                to@,
                res is Ok,
            ),
    {
        proof {
            use_type_invariant(&*self);
        }
        let ghost root = self@;
        proof {
            lemma_lookup_wf(root, table@, false);
        }
        let kind = match table_get(doc_root(&self.doc), table) {
            Some(sec) => Some(item_kind(sec)),
            None => None,
        };
        let mut doc = doc_new();
        std::mem::swap(&mut doc, &mut self.doc);
        let res = match kind {
            None => Err(TomlError::TableNotFound { table: table.to_owned() }),
            Some(ItemKind::Table) => {
                let ghost es = table_entries(present_lookup(root, table@)->0);
                let ghost es1 = entries_remove(es, from@);
                let ghost r1 = entries_put(root, table@, TomlNode::Table(es1));
                proof {
                    lemma_lookup_wf(es, from@, false);
                    lemma_remove_wf(es, from@, false);
                    lemma_put_wf(root, table@, TomlNode::Table(es1), false);
                    lemma_put_lookup(root, table@, TomlNode::Table(es1), table@);
                    lemma_lookup_wf(r1, table@, false);
                    lemma_key_index(es, from@);
                    if key_index(es, from@) < 0 {
                        assert(es1 == es);
                        lemma_key_index(root, table@);
                        assert(root[key_index(root, table@)].1 == TomlNode::Table(es));
                        assert(r1 =~= root);
                    }
                }
                let ghost d0 = doc;
                match doc_section_remove(&mut doc, table, from) {
                    Some(pair) => {
                        let (k, o) = pair;
                        let ghost old_item = item_tree(o);
                        let new_key = key_renamed(&k, to);
                        let item = from_item(&o);
                        proof {
                            lemma_lookup_wf(es, from@, false);
                            lemma_put_wf(es1, to@, old_item, false);
                            lemma_put_wf(r1, table@, TomlNode::Table(entries_put(es1, to@, old_item)), false);
                            lemma_key_index(root, table@);
                            lemma_put_put(root, table@, TomlNode::Table(es1), TomlNode::Table(entries_put(es1, to@, old_item)));
                            assert(entries_put(r1, table@, TomlNode::Table(entries_put(es1, to@, old_item)))
                                =~= entries_put(root, table@, TomlNode::Table(entries_put(es1, to@, old_item))));
                        }
                        let ghost moved = o;
                        let _ = doc_section_insert_formatted(&mut doc, table, &new_key, o);
                        proof {
                            assert(section_entry(d0, table@, from@, k, moved));
                            assert(section_entry(doc, table@, to@, new_key, moved));
                            assert(key_decor_eq(new_key, k));
                        }
                        Ok(TomlEntry { key: key_get(&k), item })
                    },
                    None => Err(
                        TomlError::EntryNotFound { table: table.to_owned(), key: from.to_owned() },
                    ),
                }
            },
            Some(_) => Err(TomlError::NotTable { table: table.to_owned() }),
        };
        self.doc = doc;
        res
    }
}

} // verus!

verus! {

/// Storing a table under a top-level name changes that section alone.
proof fn lemma_section_put(
    doc: Seq<(Seq<char>, TomlNode)>,
    t: Seq<char>,
    es: Seq<(Seq<char>, TomlNode)>,
    t2: Seq<char>,
)
    ensures
        section(entries_put(doc, t, TomlNode::Table(es)), t2) == if t2 == t {
            Section::Table(es)
        } else {
            section(doc, t2)
        },
{
    lemma_put_lookup(doc, t, TomlNode::Table(es), t2);
}

/// Lookups in a table that a key was stored in.
proof fn lemma_present_put(
    es: Seq<(Seq<char>, TomlNode)>,
    k: Seq<char>,
    v: TomlNode,
    k2: Seq<char>,
)
    requires
        entries_wf(es, false),
        node_wf(v),
    ensures
        present_lookup(entries_put(es, k, v), k2) == if k2 == k {
            Some(v)
        } else {
            present_lookup(es, k2)
        },
{
    lemma_put_lookup(es, k, v, k2);
}

/// Law: reading an entry back after adding it gives the added entry, and
/// every entry of another table reads as before. Entries of the same table
/// under other keys also read as before where the table existed.
pub proof fn lemma_toml_get_after_add(
    doc: Seq<(Seq<char>, TomlNode)>,
    table: Seq<char>,
    key: Seq<char>,
    item: TomlNode,
    table2: Seq<char>,
    key2: Seq<char>,
)
    requires
        entries_wf(doc, false),
        node_wf(item),
        toml_add(doc, table, key, item).1 is Ok,
    ensures
        toml_get(toml_add(doc, table, key, item).0, table, key) == Ok::<
            (Seq<char>, TomlNode),
            TomlErrorView,
        >((key, item)),
        table2 != table ==> toml_get(toml_add(doc, table, key, item).0, table2, key2) == toml_get(
            doc,
            table2,
            key2,
        ),
        section(doc, table) is Table && key2 != key ==> toml_get(
            toml_add(doc, table, key, item).0,
            table,
            key2,
        ) == toml_get(doc, table, key2),
{
    lemma_lookup_wf(doc, table, false);
    match section(doc, table) {
        Section::Missing => {
            let es = seq![(key, item)];
            lemma_section_put(doc, table, es, table);
            lemma_section_put(doc, table, es, table2);
            lemma_key_index(es, key);
            assert(es[0].0 == key);
        },
        Section::Table(es) => {
            lemma_lookup_wf(doc, table, false);
            let es2 = entries_put(es, key, item);
            lemma_section_put(doc, table, es2, table);
            lemma_section_put(doc, table, es2, table2);
            lemma_present_put(es, key, item, key);
            lemma_present_put(es, key, item, key2);
        },
        Section::NotTable => {},
    }
}

/// Law: adding an entry gives back the entry that a read would have given
/// before, refuses a name that is not a table exactly as a read does, and
/// gives back nothing where nothing was there.
pub proof fn lemma_toml_add_returns_replaced(
    doc: Seq<(Seq<char>, TomlNode)>,
    table: Seq<char>,
    key: Seq<char>,
    item: TomlNode,
)
    requires
        entries_wf(doc, false),
    ensures
        toml_add(doc, table, key, item).1 == match toml_get(doc, table, key) {
            Ok(e) => Ok(Some(e)),
            Err(TomlErrorView::NotTable(t)) => Err(TomlErrorView::NotTable(t)),
            Err(_) => Ok(None),
        },
{
    lemma_lookup_wf(doc, table, false);
    if let Section::Table(es) = section(doc, table) {
        lemma_lookup_wf(es, key, false);
    }
}

/// Law: removing an entry gives back what a read gave before; afterwards the
/// entry is gone and every other entry reads as before.
pub proof fn lemma_toml_get_after_remove(
    doc: Seq<(Seq<char>, TomlNode)>,
    table: Seq<char>,
    key: Seq<char>,
    table2: Seq<char>,
    key2: Seq<char>,
)
    requires
        entries_wf(doc, false),
    ensures
        toml_remove(doc, table, key).1 == toml_get(doc, table, key),
        toml_remove(doc, table, key).1 is Ok ==> toml_get(toml_remove(doc, table, key).0, table, key)
            == Err::<(Seq<char>, TomlNode), TomlErrorView>(
            TomlErrorView::EntryNotFound(table, key),
        ),
        !(table2 == table && key2 == key) ==> toml_get(toml_remove(doc, table, key).0, table2, key2)
            == toml_get(doc, table2, key2),
{
    lemma_lookup_wf(doc, table, false);
    if let Section::Table(es) = section(doc, table) {
        lemma_lookup_wf(es, key, false);
        lemma_lookup_wf(es, key2, false);
        if entry_lookup(es, key) is Some {
            let es2 = entries_remove(es, key);
            lemma_remove_wf(es, key, false);
            lemma_lookup_wf(es2, key, false);
            lemma_lookup_wf(es2, key2, false);
            lemma_entries_wf(es, false);
            lemma_remove_lookup(es, key, key);
            lemma_remove_lookup(es, key, key2);
            lemma_section_put(doc, table, es2, table);
            lemma_section_put(doc, table, es2, table2);
        }
    }
}

/// Law: removing an entry just added to an existing table that did not hold
/// its key gives back the document as it was.
pub proof fn lemma_toml_remove_undoes_add(
    doc: Seq<(Seq<char>, TomlNode)>,
    table: Seq<char>,
    key: Seq<char>,
    item: TomlNode,
)
    requires
        entries_wf(doc, false),
        node_wf(item),
        toml_add(doc, table, key, item).1 == Ok::<
            Option<(Seq<char>, TomlNode)>,
            TomlErrorView,
        >(None),
        section(doc, table) is Table,
    ensures
        toml_remove(toml_add(doc, table, key, item).0, table, key) == (
            doc,
            Ok::<(Seq<char>, TomlNode), TomlErrorView>((key, item)),
        ),
{
    lemma_lookup_wf(doc, table, false);
    let es = section(doc, table)->Table_0;
    lemma_lookup_wf(es, key, false);
    lemma_key_index(es, key);
    let es2 = entries_put(es, key, item);
    assert(es2 == es.push((key, item)));
    lemma_key_index(es2, key);
    assert(es2[es.len() as int].0 == key);
    if key_index(es2, key) < es.len() {
        assert(es2[key_index(es2, key)] == es[key_index(es2, key)]);
    }
    assert(key_index(es2, key) == es.len());
    assert(entries_remove(es2, key) =~= es);
    lemma_section_put(doc, table, es2, table);
    let d2 = entries_put(doc, table, TomlNode::Table(es2));
    lemma_put_put(doc, table, TomlNode::Table(es2), TomlNode::Table(es));
    lemma_key_index(doc, table);
    assert(doc[key_index(doc, table)].1 == TomlNode::Table(es));
    assert(entries_put(doc, table, TomlNode::Table(es)) =~= doc);
}

/// Law: renaming moves the entry's item under the new key and gives back
/// the entry as it was; the old key reads as missing where the keys differ.
pub proof fn lemma_toml_rename_moves(
    doc: Seq<(Seq<char>, TomlNode)>,
    table: Seq<char>,
    from: Seq<char>,
    to: Seq<char>,
)
    requires
        entries_wf(doc, false),
    ensures
        toml_rename(doc, table, from, to).1 == toml_get(doc, table, from),
        toml_rename(doc, table, from, to).1 matches Ok((_, n)) ==> toml_get(
            toml_rename(doc, table, from, to).0,
            table,
            to,
        ) == Ok::<(Seq<char>, TomlNode), TomlErrorView>((to, n)),
        toml_rename(doc, table, from, to).1 is Ok && from != to ==> toml_get(
            toml_rename(doc, table, from, to).0,
            table,
            from,
        ) == Err::<(Seq<char>, TomlNode), TomlErrorView>(
            TomlErrorView::EntryNotFound(table, from),
        ),
{
    lemma_lookup_wf(doc, table, false);
    if let Section::Table(es) = section(doc, table) {
        lemma_lookup_wf(es, from, false);
        if let Some(n) = entry_lookup(es, from) {
            let es1 = entries_remove(es, from);
            lemma_remove_wf(es, from, false);
            lemma_entries_wf(es, false);
            lemma_remove_lookup(es, from, from);
            lemma_lookup_wf(es1, from, false);
            lemma_present_put(es1, to, n, to);
            lemma_present_put(es1, to, n, from);
            lemma_section_put(doc, table, entries_put(es1, to, n), table);
        }
    }
}

} // verus!
