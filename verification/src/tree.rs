//! Abstract model of TOML items.
//!
//! [`TomlNode`] is the mathematical shape of a TOML item: what the rest of
//! the library reads from it. [`TomlItem`] is its executable counterpart,
//! built by the settings encoders and by conversion from parsed documents.
//! Tables are ordered sequences of key-value pairs, as in a TOML document.

use vstd::prelude::*;

use toml_edit::Item;

use crate::edit::item_tree;

verus! {

/// Shape of a TOML item.
///
/// `Other` stands for an integer, float or datetime, by its text as written
/// in the document (`display_repr` of the value, such as `0x1F` or
/// `1979-05-27`); this library never reads such values. `Empty` stands for
/// an absent item.
pub enum TomlNode {
    Empty,
    Str(Seq<char>),
    Bool(bool),
    Other(Seq<char>),
    Array(Seq<TomlNode>),
    Inline(Seq<(Seq<char>, TomlNode)>),
    Table(Seq<(Seq<char>, TomlNode)>),
    TableArray(Seq<Seq<(Seq<char>, TomlNode)>>),
}

/// Layout of an inline table inside an array: the whitespace written before
/// and after it. Layout never changes what the table holds.
#[derive(Debug)]
pub struct Decor {
    pub prefix: Option<String>,
    pub suffix: Option<String>,
}

/// Executable TOML item.
#[derive(Debug)]
pub enum TomlItem {
    Str(String),
    Bool(bool),
    /// An integer, float or datetime value, carried unchanged. Any other item
    /// here has the shape `Empty`, which no well-formed item holds.
    Other(Item),
    Array(Vec<TomlItem>),
    Inline(Vec<TomlEntry>, Decor),
    Table(Vec<TomlEntry>),
    TableArray(Vec<Vec<TomlEntry>>),
}

/// Key-value pair of a TOML table.
#[derive(Debug)]
pub struct TomlEntry {
    pub key: String,
    pub item: TomlItem,
}

/// Shape of an executable item.
pub open spec fn node_of(i: TomlItem) -> TomlNode
    decreases i,
{
    match i {
        TomlItem::Str(s) => TomlNode::Str(s@),
        TomlItem::Bool(b) => TomlNode::Bool(b),
        TomlItem::Other(it) => if item_tree(it) is Other {
            item_tree(it)
        } else {
            TomlNode::Empty
        },
        TomlItem::Array(v) => TomlNode::Array(nodes_of(v@)),
        TomlItem::Inline(es, _) => TomlNode::Inline(entries_of(es@)),
        TomlItem::Table(es) => TomlNode::Table(entries_of(es@)),
        TomlItem::TableArray(ts) => TomlNode::TableArray(tables_of(ts@)),
    }
}

pub open spec fn nodes_of(s: Seq<TomlItem>) -> Seq<TomlNode>
    decreases s,
{
    if s.len() == 0 {
        Seq::empty()
    } else {
        nodes_of(s.drop_last()).push(node_of(s.last()))
    }
}

pub open spec fn entries_of(s: Seq<TomlEntry>) -> Seq<(Seq<char>, TomlNode)>
    decreases s,
{
    if s.len() == 0 {
        Seq::empty()
    } else {
        entries_of(s.drop_last()).push((s.last().key@, node_of(s.last().item)))
    }
}

pub open spec fn tables_of(s: Seq<Vec<TomlEntry>>) -> Seq<Seq<(Seq<char>, TomlNode)>>
    decreases s,
{
    if s.len() == 0 {
        Seq::empty()
    } else {
        tables_of(s.drop_last()).push(entries_of(s.last()@))
    }
}

impl View for TomlItem {
    type V = TomlNode;

    open spec fn view(&self) -> TomlNode {
        node_of(*self)
    }
}

impl View for TomlEntry {
    type V = (Seq<char>, TomlNode);

    open spec fn view(&self) -> (Seq<char>, TomlNode) {
        (self.key@, node_of(self.item))
    }
}


/// Index of the first entry whose key is `k`, or -1.
pub open spec fn key_index(es: Seq<(Seq<char>, TomlNode)>, k: Seq<char>) -> int
    decreases es.len(),
{
    if es.len() == 0 {
        -1
    } else {
        let r = key_index(es.drop_last(), k);
        if r >= 0 {
            r
        } else if es.last().0 == k {
            es.len() - 1
        } else {
            -1
        }
    }
}

/// Item stored under `k`, if any.
pub open spec fn entry_lookup(es: Seq<(Seq<char>, TomlNode)>, k: Seq<char>) -> Option<TomlNode> {
    let i = key_index(es, k);
    if i >= 0 {
        Some(es[i].1)
    } else {
        None
    }
}

/// Entries after storing `v` under `k`: in place where `k` is present,
/// appended otherwise.
pub open spec fn entries_put(es: Seq<(Seq<char>, TomlNode)>, k: Seq<char>, v: TomlNode) -> Seq<
    (Seq<char>, TomlNode),
> {
    let i = key_index(es, k);
    if i >= 0 {
        es.update(i, (k, v))
    } else {
        es.push((k, v))
    }
}

/// Entries after removing the one under `k`, keeping the order of the rest.
pub open spec fn entries_remove(es: Seq<(Seq<char>, TomlNode)>, k: Seq<char>) -> Seq<
    (Seq<char>, TomlNode),
> {
    let i = key_index(es, k);
    if i >= 0 {
        es.remove(i)
    } else {
        es
    }
}

/// Entries whose item is not absent, in order.
pub open spec fn present_entries(es: Seq<(Seq<char>, TomlNode)>) -> Seq<(Seq<char>, TomlNode)>
    decreases es.len(),
{
    if es.len() == 0 {
        Seq::empty()
    } else if es.last().1 is Empty {
        present_entries(es.drop_last())
    } else {
        present_entries(es.drop_last()).push(es.last())
    }
}

/// No two entries share a key.
pub open spec fn keys_distinct(es: Seq<(Seq<char>, TomlNode)>) -> bool {
    forall|i: int, j: int| 0 <= i < es.len() && 0 <= j < es.len() && i != j ==> es[i].0 != es[j].0
}

/// Nodes that can stand inside an array or an inline table.
pub open spec fn is_value_node(n: TomlNode) -> bool {
    match n {
        TomlNode::Str(_) | TomlNode::Bool(_) | TomlNode::Other(_) | TomlNode::Array(_)
        | TomlNode::Inline(_) => true,
        _ => false,
    }
}

/// Well-formed shape: no absent items, distinct keys in every table, values
/// only inside arrays and inline tables.
pub open spec fn node_wf(n: TomlNode) -> bool
    decreases n,
{
    match n {
        TomlNode::Empty => false,
        TomlNode::Str(_) | TomlNode::Bool(_) | TomlNode::Other(_) => true,
        TomlNode::Array(vs) => values_wf(vs),
        TomlNode::Inline(es) => entries_wf(es, true),
        TomlNode::Table(es) => entries_wf(es, false),
        TomlNode::TableArray(ts) => tables_wf(ts),
    }
}

pub open spec fn values_wf(vs: Seq<TomlNode>) -> bool
    decreases vs,
{
    if vs.len() == 0 {
        true
    } else {
        values_wf(vs.drop_last()) && is_value_node(vs.last()) && node_wf(vs.last())
    }
}

pub open spec fn entries_wf(es: Seq<(Seq<char>, TomlNode)>, values_only: bool) -> bool
    decreases es,
{
    if es.len() == 0 {
        true
    } else {
        &&& entries_wf(es.drop_last(), values_only)
        &&& key_index(es.drop_last(), es.last().0) == -1
        &&& (values_only ==> is_value_node(es.last().1))
        &&& node_wf(es.last().1)
    }
}

pub open spec fn tables_wf(ts: Seq<Seq<(Seq<char>, TomlNode)>>) -> bool
    decreases ts,
{
    if ts.len() == 0 {
        true
    } else {
        tables_wf(ts.drop_last()) && entries_wf(ts.last(), false)
    }
}


/// Shapes of executable items, index by index.
pub proof fn lemma_nodes_of(s: Seq<TomlItem>)
    ensures
        nodes_of(s).len() == s.len(),
        forall|i: int| 0 <= i < s.len() ==> #[trigger] nodes_of(s)[i] == node_of(s[i]),
    decreases s.len(),
{
    if s.len() > 0 {
        lemma_nodes_of(s.drop_last());
    }
}

/// Shapes of executable entries, index by index.
pub proof fn lemma_entries_of(s: Seq<TomlEntry>)
    ensures
        entries_of(s).len() == s.len(),
        forall|i: int|
            0 <= i < s.len() ==> #[trigger] entries_of(s)[i] == (s[i].key@, node_of(s[i].item)),
    decreases s.len(),
{
    if s.len() > 0 {
        lemma_entries_of(s.drop_last());
    }
}

/// Shapes of executable tables, index by index.
pub proof fn lemma_tables_of(s: Seq<Vec<TomlEntry>>)
    ensures
        tables_of(s).len() == s.len(),
        forall|i: int| 0 <= i < s.len() ==> #[trigger] tables_of(s)[i] == entries_of(s[i]@),
    decreases s.len(),
{
    if s.len() > 0 {
        lemma_tables_of(s.drop_last());
    }
}

/// What `key_index` finds: the first entry under the key, or none at all.
pub proof fn lemma_key_index(es: Seq<(Seq<char>, TomlNode)>, k: Seq<char>)
    ensures
        -1 <= key_index(es, k) < es.len(),
        key_index(es, k) == -1 <==> (forall|i: int| 0 <= i < es.len() ==> es[i].0 != k),
        key_index(es, k) >= 0 ==> es[key_index(es, k)].0 == k,
        forall|i: int| 0 <= i < key_index(es, k) ==> es[i].0 != k,
    decreases es.len(),
{
    if es.len() > 0 {
        lemma_key_index(es.drop_last(), k);
        let r = key_index(es.drop_last(), k);
        if r == -1 {
            assert forall|i: int| 0 <= i < es.len() - 1 implies es[i].0 != k by {
                assert(es.drop_last()[i] == es[i]);
            }
        } else {
            assert(es.drop_last()[r] == es[r]);
            assert forall|i: int| 0 <= i < r implies es[i].0 != k by {
                assert(es.drop_last()[i] == es[i]);
            }
        }
    }
}

/// What well-formed array elements are.
pub proof fn lemma_values_wf(vs: Seq<TomlNode>)
    requires
        values_wf(vs),
    ensures
        forall|i: int| 0 <= i < vs.len() ==> is_value_node(#[trigger] vs[i]) && node_wf(vs[i]),
    decreases vs.len(),
{
    if vs.len() > 0 {
        lemma_values_wf(vs.drop_last());
        assert forall|i: int| 0 <= i < vs.len() implies is_value_node(#[trigger] vs[i])
            && node_wf(vs[i]) by {
            if i < vs.len() - 1 {
                assert(vs.drop_last()[i] == vs[i]);
            }
        }
    }
}

/// What well-formed entries are: each item well formed, each key absent from
/// the entries before it, all keys distinct, no absent items.
pub proof fn lemma_entries_wf(es: Seq<(Seq<char>, TomlNode)>, values_only: bool)
    requires
        entries_wf(es, values_only),
    ensures
        forall|i: int|
            0 <= i < es.len() ==> node_wf(#[trigger] es[i].1) && (values_only ==> is_value_node(
                es[i].1,
            )),
        forall|i: int| 0 <= i < es.len() ==> key_index(es.take(i), #[trigger] es[i].0) == -1,
        keys_distinct(es),
        present_entries(es) == es,
    decreases es.len(),
{
    if es.len() > 0 {
        let d = es.drop_last();
        lemma_entries_wf(d, values_only);
        lemma_key_index(d, es.last().0);
        assert forall|i: int|
            0 <= i < es.len() implies node_wf(#[trigger] es[i].1) && (values_only
            ==> is_value_node(es[i].1)) by {
            if i < es.len() - 1 {
                assert(d[i] == es[i]);
            }
        }
        assert forall|i: int| 0 <= i < es.len() implies key_index(es.take(i), #[trigger] es[i].0)
            == -1 by {
            if i < es.len() - 1 {
                assert(d[i] == es[i]);
                assert(d.take(i) =~= es.take(i));
            } else {
                assert(es.take(i) =~= d);
            }
        }
        assert forall|i: int, j: int|
            0 <= i < es.len() && 0 <= j < es.len() && i != j implies es[i].0 != es[j].0 by {
            if i < es.len() - 1 && j < es.len() - 1 {
                assert(d[i] == es[i] && d[j] == es[j]);
            } else if i < es.len() - 1 {
                assert(d[i] == es[i]);
            } else {
                assert(d[j] == es[j]);
            }
        }
        assert(!(es.last().1 is Empty));
        assert(d.push(es.last()) =~= es);
    }
}

/// What well-formed tables of an array of tables are.
pub proof fn lemma_tables_wf(ts: Seq<Seq<(Seq<char>, TomlNode)>>)
    requires
        tables_wf(ts),
    ensures
        forall|i: int| 0 <= i < ts.len() ==> entries_wf(#[trigger] ts[i], false),
    decreases ts.len(),
{
    if ts.len() > 0 {
        lemma_tables_wf(ts.drop_last());
        assert forall|i: int| 0 <= i < ts.len() implies entries_wf(#[trigger] ts[i], false) by {
            if i < ts.len() - 1 {
                assert(ts.drop_last()[i] == ts[i]);
            }
        }
    }
}


/// Entries with distinct keys and well-formed items are well formed.
pub proof fn lemma_entries_wf_intro(es: Seq<(Seq<char>, TomlNode)>, values_only: bool)
    requires
        keys_distinct(es),
        forall|i: int|
            0 <= i < es.len() ==> node_wf(#[trigger] es[i].1) && (values_only ==> is_value_node(
                es[i].1,
            )),
    ensures
        entries_wf(es, values_only),
    decreases es.len(),
{
    if es.len() > 0 {
        let d = es.drop_last();
        assert forall|i: int| 0 <= i < d.len() implies node_wf(#[trigger] d[i].1) && (values_only
            ==> is_value_node(d[i].1)) by {
            assert(d[i] == es[i]);
        }
        assert forall|i: int, j: int|
            0 <= i < d.len() && 0 <= j < d.len() && i != j implies d[i].0 != d[j].0 by {
            assert(d[i] == es[i] && d[j] == es[j]);
        }
        lemma_entries_wf_intro(d, values_only);
        lemma_key_index(d, es.last().0);
        if key_index(d, es.last().0) >= 0 {
            let r = key_index(d, es.last().0);
            assert(d[r] == es[r]);
        }
        assert(node_wf(es[es.len() - 1].1));
    }
}

/// Lookups after storing an item under a key.
pub proof fn lemma_put_lookup(es: Seq<(Seq<char>, TomlNode)>, k: Seq<char>, v: TomlNode, k2: Seq<char>)
    ensures
        entry_lookup(entries_put(es, k, v), k2) == if k2 == k {
            Some(v)
        } else {
            entry_lookup(es, k2)
        },
{
    lemma_key_index(es, k);
    lemma_key_index(es, k2);
    let p = entries_put(es, k, v);
    lemma_key_index(p, k2);
    let i = key_index(es, k);
    let i2 = key_index(p, k2);
    if k2 == k {
        if i >= 0 {
            assert(p[i].0 == k);
            if i2 >= 0 && i2 != i {
                assert(p[i2] == es[i2]);
            }
        } else {
            assert(p[es.len() as int].0 == k);
            if i2 >= 0 && i2 < es.len() {
                assert(p[i2] == es[i2]);
            }
        }
    } else {
        let j = key_index(es, k2);
        if j >= 0 {
            assert(p[j] == es[j] || j == i);
            assert(j != i);
            assert(p[j] == es[j]);
            if i2 >= 0 && i2 < j {
                assert(p[i2] == es[i2] || i2 == i);
            }
        } else {
            if i2 >= 0 {
                if i2 < es.len() {
                    assert(p[i2] == es[i2] || i2 == i);
                }
            }
        }
    }
}

/// Lookups after removing the entry under a key: a distinct key keeps its
/// item; the key itself is gone where keys are distinct.
pub proof fn lemma_remove_lookup(es: Seq<(Seq<char>, TomlNode)>, k: Seq<char>, k2: Seq<char>)
    ensures
        k2 != k ==> entry_lookup(entries_remove(es, k), k2) == entry_lookup(es, k2),
        keys_distinct(es) ==> entry_lookup(entries_remove(es, k), k) is None,
        keys_distinct(es) ==> keys_distinct(entries_remove(es, k)),
        entries_remove(es, k).len() <= es.len(),
        forall|j: int|
            0 <= j < entries_remove(es, k).len() ==> exists|i: int|
                0 <= i < es.len() && #[trigger] entries_remove(es, k)[j] == es[i],
{
    lemma_key_index(es, k);
    lemma_key_index(es, k2);
    let r = entries_remove(es, k);
    lemma_key_index(r, k2);
    lemma_key_index(r, k);
    let i = key_index(es, k);
    if i >= 0 {
        assert forall|j: int| 0 <= j < r.len() implies exists|m: int|
            0 <= m < es.len() && #[trigger] r[j] == es[m] by {
            if j < i {
                assert(r[j] == es[j]);
            } else {
                assert(r[j] == es[j + 1]);
            }
        }
        if k2 != k {
            let j = key_index(es, k2);
            let j2 = key_index(r, k2);
            if j >= 0 {
                assert(j != i);
                if j < i {
                    assert(r[j] == es[j]);
                    if j2 >= 0 && j2 < j {
                        assert(r[j2] == es[j2]);
                    }
                } else {
                    assert(r[j - 1] == es[j]);
                    if j2 >= 0 && j2 < j - 1 {
                        if j2 < i {
                            assert(r[j2] == es[j2]);
                        } else {
                            assert(r[j2] == es[j2 + 1]);
                        }
                    }
                }
            } else {
                if j2 >= 0 {
                    if j2 < i {
                        assert(r[j2] == es[j2]);
                    } else {
                        assert(r[j2] == es[j2 + 1]);
                    }
                }
            }
        }
        if keys_distinct(es) {
            assert forall|a: int, b: int|
                0 <= a < r.len() && 0 <= b < r.len() && a != b implies r[a].0 != r[b].0 by {
                let ia = if a < i { a } else { a + 1 };
                let ib = if b < i { b } else { b + 1 };
                assert(r[a] == es[ia]);
                assert(r[b] == es[ib]);
            }
            let jk = key_index(r, k);
            if jk >= 0 {
                let ij = if jk < i { jk } else { jk + 1 };
                assert(r[jk] == es[ij]);
            }
        }
    } else {
        assert forall|j: int| 0 <= j < r.len() implies exists|m: int|
            0 <= m < es.len() && #[trigger] r[j] == es[m] by {
            assert(r[j] == es[j]);
        }
    }
}

/// Storing an item keeps keys distinct, and keeps entries well formed when
/// the item is.
pub proof fn lemma_put_wf(es: Seq<(Seq<char>, TomlNode)>, k: Seq<char>, v: TomlNode, values_only: bool)
    requires
        entries_wf(es, values_only),
        node_wf(v),
        values_only ==> is_value_node(v),
    ensures
        entries_wf(entries_put(es, k, v), values_only),
{
    lemma_entries_wf(es, values_only);
    lemma_key_index(es, k);
    let p = entries_put(es, k, v);
    let i = key_index(es, k);
    assert forall|a: int| 0 <= a < p.len() implies node_wf(#[trigger] p[a].1) && (values_only
        ==> is_value_node(p[a].1)) by {
        if a < es.len() && a != i {
            assert(p[a] == es[a]);
        }
    }
    assert forall|a: int, b: int|
        0 <= a < p.len() && 0 <= b < p.len() && a != b implies p[a].0 != p[b].0 by {
        if a < es.len() && a != i {
            assert(p[a] == es[a]);
        }
        if b < es.len() && b != i {
            assert(p[b] == es[b]);
        }
    }
    lemma_entries_wf_intro(p, values_only);
}

/// Removing an entry keeps entries well formed.
pub proof fn lemma_remove_wf(es: Seq<(Seq<char>, TomlNode)>, k: Seq<char>, values_only: bool)
    requires
        entries_wf(es, values_only),
    ensures
        entries_wf(entries_remove(es, k), values_only),
{
    lemma_entries_wf(es, values_only);
    lemma_remove_lookup(es, k, k);
    let r = entries_remove(es, k);
    assert forall|a: int| 0 <= a < r.len() implies node_wf(#[trigger] r[a].1) && (values_only
        ==> is_value_node(r[a].1)) by {
        let m = choose|m: int| 0 <= m < es.len() && r[a] == es[m];
        assert(node_wf(es[m].1));
    }
    lemma_entries_wf_intro(r, values_only);
}


/// Storing twice under one key is storing the second item.
pub proof fn lemma_put_put(es: Seq<(Seq<char>, TomlNode)>, k: Seq<char>, a: TomlNode, b: TomlNode)
    ensures
        entries_put(entries_put(es, k, a), k, b) == entries_put(es, k, b),
{
    lemma_key_index(es, k);
    let p = entries_put(es, k, a);
    lemma_key_index(p, k);
    let i = key_index(es, k);
    let i2 = key_index(p, k);
    if i >= 0 {
        if i2 >= 0 && i2 < i {
            assert(p[i2] == es[i2]);
        }
        assert(p[i].0 == k);
        assert(i2 == i);
    } else {
        if i2 >= 0 && i2 < es.len() {
            assert(p[i2] == es[i2]);
        }
        assert(p[es.len() as int].0 == k);
        assert(i2 == es.len());
    }
    assert(entries_put(p, k, b) =~= entries_put(es, k, b));
}

} // verus!
