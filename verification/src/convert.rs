//! Conversion between `toml_edit` items and [`TomlItem`]s.
//!
//! Reading copies a `toml_edit` item into a [`TomlItem`] of the same shape;
//! writing builds a `toml_edit` item of the same shape as a [`TomlItem`].

use vstd::prelude::*;

use toml_edit::Item;

use crate::edit::{
    array_tables, array_values, inline_entries, item_array_tables, item_array_values,
    item_array_push, item_as_bool, item_as_str, item_clone, item_inline_entries,
    item_inline_insert, item_kind, item_new_array, item_new_bool, item_new_inline, item_new_str,
    item_new_table, item_new_table_array, item_prefix, item_set_prefix, item_suffix, item_set_suffix, item_table_array_push,
    item_table_entries, item_table_insert, item_tree, pairs_match, table_entries, ItemKind,
};
use crate::config::settings::opt_str;
use crate::tree::{
    entries_of, entries_wf, is_value_node, key_index, lemma_entries_of, lemma_entries_wf,
    lemma_nodes_of, lemma_tables_of, lemma_tables_wf, lemma_values_wf, node_of, node_wf, nodes_of,
    present_entries, tables_of, Decor, TomlEntry, TomlItem, TomlNode,
};

verus! {

/// Copies a well-formed `toml_edit` item into a [`TomlItem`].
#[verifier::rlimit(60)]
pub fn from_item(item: &Item) -> (res: TomlItem)
    requires
        node_wf(item_tree(*item)),
    ensures
        res@ == item_tree(*item),
    decreases item_tree(*item), 1int,
{
    let kind = item_kind(item);
    match kind {
        ItemKind::Str => {
            match item_as_str(item) {
                Some(s) => TomlItem::Str(s),
                None => TomlItem::Other(item_clone(item)),
            }
        },
        ItemKind::Bool => {
            match item_as_bool(item) {
                Some(b) => TomlItem::Bool(b),
                None => TomlItem::Other(item_clone(item)),
            }
        },
        ItemKind::Array => {
            let ghost vs = array_values(item_tree(*item));
            proof {
                lemma_values_wf(vs);
            }
            let vals = item_array_values(item);
            let mut out: Vec<TomlItem> = Vec::new();
            let mut j: usize = 0;
            while j < vals.len()
                invariant
                    j <= vals.len(),
                    vals.len() == vs.len(),
                    item_tree(*item) == TomlNode::Array(vs),
                    forall|i: int| 0 <= i < vals.len() ==> item_tree(#[trigger] vals[i]) == vs[i],
                    forall|i: int| 0 <= i < vs.len() ==> node_wf(#[trigger] vs[i]),
                    nodes_of(out@) == vs.take(j as int),
                decreases vals.len() - j,
            {
                proof {
                    assert(decreases_to!(item_tree(*item) => item_tree(*item)->Array_0));
                    assert(decreases_to!(vs => vs[j as int]));
                }
                let x = from_item(&vals[j]);
                proof {
                    assert(out@.push(x).drop_last() =~= out@);
                    assert(vs.take(j + 1) =~= vs.take(j as int).push(vs[j as int]));
                }
                out.push(x);
                j = j + 1;
            }
            proof {
                assert(vs.take(vs.len() as int) =~= vs);
            }
            TomlItem::Array(out)
        },
        ItemKind::Inline => {
            let ghost es = inline_entries(item_tree(*item));
            proof {
                lemma_entries_wf(es, true);
            }
            let pairs = item_inline_entries(item);
            let out = from_pairs(&pairs, Ghost(es), Ghost(item_tree(*item)));
            TomlItem::Inline(out, Decor { prefix: None, suffix: None })
        },
        ItemKind::Table => {
            let ghost es = table_entries(item_tree(*item));
            proof {
                lemma_entries_wf(es, false);
            }
            let pairs = item_table_entries(item);
            let out = from_pairs(&pairs, Ghost(es), Ghost(item_tree(*item)));
            TomlItem::Table(out)
        },
        ItemKind::TableArray => {
            let ghost ts = array_tables(item_tree(*item));
            proof {
                lemma_tables_wf(ts);
            }
            let tables = item_array_tables(item);
            let mut out: Vec<Vec<TomlEntry>> = Vec::new();
            let mut j: usize = 0;
            while j < tables.len()
                invariant
                    j <= tables.len(),
                    tables.len() == ts.len(),
                    item_tree(*item) == TomlNode::TableArray(ts),
                    forall|i: int|
                        0 <= i < tables.len() ==> pairs_match(
                            #[trigger] tables[i]@,
                            present_entries(ts[i]),
                        ),
                    forall|i: int| 0 <= i < ts.len() ==> entries_wf(#[trigger] ts[i], false),
                    tables_of(out@) == ts.take(j as int),
                decreases tables.len() - j,
            {
                proof {
                    lemma_entries_wf(ts[j as int], false);
                    let tj = ts[j as int];
                    assert(decreases_to!(item_tree(*item) => item_tree(*item)->TableArray_0));
                    assert(decreases_to!(ts => tj));
                    assert forall|i: int| 0 <= i < tj.len() implies decreases_to!(item_tree(*item) => #[trigger] tj[i].1) by {
                        assert(decreases_to!(tj => tj[i]));
                        assert(decreases_to!(tj[i] => tj[i].1));
                    }
                }
                let t = from_pairs(&tables[j], Ghost(ts[j as int]), Ghost(item_tree(*item)));
                proof {
                    assert(out@.push(t).drop_last() =~= out@);
                    assert(ts.take(j + 1) =~= ts.take(j as int).push(ts[j as int]));
                }
                out.push(t);
                j = j + 1;
            }
            proof {
                assert(ts.take(ts.len() as int) =~= ts);
            }
            TomlItem::TableArray(out)
        },
        _ => TomlItem::Other(item_clone(item)),
    }
}

/// Copies key-value pairs whose shapes are the entries `es` of `parent`.
fn from_pairs(
    pairs: &Vec<(String, Item)>,
    Ghost(es): Ghost<Seq<(Seq<char>, TomlNode)>>,
    Ghost(parent): Ghost<TomlNode>,
) -> (res: Vec<TomlEntry>)
    requires
        pairs_match(pairs@, es),
        forall|i: int| 0 <= i < es.len() ==> node_wf(#[trigger] es[i].1),
        forall|i: int| 0 <= i < es.len() ==> decreases_to!(parent => #[trigger] es[i].1),
    ensures
        entries_of(res@) == es,
    decreases parent, 0int,
{
    let mut out: Vec<TomlEntry> = Vec::new();
    let mut j: usize = 0;
    while j < pairs.len()
        invariant
            j <= pairs.len(),
            pairs_match(pairs@, es),
            forall|i: int| 0 <= i < es.len() ==> node_wf(#[trigger] es[i].1),
            forall|i: int| 0 <= i < es.len() ==> decreases_to!(parent => #[trigger] es[i].1),
            entries_of(out@) == es.take(j as int),
        decreases pairs.len() - j,
    {
        assert(item_tree(pairs[j as int].1) == es[j as int].1);
        let it = from_item(&pairs[j].1);
        let e = TomlEntry { key: pairs[j].0.clone(), item: it };
        proof {
            assert(out@.push(e).drop_last() =~= out@);
            assert(es.take(j + 1) =~= es.take(j as int).push(es[j as int]));
        }
        out.push(e);
        j = j + 1;
    }
    proof {
        assert(es.take(es.len() as int) =~= es);
    }
    out
}

/// Builds a `toml_edit` item of the shape of a well-formed [`TomlItem`]; an
/// inline table gets the prefix and suffix of its decoration.
pub fn to_item(node: &TomlItem) -> (res: Item)
    requires
        node_wf(node@),
    ensures
        item_tree(res) == node@,
        node matches TomlItem::Inline(_, d) ==> {
            &&& item_prefix(res) == opt_str(d.prefix)
            &&& item_suffix(res) == opt_str(d.suffix)
        },
    decreases node,
{
    match node {
        TomlItem::Str(s) => item_new_str(s.as_str()),
        TomlItem::Bool(b) => item_new_bool(*b),
        TomlItem::Other(it) => item_clone(it),
        TomlItem::Array(v) => {
            let ghost vs = nodes_of(v@);
            proof {
                lemma_nodes_of(v@);
                lemma_values_wf(vs);
            }
            let mut out = item_new_array();
            let mut j: usize = 0;
            assert(vs.take(0) =~= Seq::<TomlNode>::empty());
            while j < v.len()
                invariant
                    j <= v.len(),
                    *node == TomlItem::Array(*v),
                    vs == nodes_of(v@),
                    vs.len() == v.len(),
                    forall|i: int| 0 <= i < v.len() ==> #[trigger] vs[i] == node_of(v@[i]),
                    forall|i: int|
                        0 <= i < vs.len() ==> is_value_node(#[trigger] vs[i]) && node_wf(vs[i]),
                    item_tree(out) == TomlNode::Array(vs.take(j as int)),
                decreases v.len() - j,
            {
                proof {
                    assert(decreases_to!(*node => (*node)->Array_0));
                    assert(decreases_to!(v => v@));
                    assert(decreases_to!(v@ => v@[j as int]));
                    assert(vs[j as int] == node_of(v@[j as int]));
                }
                let x = to_item(&v[j]);
                item_array_push(&mut out, x);
                proof {
                    assert(vs.take(j + 1) =~= vs.take(j as int).push(vs[j as int]));
                }
                j = j + 1;
            }
            proof {
                assert(vs.take(vs.len() as int) =~= vs);
            }
            out
        },
        TomlItem::Inline(es, decor) => {
            let ghost ev = entries_of(es@);
            proof {
                lemma_entries_of(es@);
                lemma_entries_wf(ev, true);
            }
            let mut out = item_new_inline();
            let mut j: usize = 0;
            assert(ev.take(0) =~= Seq::<(Seq<char>, TomlNode)>::empty());
            assert(decreases_to!(*node => es));
            while j < es.len()
                invariant
                    item_prefix(out) == None::<Seq<char>>,
                    item_suffix(out) == None::<Seq<char>>,
                    j <= es.len(),
                    ev == entries_of(es@),
                    ev.len() == es.len(),
                    forall|i: int|
                        0 <= i < es.len() ==> #[trigger] ev[i] == (
                            es@[i].key@,
                            node_of(es@[i].item),
                        ),
                    forall|i: int|
                        0 <= i < ev.len() ==> node_wf(#[trigger] ev[i].1) && is_value_node(
                            ev[i].1,
                        ),
                    forall|i: int|
                        0 <= i < ev.len() ==> key_index(ev.take(i), #[trigger] ev[i].0) == -1,
                    item_tree(out) == TomlNode::Inline(ev.take(j as int)),
                    decreases_to!(node => es),
                decreases es.len() - j,
            {
                proof {
                    assert(decreases_to!(es => es@));
                    assert(decreases_to!(es@ => es@[j as int]));
                    assert(decreases_to!(es@[j as int] => es@[j as int].item));
                    assert(ev[j as int] == (es@[j as int].key@, node_of(es@[j as int].item)));
                    assert(node_wf(ev[j as int].1) && is_value_node(ev[j as int].1));
                }
                let x = to_item(&es[j].item);
                proof {
                    assert(key_index(ev.take(j as int), ev[j as int].0) == -1);
                }
                item_inline_insert(&mut out, es[j].key.as_str(), x);
                proof {
                    assert(ev.take(j + 1) =~= ev.take(j as int).push(ev[j as int]));
                }
                j = j + 1;
            }
            proof {
                assert(ev.take(ev.len() as int) =~= ev);
            }
            match &decor.prefix {
                Some(p) => item_set_prefix(&mut out, p.as_str()),
                None => {},
            }
            match &decor.suffix {
                Some(p) => item_set_suffix(&mut out, p.as_str()),
                None => {},
            }
            out
        },
        TomlItem::Table(es) => table_item(es, false),
        TomlItem::TableArray(ts) => {
            let ghost tv = tables_of(ts@);
            proof {
                lemma_tables_of(ts@);
                lemma_tables_wf(tv);
            }
            let mut out = item_new_table_array();
            let mut j: usize = 0;
            assert(tv.take(0) =~= Seq::<Seq<(Seq<char>, TomlNode)>>::empty());
            assert(decreases_to!(*node => ts));
            while j < ts.len()
                invariant
                    j <= ts.len(),
                    tv == tables_of(ts@),
                    tv.len() == ts.len(),
                    forall|i: int| 0 <= i < ts.len() ==> #[trigger] tv[i] == entries_of(ts@[i]@),
                    forall|i: int| 0 <= i < tv.len() ==> entries_wf(#[trigger] tv[i], false),
                    item_tree(out) == TomlNode::TableArray(tv.take(j as int)),
                    decreases_to!(node => ts),
                decreases ts.len() - j,
            {
                proof {
                    assert(decreases_to!(ts => ts@));
                    assert(decreases_to!(ts@ => ts@[j as int]));
                    assert(tv[j as int] == entries_of(ts@[j as int]@));
                }
                let t = table_item(&ts[j], false);
                item_table_array_push(&mut out, t);
                proof {
                    assert(tv.take(j + 1) =~= tv.take(j as int).push(tv[j as int]));
                }
                j = j + 1;
            }
            proof {
                assert(tv.take(tv.len() as int) =~= tv);
            }
            out
        },
    }
}

/// Builds a `toml_edit` table holding well-formed entries, in order.
/// `implicit` tables print no header of their own while they hold only
/// tables.
pub fn table_item(es: &Vec<TomlEntry>, implicit: bool) -> (res: Item)
    requires
        entries_wf(entries_of(es@), false),
    ensures
        item_tree(res) == TomlNode::Table(entries_of(es@)),
    decreases es,
{
    let ghost ev = entries_of(es@);
    proof {
        lemma_entries_of(es@);
        lemma_entries_wf(ev, false);
    }
    let mut out = item_new_table(implicit);
    let mut j: usize = 0;
    assert(ev.take(0) =~= Seq::<(Seq<char>, TomlNode)>::empty());
    while j < es.len()
        invariant
            j <= es.len(),
            ev == entries_of(es@),
            ev.len() == es.len(),
            forall|i: int|
                0 <= i < es.len() ==> #[trigger] ev[i] == (es@[i].key@, node_of(es@[i].item)),
            forall|i: int| 0 <= i < ev.len() ==> node_wf(#[trigger] ev[i].1),
            forall|i: int| 0 <= i < ev.len() ==> key_index(ev.take(i), #[trigger] ev[i].0) == -1,
            item_tree(out) == TomlNode::Table(ev.take(j as int)),
        decreases es.len() - j,
    {
        proof {
            assert(decreases_to!(es => es@));
            assert(decreases_to!(es@ => es@[j as int]));
            assert(decreases_to!(es@[j as int] => es@[j as int].item));
            assert(ev[j as int] == (es@[j as int].key@, node_of(es@[j as int].item)));
            assert(node_wf(ev[j as int].1));
            assert(key_index(ev.take(j as int), ev[j as int].0) == -1);
        }
        let x = to_item(&es[j].item);
        let _ = item_table_insert(&mut out, es[j].key.as_str(), x);
        proof {
            assert(ev.take(j + 1) =~= ev.take(j as int).push(ev[j as int]));
        }
        j = j + 1;
    }
    proof {
        assert(ev.take(ev.len() as int) =~= ev);
    }
    out
}

} // verus!
