//! Walks over TOML items that meet every key-value pair in document order.
//!
//! A [`KvVisitor`] says which keys it reads and what it sets on meeting one;
//! [`walk`] meets every key-value pair reachable in an item: in every table,
//! inline table, array and array of tables, in document order. A key that
//! the visitor reads is set, then its item is walked; the item of any other
//! key is walked twice.

use vstd::prelude::*;

use crate::tree::{
    entries_of, lemma_entries_of, lemma_nodes_of, lemma_tables_of, node_of, nodes_of, tables_of,
    TomlEntry, TomlItem, TomlNode,
};

verus! {

/// What a visitor reads from the key-value pairs of a walk.
pub trait KvVisitor: Sized {
    /// Model of the visitor's state.
    type St;

    spec fn st(&self) -> Self::St;

    /// Keys that the visitor reads.
    spec fn reads(k: Seq<char>) -> bool;

    /// State after reading key `k` with item `n`.
    spec fn set(st: Self::St, k: Seq<char>, n: TomlNode) -> Self::St;

    /// Items that the visitor can read under key `k`.
    spec fn set_ok(k: Seq<char>, n: TomlNode) -> bool;

    fn reads_key(k: &str) -> (res: bool)
        ensures
            res == Self::reads(k@),
    ;

    fn set_from(&mut self, k: &str, item: &TomlItem)
        requires
            Self::reads(k@),
            Self::set_ok(k@, item@),
        ensures
            final(self).st() == Self::set(old(self).st(), k@, item@),
    ;
}

/// State after a walk over an item.
pub open spec fn walk_item<T: KvVisitor>(st: T::St, n: TomlNode) -> T::St
    decreases n, 1int,
{
    match n {
        TomlNode::Array(vs) => walk_values::<T>(st, vs),
        TomlNode::Inline(es) => walk_kvs::<T>(st, es),
        TomlNode::Table(es) => walk_kvs::<T>(st, es),
        TomlNode::TableArray(ts) => walk_tables::<T>(st, ts),
        _ => st,
    }
}

pub open spec fn walk_values<T: KvVisitor>(st: T::St, vs: Seq<TomlNode>) -> T::St
    decreases vs, 2int,
{
    if vs.len() == 0 {
        st
    } else {
        walk_item::<T>(walk_values::<T>(st, vs.drop_last()), vs.last())
    }
}

pub open spec fn walk_kvs<T: KvVisitor>(st: T::St, es: Seq<(Seq<char>, TomlNode)>) -> T::St
    decreases es, 2int,
{
    if es.len() == 0 {
        st
    } else {
        walk_kv::<T>(walk_kvs::<T>(st, es.drop_last()), es.last())
    }
}

pub open spec fn walk_kv<T: KvVisitor>(st: T::St, e: (Seq<char>, TomlNode)) -> T::St
    decreases e, 3int,
{
    if T::reads(e.0) {
        walk_item::<T>(T::set(st, e.0, e.1), e.1)
    } else {
        walk_item::<T>(walk_item::<T>(st, e.1), e.1)
    }
}

pub open spec fn walk_tables<T: KvVisitor>(st: T::St, ts: Seq<Seq<(Seq<char>, TomlNode)>>) -> T::St
    decreases ts, 2int,
{
    if ts.len() == 0 {
        st
    } else {
        walk_kvs::<T>(walk_tables::<T>(st, ts.drop_last()), ts.last())
    }
}

/// Every pair that a walk over an item reads can be read.
pub open spec fn walk_ok<T: KvVisitor>(n: TomlNode) -> bool
    decreases n, 1int,
{
    match n {
        TomlNode::Array(vs) => values_ok::<T>(vs),
        TomlNode::Inline(es) => kvs_ok::<T>(es),
        TomlNode::Table(es) => kvs_ok::<T>(es),
        TomlNode::TableArray(ts) => tables_ok::<T>(ts),
        _ => true,
    }
}

pub open spec fn values_ok<T: KvVisitor>(vs: Seq<TomlNode>) -> bool
    decreases vs, 2int,
{
    if vs.len() == 0 {
        true
    } else {
        values_ok::<T>(vs.drop_last()) && walk_ok::<T>(vs.last())
    }
}

pub open spec fn kvs_ok<T: KvVisitor>(es: Seq<(Seq<char>, TomlNode)>) -> bool
    decreases es, 2int,
{
    if es.len() == 0 {
        true
    } else {
        kvs_ok::<T>(es.drop_last()) && kv_ok::<T>(es.last())
    }
}

pub open spec fn kv_ok<T: KvVisitor>(e: (Seq<char>, TomlNode)) -> bool
    decreases e, 3int,
{
    &&& (T::reads(e.0) ==> T::set_ok(e.0, e.1))
    &&& walk_ok::<T>(e.1)
}

pub open spec fn tables_ok<T: KvVisitor>(ts: Seq<Seq<(Seq<char>, TomlNode)>>) -> bool
    decreases ts, 2int,
{
    if ts.len() == 0 {
        true
    } else {
        tables_ok::<T>(ts.drop_last()) && kvs_ok::<T>(ts.last())
    }
}

proof fn lemma_values_ok<T: KvVisitor>(vs: Seq<TomlNode>)
    requires
        values_ok::<T>(vs),
    ensures
        forall|i: int| 0 <= i < vs.len() ==> walk_ok::<T>(#[trigger] vs[i]),
    decreases vs.len(),
{
    if vs.len() > 0 {
        lemma_values_ok::<T>(vs.drop_last());
        assert forall|i: int| 0 <= i < vs.len() implies walk_ok::<T>(#[trigger] vs[i]) by {
            if i < vs.len() - 1 {
                assert(vs.drop_last()[i] == vs[i]);
            }
        }
    }
}

proof fn lemma_kvs_ok<T: KvVisitor>(es: Seq<(Seq<char>, TomlNode)>)
    requires
        kvs_ok::<T>(es),
    ensures
        forall|i: int| 0 <= i < es.len() ==> kv_ok::<T>(#[trigger] es[i]),
    decreases es.len(),
{
    if es.len() > 0 {
        lemma_kvs_ok::<T>(es.drop_last());
        assert forall|i: int| 0 <= i < es.len() implies kv_ok::<T>(#[trigger] es[i]) by {
            if i < es.len() - 1 {
                assert(es.drop_last()[i] == es[i]);
            }
        }
    }
}

proof fn lemma_tables_ok<T: KvVisitor>(ts: Seq<Seq<(Seq<char>, TomlNode)>>)
    requires
        tables_ok::<T>(ts),
    ensures
        forall|i: int| 0 <= i < ts.len() ==> kvs_ok::<T>(#[trigger] ts[i]),
    decreases ts.len(),
{
    if ts.len() > 0 {
        lemma_tables_ok::<T>(ts.drop_last());
        assert forall|i: int| 0 <= i < ts.len() implies kvs_ok::<T>(#[trigger] ts[i]) by {
            if i < ts.len() - 1 {
                assert(ts.drop_last()[i] == ts[i]);
            }
        }
    }
}

/// Walks an item with a visitor (see [`walk_item`]).
pub fn walk<T: KvVisitor>(v: &mut T, item: &TomlItem)
    requires
        walk_ok::<T>(item@),
    ensures
        final(v).st() == walk_item::<T>(old(v).st(), item@),
    decreases item, 1int,
{
    match item {
        TomlItem::Array(vals) => {
            let ghost vs = nodes_of(vals@);
            let ghost st0 = v.st();
            proof {
                lemma_nodes_of(vals@);
                lemma_values_ok::<T>(vs);
                assert(vs.take(0) =~= Seq::<TomlNode>::empty());
            }
            let mut i: usize = 0;
            while i < vals.len()
                invariant
                    i <= vals.len(),
                    *item == TomlItem::Array(*vals),
                    vs == nodes_of(vals@),
                    vs.len() == vals.len(),
                    forall|j: int| 0 <= j < vals.len() ==> #[trigger] vs[j] == node_of(vals@[j]),
                    forall|j: int| 0 <= j < vs.len() ==> walk_ok::<T>(#[trigger] vs[j]),
                    v.st() == walk_values::<T>(st0, vs.take(i as int)),
                decreases vals.len() - i,
            {
                proof {
                    assert(decreases_to!(*item => (*item)->Array_0));
                    assert(decreases_to!(vals => vals@));
                    assert(decreases_to!(vals@ => vals@[i as int]));
                    assert(vs[i as int] == node_of(vals@[i as int]));
                    assert(vs.take(i + 1).drop_last() =~= vs.take(i as int));
                }
                walk(v, &vals[i]);
                i = i + 1;
            }
            assert(vs.take(vals.len() as int) =~= vs);
        },
        TomlItem::Inline(es, _) => {
            walk_entries(v, es);
        },
        TomlItem::Table(es) => {
            walk_entries(v, es);
        },
        TomlItem::TableArray(ts) => {
            let ghost tv = tables_of(ts@);
            let ghost st0 = v.st();
            proof {
                lemma_tables_of(ts@);
                lemma_tables_ok::<T>(tv);
                assert(tv.take(0) =~= Seq::<Seq<(Seq<char>, TomlNode)>>::empty());
            }
            let mut i: usize = 0;
            while i < ts.len()
                invariant
                    i <= ts.len(),
                    *item == TomlItem::TableArray(*ts),
                    tv == tables_of(ts@),
                    tv.len() == ts.len(),
                    forall|j: int| 0 <= j < ts.len() ==> #[trigger] tv[j] == entries_of(ts@[j]@),
                    forall|j: int| 0 <= j < tv.len() ==> kvs_ok::<T>(#[trigger] tv[j]),
                    v.st() == walk_tables::<T>(st0, tv.take(i as int)),
                decreases ts.len() - i,
            {
                proof {
                    assert(decreases_to!(*item => (*item)->TableArray_0));
                    assert(decreases_to!(ts => ts@));
                    assert(decreases_to!(ts@ => ts@[i as int]));
                    assert(tv[i as int] == entries_of(ts@[i as int]@));
                    assert(tv.take(i + 1).drop_last() =~= tv.take(i as int));
                }
                walk_entries(v, &ts[i]);
                i = i + 1;
            }
            assert(tv.take(ts.len() as int) =~= tv);
        },
        _ => {},
    }
}

/// Walks the pairs of a table (see [`walk_kvs`]).
fn walk_entries<T: KvVisitor>(v: &mut T, es: &Vec<TomlEntry>)
    requires
        kvs_ok::<T>(entries_of(es@)),
    ensures
        final(v).st() == walk_kvs::<T>(old(v).st(), entries_of(es@)),
    decreases es, 2int,
{
    let ghost ev = entries_of(es@);
    let ghost st0 = v.st();
    proof {
        lemma_entries_of(es@);
        lemma_kvs_ok::<T>(ev);
        assert(ev.take(0) =~= Seq::<(Seq<char>, TomlNode)>::empty());
    }
    let mut i: usize = 0;
    while i < es.len()
        invariant
            i <= es.len(),
            ev == entries_of(es@),
            ev.len() == es.len(),
            forall|j: int|
                0 <= j < es.len() ==> #[trigger] ev[j] == (es@[j].key@, node_of(es@[j].item)),
            forall|j: int| 0 <= j < ev.len() ==> kv_ok::<T>(#[trigger] ev[j]),
            v.st() == walk_kvs::<T>(st0, ev.take(i as int)),
        decreases es.len() - i,
    {
        proof {
            assert(decreases_to!(es => es@));
            assert(decreases_to!(es@ => es@[i as int]));
            assert(decreases_to!(es@[i as int] => es@[i as int].item));
            assert(ev[i as int] == (es@[i as int].key@, node_of(es@[i as int].item)));
            assert(ev.take(i + 1).drop_last() =~= ev.take(i as int));
        }
        walk_pair(v, &es[i].key, &es[i].item);
        i = i + 1;
    }
    assert(ev.take(es.len() as int) =~= ev);
}

/// Walks a key-value pair (see [`walk_kv`]).
fn walk_pair<T: KvVisitor>(v: &mut T, key: &String, item: &TomlItem)
    requires
        kv_ok::<T>((key@, item@)),
    ensures
        final(v).st() == walk_kv::<T>(old(v).st(), (key@, item@)),
    decreases item, 3int,
{
    let k = key.as_str();
    if T::reads_key(k) {
        v.set_from(k, item);
        walk(v, item);
    } else {
        walk(v, item);
        walk(v, item);
    }
}

/// A walk over pairs with one more pair at the end is the walk over that
/// pair after the walk over the others.
pub proof fn lemma_walk_kvs_push<T: KvVisitor>(
    st: T::St,
    es: Seq<(Seq<char>, TomlNode)>,
    e: (Seq<char>, TomlNode),
)
    ensures
        walk_kvs::<T>(st, es.push(e)) == walk_kv::<T>(walk_kvs::<T>(st, es), e),
        kvs_ok::<T>(es.push(e)) == (kvs_ok::<T>(es) && kv_ok::<T>(e)),
{
    assert(es.push(e).drop_last() =~= es);
}

} // verus!

verus! {

/// Every item can be walked by a visitor that can read every item.
pub proof fn lemma_walk_ok_all<T: KvVisitor>(n: TomlNode)
    requires
        forall|k: Seq<char>, m: TomlNode| #[trigger] T::set_ok(k, m),
    ensures
        walk_ok::<T>(n),
    decreases n, 1int,
{
    match n {
        TomlNode::Array(vs) => lemma_values_ok_all::<T>(vs),
        TomlNode::Inline(es) => lemma_kvs_ok_all::<T>(es),
        TomlNode::Table(es) => lemma_kvs_ok_all::<T>(es),
        TomlNode::TableArray(ts) => lemma_tables_ok_all::<T>(ts),
        _ => {},
    }
}

proof fn lemma_values_ok_all<T: KvVisitor>(vs: Seq<TomlNode>)
    requires
        forall|k: Seq<char>, m: TomlNode| #[trigger] T::set_ok(k, m),
    ensures
        values_ok::<T>(vs),
    decreases vs, 2int,
{
    if vs.len() > 0 {
        lemma_values_ok_all::<T>(vs.drop_last());
        lemma_walk_ok_all::<T>(vs.last());
    }
}

proof fn lemma_kvs_ok_all<T: KvVisitor>(es: Seq<(Seq<char>, TomlNode)>)
    requires
        forall|k: Seq<char>, m: TomlNode| #[trigger] T::set_ok(k, m),
    ensures
        kvs_ok::<T>(es),
    decreases es, 2int,
{
    if es.len() > 0 {
        lemma_kvs_ok_all::<T>(es.drop_last());
        let e = es.last();
        assert(decreases_to!(es => e));
        assert(decreases_to!(e => e.1));
        lemma_walk_ok_all::<T>(e.1);
        assert(T::set_ok(e.0, e.1));
        assert(kv_ok::<T>(e));
        assert(es.drop_last().push(e) =~= es);
    }
}

proof fn lemma_tables_ok_all<T: KvVisitor>(ts: Seq<Seq<(Seq<char>, TomlNode)>>)
    requires
        forall|k: Seq<char>, m: TomlNode| #[trigger] T::set_ok(k, m),
    ensures
        tables_ok::<T>(ts),
    decreases ts, 2int,
{
    if ts.len() > 0 {
        lemma_tables_ok_all::<T>(ts.drop_last());
        lemma_kvs_ok_all::<T>(ts.last());
    }
}

} // verus!
