//! Command hook entries of the `hooks` section.
//!
//! A command hook entry lists, for one command, hook definitions as inline
//! tables with `pre` and `post` scripts and the repository they apply to.

use vstd::prelude::*;

use crate::config::settings::opt_str;
use crate::text::str_eq;
use crate::tree::{
    entries_of, entry_lookup, key_index, lemma_entries_of, lemma_key_index, lemma_nodes_of,
    lemma_tables_of, node_of, nodes_of, tables_of, TomlEntry, TomlItem, TomlNode,
};

verus! {

/// Model of a [`HookEntry`].
pub struct HookEntryView {
    pub pre: Option<Seq<char>>,
    pub post: Option<Seq<char>>,
    pub repo: Option<Seq<char>>,
}

/// Model of a [`CommandHookEntry`].
pub struct CommandHookEntryView {
    pub cmd: Seq<char>,
    pub hooks: Seq<HookEntryView>,
}

/// Command hook entry: the hook definitions of one command.
#[derive(Debug, Clone, PartialEq, Eq)]
pub struct CommandHookEntry {
    pub cmd: String,
    pub hooks: Vec<HookEntry>,
}

/// Hook definition: scripts run before and after the command, and the
/// repository the hook applies to.
#[derive(Debug, Clone, PartialEq, Eq)]
pub struct HookEntry {
    pub pre: Option<String>,
    pub post: Option<String>,
    pub repo: Option<String>,
}

/// Builder of a [`HookEntry`].
#[derive(Debug)]
pub struct HookEntryBuilder {
    pre: Option<String>,
    post: Option<String>,
    repo: Option<String>,
}

impl View for HookEntry {
    type V = HookEntryView;

    open spec fn view(&self) -> HookEntryView {
        HookEntryView { pre: opt_str(self.pre), post: opt_str(self.post), repo: opt_str(self.repo) }
    }
}

impl View for HookEntryBuilder {
    type V = HookEntryView;

    closed spec fn view(&self) -> HookEntryView {
        HookEntryView { pre: opt_str(self.pre), post: opt_str(self.post), repo: opt_str(self.repo) }
    }
}

pub open spec fn hook_entry_views(v: Seq<HookEntry>) -> Seq<HookEntryView> {
    v.map_values(|h: HookEntry| h@)
}

impl View for CommandHookEntry {
    type V = CommandHookEntryView;

    open spec fn view(&self) -> CommandHookEntryView {
        CommandHookEntryView { cmd: self.cmd@, hooks: hook_entry_views(self.hooks@) }
    }
}

impl CommandHookEntry {
    /// Entry of command `cmd_name` with no hooks.
    pub fn new(cmd_name: &str) -> (res: Self)
        ensures
            res@ == (CommandHookEntryView { cmd: cmd_name@, hooks: Seq::empty() }),
    {
        let hooks: Vec<HookEntry> = Vec::new();
        assert(hook_entry_views(hooks@) =~= Seq::empty());
        CommandHookEntry { cmd: cmd_name.to_owned(), hooks }
    }

    /// Append a hook definition.
    pub fn add_hook(&mut self, hook: HookEntry)
        ensures
            final(self)@ == (CommandHookEntryView {
                hooks: old(self)@.hooks.push(hook@),
                ..old(self)@
            }),
    {
        let ghost hs0 = self@.hooks;
        self.hooks.push(hook);
        assert(hook_entry_views(self.hooks@) =~= hs0.push(hook@));
    }
}

impl HookEntry {
    pub fn builder() -> (res: HookEntryBuilder)
        ensures
            res@ == (HookEntryView { pre: None, post: None, repo: None }),
    {
        HookEntryBuilder::new()
    }
}

impl HookEntryBuilder {
    pub fn new() -> (res: Self)
        ensures
            res@ == (HookEntryView { pre: None, post: None, repo: None }),
    {
        HookEntryBuilder { pre: None, post: None, repo: None }
    }

    pub fn pre(self, script_name: &str) -> (res: Self)
        ensures
            res@ == (HookEntryView { pre: Some(script_name@), ..self@ }),
    {
        HookEntryBuilder { pre: Some(script_name.to_owned()), ..self }
    }

    pub fn post(self, script_name: &str) -> (res: Self)
        ensures
            res@ == (HookEntryView { post: Some(script_name@), ..self@ }),
    {
        HookEntryBuilder { post: Some(script_name.to_owned()), ..self }
    }

    pub fn repo(self, repo_name: &str) -> (res: Self)
        ensures
            res@ == (HookEntryView { repo: Some(repo_name@), ..self@ }),
    {
        HookEntryBuilder { repo: Some(repo_name.to_owned()), ..self }
    }

    pub fn build(self) -> (res: HookEntry)
        ensures
            res@ == self@,
    {
        HookEntry { pre: self.pre, post: self.post, repo: self.repo }
    }
}

/// Text stored as a string under key `k` of an inline table, if any.
pub open spec fn text_at(es: Seq<(Seq<char>, TomlNode)>, k: Seq<char>) -> Option<Seq<char>> {
    match entry_lookup(es, k) {
        Some(TomlNode::Str(s)) => Some(s),
        _ => None,
    }
}

/// Hook definition read from an inline table.
pub open spec fn hook_entry_of(es: Seq<(Seq<char>, TomlNode)>) -> HookEntryView {
    HookEntryView { pre: text_at(es, "pre"@), post: text_at(es, "post"@), repo: text_at(es, "repo"@) }
}

/// Hook definitions read from an item: every inline table reachable in it,
/// in document order, gives one hook definition.
pub open spec fn entry_hooks(hs: Seq<HookEntryView>, n: TomlNode) -> Seq<HookEntryView>
    decreases n, 1int,
{
    match n {
        TomlNode::Array(vs) => entry_hooks_values(hs, vs),
        TomlNode::Inline(es) => entry_hooks_kvs(hs.push(hook_entry_of(es)), es),
        TomlNode::Table(es) => entry_hooks_kvs(hs, es),
        TomlNode::TableArray(ts) => entry_hooks_tables(hs, ts),
        _ => hs,
    }
}

pub open spec fn entry_hooks_values(hs: Seq<HookEntryView>, vs: Seq<TomlNode>) -> Seq<
    HookEntryView,
>
    decreases vs, 2int,
{
    if vs.len() == 0 {
        hs
    } else {
        entry_hooks(entry_hooks_values(hs, vs.drop_last()), vs.last())
    }
}

pub open spec fn entry_hooks_kvs(hs: Seq<HookEntryView>, es: Seq<(Seq<char>, TomlNode)>) -> Seq<
    HookEntryView,
>
    decreases es, 2int,
{
    if es.len() == 0 {
        hs
    } else {
        entry_hooks_kv(entry_hooks_kvs(hs, es.drop_last()), es.last())
    }
}

pub open spec fn entry_hooks_kv(hs: Seq<HookEntryView>, e: (Seq<char>, TomlNode)) -> Seq<
    HookEntryView,
>
    decreases e, 3int,
{
    entry_hooks(hs, e.1)
}

pub open spec fn entry_hooks_tables(
    hs: Seq<HookEntryView>,
    ts: Seq<Seq<(Seq<char>, TomlNode)>>,
) -> Seq<HookEntryView>
    decreases ts, 2int,
{
    if ts.len() == 0 {
        hs
    } else {
        entry_hooks_kvs(entry_hooks_tables(hs, ts.drop_last()), ts.last())
    }
}

/// Text stored as a string under key `k` of a table, if any.
fn find_text(es: &Vec<TomlEntry>, k: &str) -> (res: Option<String>)
    ensures
        opt_str(res) == text_at(entries_of(es@), k@),
{
    let ghost ev = entries_of(es@);
    proof {
        lemma_entries_of(es@);
        lemma_key_index(ev, k@);
    }
    let mut i: usize = 0;
    while i < es.len()
        invariant
            i <= es.len(),
            ev == entries_of(es@),
            ev.len() == es.len(),
            forall|j: int|
                0 <= j < es.len() ==> #[trigger] ev[j] == (es@[j].key@, node_of(es@[j].item)),
            forall|j: int| 0 <= j < i ==> ev[j].0 != k@,
        decreases es.len() - i,
    {
        if str_eq(es[i].key.as_str(), k) {
            assert(ev[i as int].0 == k@);
            proof {
                lemma_key_index(ev, k@);
                let ki = key_index(ev, k@);
                if 0 <= ki < i {
                    assert(ev[ki].0 != k@);
                }
                if ki > i {
                    assert(ev[i as int].0 != k@);
                }
            }
            assert(key_index(ev, k@) == i);
            return match &es[i].item {
                TomlItem::Str(s) => Some(s.clone()),
                _ => None,
            };
        }
        i = i + 1;
    }
    None
}

impl CommandHookEntry {
    /// Reads hook definitions from an item (see [`entry_hooks`]).
    fn walk_item(&mut self, item: &TomlItem)
        ensures
            final(self)@ == (CommandHookEntryView {
                hooks: entry_hooks(old(self)@.hooks, item@),
                ..old(self)@
            }),
        decreases item, 1int,
    {
        match item {
            TomlItem::Array(v) => {
                let ghost vs = nodes_of(v@);
                let ghost st0 = self@;
                proof {
                    lemma_nodes_of(v@);
                    assert(vs.take(0) =~= Seq::<TomlNode>::empty());
                }
                let mut i: usize = 0;
                while i < v.len()
                    invariant
                        i <= v.len(),
                        *item == TomlItem::Array(*v),
                        vs == nodes_of(v@),
                        vs.len() == v.len(),
                        forall|j: int| 0 <= j < v.len() ==> #[trigger] vs[j] == node_of(v@[j]),
                        self@ == (CommandHookEntryView {
                            hooks: entry_hooks_values(st0.hooks, vs.take(i as int)),
                            ..st0
                        }),
                    decreases v.len() - i,
                {
                    proof {
                        assert(decreases_to!(*item => (*item)->Array_0));
                        assert(decreases_to!(v => v@));
                        assert(decreases_to!(v@ => v@[i as int]));
                        assert(vs[i as int] == node_of(v@[i as int]));
                        assert(vs.take(i + 1).drop_last() =~= vs.take(i as int));
                    }
                    self.walk_item(&v[i]);
                    i = i + 1;
                }
                assert(vs.take(v.len() as int) =~= vs);
            },
            TomlItem::Inline(es, _) => {
                let pre = find_text(es, "pre");
                let post = find_text(es, "post");
                let repo = find_text(es, "repo");
                let hook = HookEntry { pre, post, repo };
                self.add_hook(hook);
                self.walk_entries(es);
            },
            TomlItem::Table(es) => {
                self.walk_entries(es);
            },
            TomlItem::TableArray(ts) => {
                let ghost tv = tables_of(ts@);
                let ghost st0 = self@;
                proof {
                    lemma_tables_of(ts@);
                    assert(tv.take(0) =~= Seq::<Seq<(Seq<char>, TomlNode)>>::empty());
                }
                let mut i: usize = 0;
                while i < ts.len()
                    invariant
                        i <= ts.len(),
                        *item == TomlItem::TableArray(*ts),
                        tv == tables_of(ts@),
                        tv.len() == ts.len(),
                        forall|j: int|
                            0 <= j < ts.len() ==> #[trigger] tv[j] == entries_of(ts@[j]@),
                        self@ == (CommandHookEntryView {
                            hooks: entry_hooks_tables(st0.hooks, tv.take(i as int)),
                            ..st0
                        }),
                    decreases ts.len() - i,
                {
                    proof {
                        assert(decreases_to!(*item => (*item)->TableArray_0));
                        assert(decreases_to!(ts => ts@));
                        assert(decreases_to!(ts@ => ts@[i as int]));
                        assert(tv[i as int] == entries_of(ts@[i as int]@));
                        assert(tv.take(i + 1).drop_last() =~= tv.take(i as int));
                    }
                    self.walk_entries(&ts[i]);
                    i = i + 1;
                }
                assert(tv.take(ts.len() as int) =~= tv);
            },
            _ => {},
        }
    }

    /// Reads hook definitions from the pairs of a table.
    fn walk_entries(&mut self, es: &Vec<TomlEntry>)
        ensures
            final(self)@ == (CommandHookEntryView {
                hooks: entry_hooks_kvs(old(self)@.hooks, entries_of(es@)),
                ..old(self)@
            }),
        decreases es, 2int,
    {
        let ghost ev = entries_of(es@);
        let ghost st0 = self@;
        proof {
            lemma_entries_of(es@);
            assert(ev.take(0) =~= Seq::<(Seq<char>, TomlNode)>::empty());
        }
        let mut i: usize = 0;
        while i < es.len()
            invariant
                i <= es.len(),
                ev == entries_of(es@),
                ev.len() == es.len(),
                forall|j: int|
                    0 <= j < es.len() ==> #[trigger] ev[j] == (es@[j].key@, node_of(es@[j].item)),
                self@ == (CommandHookEntryView {
                    hooks: entry_hooks_kvs(st0.hooks, ev.take(i as int)),
                    ..st0
                }),
            decreases es.len() - i,
        {
            proof {
                assert(decreases_to!(es => es@));
                assert(decreases_to!(es@ => es@[i as int]));
                assert(decreases_to!(es@[i as int] => es@[i as int].item));
                assert(ev[i as int] == (es@[i as int].key@, node_of(es@[i as int].item)));
                assert(ev.take(i + 1).drop_last() =~= ev.take(i as int));
            }
            self.walk_item(&es[i].item);
            proof {
                assert(entry_hooks_kvs(st0.hooks, ev.take(i + 1)) == entry_hooks_kv(
                    entry_hooks_kvs(st0.hooks, ev.take(i as int)),
                    ev[i as int],
                ));
            }
            i = i + 1;
        }
        assert(ev.take(es.len() as int) =~= ev);
    }

    /// Deserialize a command hook entry from a TOML entry: the entry's key
    /// names the command, and every inline table reachable in its item, in
    /// document order, gives one hook definition.
    pub fn from_toml(entry: &TomlEntry) -> (res: Self)
        ensures
            res@ == (CommandHookEntryView {
                cmd: entry.key@,
                hooks: entry_hooks(Seq::empty(), entry.item@),
            }),
    {
        let mut hooks = CommandHookEntry::new(entry.key.as_str());
        hooks.walk_item(&entry.item);
        hooks
    }
}

/// Inline table that writes a hook definition: `pre`, `post` and `repo`,
/// each where it is set, as strings.
pub open spec fn hook_entry_table(h: HookEntryView) -> Seq<(Seq<char>, TomlNode)> {
    let e0 = Seq::<(Seq<char>, TomlNode)>::empty();
    let e1 = match h.pre {
        Some(p) => e0.push(("pre"@, TomlNode::Str(p))),
        None => e0,
    };
    let e2 = match h.post {
        Some(p) => e1.push(("post"@, TomlNode::Str(p))),
        None => e1,
    };
    match h.repo {
        Some(r) => e2.push(("repo"@, TomlNode::Str(r))),
        None => e2,
    }
}

/// Array of the inline tables that write hook definitions.
pub open spec fn hook_entry_nodes(hs: Seq<HookEntryView>) -> Seq<TomlNode> {
    hs.map_values(|h: HookEntryView| TomlNode::Inline(hook_entry_table(h)))
}

proof fn lemma_hook_keys_distinct()
    ensures
        "pre"@ != "post"@,
        "pre"@ != "repo"@,
        "post"@ != "repo"@,
{
    reveal_strlit("pre");
    reveal_strlit("post");
    reveal_strlit("repo");
    assert("pre"@.len() != "post"@.len());
    assert("pre"@[0] != "repo"@[0]);
    assert("post"@[0] != "repo"@[0]);
}

/// Reading the inline table of a hook definition gives the definition.
proof fn lemma_hook_entry_read(prev: Seq<HookEntryView>, h: HookEntryView)
    ensures
        entry_hooks(prev, TomlNode::Inline(hook_entry_table(h))) == prev.push(h),
{
    lemma_hook_keys_distinct();
    let es = hook_entry_table(h);
    let e0 = Seq::<(Seq<char>, TomlNode)>::empty();
    let e1 = match h.pre {
        Some(p) => e0.push(("pre"@, TomlNode::Str(p))),
        None => e0,
    };
    let e2 = match h.post {
        Some(p) => e1.push(("post"@, TomlNode::Str(p))),
        None => e1,
    };
    reveal_with_fuel(key_index, 4);
    assert(hook_entry_of(es) == h);
    let hs = prev.push(h);
    if let Some(p) = h.pre {
        assert(e1.drop_last() =~= e0);
        assert(entry_hooks_kvs(hs, e0) == hs);
        assert(entry_hooks(hs, TomlNode::Str(p)) == hs);
        assert(entry_hooks_kv(hs, ("pre"@, TomlNode::Str(p))) == hs);
    }
    assert(entry_hooks_kvs(hs, e1) == hs);
    if let Some(p) = h.post {
        assert(e2.drop_last() =~= e1);
        assert(entry_hooks(hs, TomlNode::Str(p)) == hs);
        assert(entry_hooks_kv(hs, ("post"@, TomlNode::Str(p))) == hs);
    }
    assert(entry_hooks_kvs(hs, e2) == hs);
    if let Some(r) = h.repo {
        assert(es.drop_last() =~= e2);
        assert(entry_hooks(hs, TomlNode::Str(r)) == hs);
        assert(entry_hooks_kv(hs, ("repo"@, TomlNode::Str(r))) == hs);
    }
    assert(entry_hooks_kvs(hs, es) == hs);
}

proof fn lemma_hook_entry_values_roundtrip(hs: Seq<HookEntryView>)
    ensures
        entry_hooks_values(Seq::empty(), hook_entry_nodes(hs)) == hs,
    decreases hs.len(),
{
    if hs.len() > 0 {
        let d = hs.drop_last();
        lemma_hook_entry_values_roundtrip(d);
        assert(hook_entry_nodes(hs).drop_last() =~= hook_entry_nodes(d));
        let h = hs.last();
        assert(hook_entry_nodes(hs).last() == TomlNode::Inline(hook_entry_table(h)));
        lemma_hook_entry_read(d, h);
        assert(d.push(h) =~= hs);
    } else {
        assert(hook_entry_nodes(hs) =~= Seq::<TomlNode>::empty());
    }
}

/// Law: a command's hook definitions written as an array of inline tables
/// (`pre`, `post` and `repo`, each where set) read back as the same
/// definitions, in the same order: each of `pre`, `post` and `repo` is read
/// whatever the others hold.
pub proof fn lemma_command_hook_entry_roundtrip(hs: Seq<HookEntryView>)
    ensures
        entry_hooks(Seq::empty(), TomlNode::Array(hook_entry_nodes(hs))) == hs,
{
    lemma_hook_entry_values_roundtrip(hs);
}

} // verus!
