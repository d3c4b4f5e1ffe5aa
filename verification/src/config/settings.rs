//! Repository and command hook settings.
//!
//! Intermediary structures that make it easier to serialize and deserialize
//! the entries of Ricer's configuration files. Each settings type converts to
//! a TOML entry ([`TomlEntry`]) and back. The encoders state exactly what
//! they build; the decoders state exactly what they read, as a walk over the
//! whole item that visits every key-value pair of every table, inline table,
//! array and array of tables in document order.

use vstd::prelude::*;
use vstd::string::StrSliceExecFns;

use crate::text::str_eq;
use crate::walk::{
    kv_ok, kvs_ok, lemma_walk_kvs_push, lemma_walk_ok_all, tables_ok, values_ok, walk, walk_item, walk_kv, walk_kvs,
    walk_ok, walk_tables, walk_values, KvVisitor,
};
use crate::tree::{
    entries_of, entry_lookup, lemma_entries_of, lemma_entries_wf_intro, lemma_key_index,
    lemma_nodes_of, lemma_tables_of, key_index, keys_distinct, nodes_of, tables_of, node_of,
    node_wf, is_value_node, values_wf, Decor, TomlEntry, TomlItem, TomlNode,
};

verus! {

/// Operating System settings.
///
/// Simple enum used to determine the target OS user wants to bootstrap with.
#[derive(Debug, Clone, Copy, PartialEq, Eq, Structural)]
pub enum OsType {
    /// Bootstrap to any operating system.
    Any,
    /// Bootstrap to Unix-like systems only.
    Unix,
    /// Bootstrap to MacOS systems only.
    MacOs,
    /// Bootstrap to Windows system only.
    Windows,
}

/// Name of an operating system setting as written in a configuration file.
pub open spec fn os_name(os: OsType) -> Seq<char> {
    match os {
        OsType::Any => "any"@,
        OsType::Unix => "unix"@,
        OsType::MacOs => "macos"@,
        OsType::Windows => "windows"@,
    }
}

/// Operating system setting named by a text; any unknown name means any
/// operating system.
pub open spec fn os_from_name(name: Seq<char>) -> OsType {
    if name == "unix"@ {
        OsType::Unix
    } else if name == "macos"@ {
        OsType::MacOs
    } else if name == "windows"@ {
        OsType::Windows
    } else {
        OsType::Any
    }
}

impl Default for OsType {
    fn default() -> (res: Self)
        ensures
            res == OsType::Any,
    {
        OsType::Any
    }
}

impl OsType {
    /// Operating system setting named by `data`; an unknown name gives
    /// [`OsType::Any`].
    pub fn from(data: &str) -> (res: OsType)
        ensures
            res == os_from_name(data@),
    {
        if str_eq(data, "unix") {
            OsType::Unix
        } else if str_eq(data, "macos") {
            OsType::MacOs
        } else if str_eq(data, "windows") {
            OsType::Windows
        } else {
            OsType::Any
        }
    }

    /// Name of the setting as written in a configuration file.
    pub fn to_string(&self) -> (res: String)
        ensures
            res@ == os_name(*self),
    {
        match self {
            OsType::Any => "any".to_owned(),
            OsType::Unix => "unix".to_owned(),
            OsType::MacOs => "macos".to_owned(),
            OsType::Windows => "windows".to_owned(),
        }
    }
}

/// Law: reading back the name of an operating system setting gives the
/// setting.
pub proof fn lemma_os_name_roundtrip(os: OsType)
    ensures
        os_from_name(os_name(os)) == os,
{
    reveal_strlit("any");
    reveal_strlit("unix");
    reveal_strlit("macos");
    reveal_strlit("windows");
    assert("any"@.len() == 3 && "unix"@.len() == 4 && "macos"@.len() == 5 && "windows"@.len()
        == 7);
}

/// Views of strings.
pub open spec fn strs(v: Seq<String>) -> Seq<Seq<char>> {
    v.map_values(|s: String| s@)
}

pub open spec fn opt_str(o: Option<String>) -> Option<Seq<char>> {
    match o {
        Some(s) => Some(s@),
        None => None,
    }
}

pub open spec fn opt_strs(o: Option<Vec<String>>) -> Option<Seq<Seq<char>>> {
    match o {
        Some(v) => Some(strs(v@)),
        None => None,
    }
}

/// Model of [`BootstrapSettings`].
pub struct BootstrapView {
    pub clone: Option<Seq<char>>,
    pub os: Option<OsType>,
    pub users: Option<Seq<Seq<char>>>,
    pub hosts: Option<Seq<Seq<char>>>,
}

/// Model of [`RepoSettings`].
pub struct RepoView {
    pub name: Seq<char>,
    pub branch: Seq<char>,
    pub remote: Seq<char>,
    pub workdir_home: bool,
    pub bootstrap: Option<BootstrapView>,
}

/// Model of [`HookSettings`].
pub struct HookView {
    pub pre: Option<Seq<char>>,
    pub post: Option<Seq<char>>,
    pub workdir: Option<Seq<char>>,
}

/// Model of [`CmdHookSettings`].
pub struct CmdHookView {
    pub cmd: Seq<char>,
    pub hooks: Seq<HookView>,
}

/// Repository configuration settings.
///
/// Intermediary structure meant to help make it easier to deserialize and
/// serialize repository configuration file data.
#[derive(Debug, Clone, PartialEq, Eq)]
pub struct RepoSettings {
    /// Name of repository.
    pub name: String,
    /// Default branch.
    pub branch: String,
    /// Default remote.
    pub remote: String,
    /// Flag to determine if repository's working directory is the user's home
    /// directory through _bare_ technique.
    pub workdir_home: bool,
    /// Bootstrap configuration for repository.
    pub bootstrap: Option<BootstrapSettings>,
}

/// Repository bootstrap configuration settings.
#[derive(Debug, Clone, PartialEq, Eq)]
pub struct BootstrapSettings {
    /// URL to clone repository from.
    pub clone: Option<String>,
    /// Bootstrap repository if and only if user is using a specific OS.
    pub os: Option<OsType>,
    /// Bootstrap repository if and only if user is logged on to a specific
    /// set of user accounts.
    pub users: Option<Vec<String>>,
    /// Bootstrap repository if and only if user is logged on to a specific
    /// set of hosts.
    pub hosts: Option<Vec<String>>,
}

/// Command hook settings.
///
/// An intermediary structure to help deserialize and serialize command hook
/// from Ricer's command hook configuration file.
#[derive(Debug, Clone, PartialEq, Eq)]
pub struct CmdHookSettings {
    /// Name of command to bind hook definitions too.
    pub cmd: String,
    /// Array of hook definitions to execute.
    pub hooks: Vec<HookSettings>,
}

/// Hook definition settings.
///
/// An intermediary structure to help deserialize and serialize hook entries
/// for command hook settings in command hook configuration file.
#[derive(Debug, Clone, PartialEq, Eq)]
pub struct HookSettings {
    /// Execute hook script _before_ command itself.
    pub pre: Option<String>,
    /// Execute hook script _after_ command itself.
    pub post: Option<String>,
    /// Set working directory of hook script.
    pub workdir: Option<String>,
}

impl View for BootstrapSettings {
    type V = BootstrapView;

    open spec fn view(&self) -> BootstrapView {
        BootstrapView {
            clone: opt_str(self.clone),
            os: self.os,
            users: opt_strs(self.users),
            hosts: opt_strs(self.hosts),
        }
    }
}

pub open spec fn opt_boot(o: Option<BootstrapSettings>) -> Option<BootstrapView> {
    match o {
        Some(b) => Some(b@),
        None => None,
    }
}

impl View for RepoSettings {
    type V = RepoView;

    open spec fn view(&self) -> RepoView {
        RepoView {
            name: self.name@,
            branch: self.branch@,
            remote: self.remote@,
            workdir_home: self.workdir_home,
            bootstrap: opt_boot(self.bootstrap),
        }
    }
}

impl View for HookSettings {
    type V = HookView;

    open spec fn view(&self) -> HookView {
        HookView { pre: opt_str(self.pre), post: opt_str(self.post), workdir: opt_str(self.workdir) }
    }
}

pub open spec fn hook_views(v: Seq<HookSettings>) -> Seq<HookView> {
    v.map_values(|h: HookSettings| h@)
}

impl View for CmdHookSettings {
    type V = CmdHookView;

    open spec fn view(&self) -> CmdHookView {
        CmdHookView { cmd: self.cmd@, hooks: hook_views(self.hooks@) }
    }
}

/// Bootstrap settings with nothing set.
pub open spec fn boot_empty() -> BootstrapView {
    BootstrapView { clone: None, os: None, users: None, hosts: None }
}

impl RepoSettings {
    /// Settings of repository `name`: empty branch and remote, working
    /// directory not the home directory, no bootstrap settings.
    pub fn new(name: &str) -> (res: Self)
        ensures
            res@ == (RepoView {
                name: name@,
                branch: Seq::empty(),
                remote: Seq::empty(),
                workdir_home: false,
                bootstrap: None,
            }),
    {
        RepoSettings {
            name: name.to_owned(),
            branch: String::new(),
            remote: String::new(),
            workdir_home: false,
            bootstrap: None,
        }
    }

    pub fn branch(self, branch: &str) -> (res: Self)
        ensures
            res@ == (RepoView { branch: branch@, ..self@ }),
    {
        RepoSettings { branch: branch.to_owned(), ..self }
    }

    pub fn remote(self, remote: &str) -> (res: Self)
        ensures
            res@ == (RepoView { remote: remote@, ..self@ }),
    {
        RepoSettings { remote: remote.to_owned(), ..self }
    }

    pub fn workdir_home(self, choice: bool) -> (res: Self)
        ensures
            res@ == (RepoView { workdir_home: choice, ..self@ }),
    {
        RepoSettings { workdir_home: choice, ..self }
    }

    pub fn bootstrap(self, bootstrap: BootstrapSettings) -> (res: Self)
        ensures
            res@ == (RepoView { bootstrap: Some(bootstrap@), ..self@ }),
    {
        RepoSettings { bootstrap: Some(bootstrap), ..self }
    }
}

impl BootstrapSettings {
    /// Bootstrap settings with nothing set.
    pub fn new() -> (res: Self)
        ensures
            res@ == boot_empty(),
    {
        BootstrapSettings { clone: None, os: None, users: None, hosts: None }
    }

    pub fn clone(self, url: &str) -> (res: Self)
        ensures
            res@ == (BootstrapView { clone: Some(url@), ..self@ }),
    {
        BootstrapSettings { clone: Some(url.to_owned()), ..self }
    }

    pub fn os(self, os: OsType) -> (res: Self)
        ensures
            res@ == (BootstrapView { os: Some(os), ..self@ }),
    {
        BootstrapSettings { os: Some(os), ..self }
    }

    pub fn users(self, users: Vec<String>) -> (res: Self)
        ensures
            res@ == (BootstrapView { users: Some(strs(users@)), ..self@ }),
    {
        BootstrapSettings { users: Some(users), ..self }
    }

    pub fn hosts(self, hosts: Vec<String>) -> (res: Self)
        ensures
            res@ == (BootstrapView { hosts: Some(strs(hosts@)), ..self@ }),
    {
        BootstrapSettings { hosts: Some(hosts), ..self }
    }

    /// Whether no bootstrap setting is set.
    pub fn is_empty(&self) -> (res: bool)
        ensures
            res == (self@ == boot_empty()),
    {
        self.clone.is_none() && self.os.is_none() && self.users.is_none() && self.hosts.is_none()
    }
}

impl CmdHookSettings {
    /// Settings of command `cmd` with no hooks.
    pub fn new(cmd: &str) -> (res: Self)
        ensures
            res@ == (CmdHookView { cmd: cmd@, hooks: Seq::empty() }),
    {
        let hooks: Vec<HookSettings> = Vec::new();
        assert(hook_views(hooks@) =~= Seq::empty());
        CmdHookSettings { cmd: cmd.to_owned(), hooks }
    }

    /// Append a hook definition.
    pub fn add_hook(self, hook: HookSettings) -> (res: Self)
        ensures
            res@ == (CmdHookView { hooks: self@.hooks.push(hook@), ..self@ }),
    {
        let mut hooks = self.hooks;
        hooks.push(hook);
        proof {
            assert(hook_views(hooks@) =~= hook_views(self.hooks@).push(hook@));
        }
        CmdHookSettings { cmd: self.cmd, hooks }
    }
}

impl HookSettings {
    /// Hook definition with nothing set.
    pub fn new() -> (res: Self)
        ensures
            res@ == (HookView { pre: None, post: None, workdir: None }),
    {
        HookSettings { pre: None, post: None, workdir: None }
    }

    pub fn pre(self, script: &str) -> (res: Self)
        ensures
            res@ == (HookView { pre: Some(script@), ..self@ }),
    {
        HookSettings { pre: Some(script.to_owned()), ..self }
    }

    pub fn post(self, script: &str) -> (res: Self)
        ensures
            res@ == (HookView { post: Some(script@), ..self@ }),
    {
        HookSettings { post: Some(script.to_owned()), ..self }
    }

    pub fn workdir(self, path: &str) -> (res: Self)
        ensures
            res@ == (HookView { workdir: Some(path@), ..self@ }),
    {
        HookSettings { workdir: Some(path.to_owned()), ..self }
    }
}


/// String nodes of texts.
pub open spec fn str_nodes(v: Seq<Seq<char>>) -> Seq<TomlNode> {
    v.map_values(|s: Seq<char>| TomlNode::Str(s))
}

/// Entries of the bootstrap table of repository settings, in the order
/// `clone`, `os`, `users`, `hosts`, each only where it is set.
pub open spec fn boot_entries(b: BootstrapView) -> Seq<(Seq<char>, TomlNode)> {
    let e0 = Seq::<(Seq<char>, TomlNode)>::empty();
    let e1 = match b.clone {
        Some(c) => e0.push(("clone"@, TomlNode::Str(c))),
        None => e0,
    };
    let e2 = match b.os {
        Some(o) => e1.push(("os"@, TomlNode::Str(os_name(o)))),
        None => e1,
    };
    let e3 = match b.users {
        Some(u) => e2.push(("users"@, TomlNode::Array(str_nodes(u)))),
        None => e2,
    };
    match b.hosts {
        Some(h) => e3.push(("hosts"@, TomlNode::Array(str_nodes(h)))),
        None => e3,
    }
}

/// Entries of the table of repository settings: `branch`, `remote` and
/// `workdir_home`, then the `bootstrap` table where bootstrap settings are
/// given.
pub open spec fn repo_entries(r: RepoView) -> Seq<(Seq<char>, TomlNode)> {
    let base = seq![
        ("branch"@, TomlNode::Str(r.branch)),
        ("remote"@, TomlNode::Str(r.remote)),
        ("workdir_home"@, TomlNode::Bool(r.workdir_home)),
    ];
    match r.bootstrap {
        Some(b) => base.push(("bootstrap"@, TomlNode::Table(boot_entries(b)))),
        None => base,
    }
}

/// Entries of the inline table of a hook definition, in the order `pre`,
/// `post`, `workdir`, each only where it is set.
pub open spec fn hook_entries(h: HookView) -> Seq<(Seq<char>, TomlNode)> {
    let e0 = Seq::<(Seq<char>, TomlNode)>::empty();
    let e1 = match h.pre {
        Some(p) => e0.push(("pre"@, TomlNode::Str(p))),
        None => e0,
    };
    let e2 = match h.post {
        Some(p) => e1.push(("post"@, TomlNode::Str(p))),
        None => e1,
    };
    match h.workdir {
        Some(w) => e2.push(("workdir"@, TomlNode::Str(w))),
        None => e2,
    }
}

/// Array of the inline tables of hook definitions.
pub open spec fn hook_nodes(hs: Seq<HookView>) -> Seq<TomlNode> {
    hs.map_values(|h: HookView| TomlNode::Inline(hook_entries(h)))
}

proof fn lemma_keys_distinct_lits()
    ensures
        "branch"@ != "remote"@,
        "branch"@ != "workdir_home"@,
        "branch"@ != "bootstrap"@,
        "remote"@ != "workdir_home"@,
        "remote"@ != "bootstrap"@,
        "workdir_home"@ != "bootstrap"@,
        "clone"@ != "os"@,
        "clone"@ != "users"@,
        "clone"@ != "hosts"@,
        "os"@ != "users"@,
        "os"@ != "hosts"@,
        "users"@ != "hosts"@,
        "pre"@ != "post"@,
        "pre"@ != "workdir"@,
        "post"@ != "workdir"@,
{
    reveal_strlit("branch");
    reveal_strlit("remote");
    reveal_strlit("workdir_home");
    reveal_strlit("bootstrap");
    reveal_strlit("clone");
    reveal_strlit("os");
    reveal_strlit("users");
    reveal_strlit("hosts");
    reveal_strlit("pre");
    reveal_strlit("post");
    reveal_strlit("workdir");
    assert("branch"@[0] != "remote"@[0]);
    assert("branch"@.len() != "workdir_home"@.len());
    assert("branch"@.len() != "bootstrap"@.len());
    assert("remote"@.len() != "workdir_home"@.len());
    assert("remote"@.len() != "bootstrap"@.len());
    assert("workdir_home"@.len() != "bootstrap"@.len());
    assert("clone"@.len() != "os"@.len());
    assert("clone"@[0] != "users"@[0]);
    assert("clone"@[0] != "hosts"@[0]);
    assert("os"@.len() != "users"@.len());
    assert("os"@.len() != "hosts"@.len());
    assert("users"@[0] != "hosts"@[0]);
    assert("pre"@.len() != "post"@.len());
    assert("pre"@.len() != "workdir"@.len());
    assert("post"@.len() != "workdir"@.len());
}

/// Builds an array of strings.
fn str_array(v: &Vec<String>) -> (res: TomlItem)
    ensures
        res@ == TomlNode::Array(str_nodes(strs(v@))),
        node_wf(res@),
{
    let ghost target = str_nodes(strs(v@));
    let mut out: Vec<TomlItem> = Vec::new();
    let mut i: usize = 0;
    assert(nodes_of(out@) =~= target.take(0));
    while i < v.len()
        invariant
            i <= v.len(),
            target == str_nodes(strs(v@)),
            nodes_of(out@) == target.take(i as int),
            values_wf(nodes_of(out@)),
        decreases v.len() - i,
    {
        let x = TomlItem::Str(v[i].clone());
        proof {
            lemma_push_node(out@, x);
            lemma_values_wf_push(nodes_of(out@), node_of(x));
            assert(strs(v@)[i as int] == v@[i as int]@);
            assert(target[i as int] == TomlNode::Str(v@[i as int]@));
            assert(target.take(i + 1) =~= target.take(i as int).push(target[i as int]));
        }
        out.push(x);
        i = i + 1;
    }
    assert(target.take(v.len() as int) =~= target);
    TomlItem::Array(out)
}

proof fn lemma_push_node(out: Seq<TomlItem>, x: TomlItem)
    ensures
        nodes_of(out.push(x)) == nodes_of(out).push(node_of(x)),
{
    assert(out.push(x).drop_last() =~= out);
}

proof fn lemma_values_wf_push(s: Seq<TomlNode>, n: TomlNode)
    ensures
        values_wf(s.push(n)) == (values_wf(s) && is_value_node(n) && node_wf(n)),
{
    assert(s.push(n).drop_last() =~= s);
}

proof fn lemma_push_entry(out: Seq<TomlEntry>, e: TomlEntry)
    ensures
        entries_of(out.push(e)) == entries_of(out).push((e.key@, node_of(e.item))),
{
    assert(out.push(e).drop_last() =~= out);
}

/// Entries with distinct keys whose items are all well formed and, where
/// `values_only`, values.
proof fn lemma_small_entries_wf(es: Seq<(Seq<char>, TomlNode)>, values_only: bool)
    requires
        keys_distinct(es),
        forall|i: int|
            0 <= i < es.len() ==> node_wf(#[trigger] es[i].1) && (values_only ==> is_value_node(
                es[i].1,
            )),
    ensures
        crate::tree::entries_wf(es, values_only),
{
    lemma_entries_wf_intro(es, values_only);
}

/// Well-formed arrays of strings.
proof fn lemma_str_nodes_wf(v: Seq<Seq<char>>)
    ensures
        values_wf(str_nodes(v)),
    decreases v.len(),
{
    if v.len() > 0 {
        lemma_str_nodes_wf(v.drop_last());
        assert(str_nodes(v) =~= str_nodes(v.drop_last()).push(TomlNode::Str(v.last())));
        lemma_values_wf_push(str_nodes(v.drop_last()), TomlNode::Str(v.last()));
    }
}

/// The bootstrap table is well formed.
pub proof fn lemma_boot_entries_wf(b: BootstrapView)
    ensures
        crate::tree::entries_wf(boot_entries(b), false),
{
    lemma_keys_distinct_lits();
    let es = boot_entries(b);
    if let Some(u) = b.users {
        lemma_str_nodes_wf(u);
    }
    if let Some(h) = b.hosts {
        lemma_str_nodes_wf(h);
    }
    lemma_small_entries_wf(es, false);
}

/// The table of repository settings is well formed.
pub proof fn lemma_repo_entries_wf(r: RepoView)
    ensures
        crate::tree::entries_wf(repo_entries(r), false),
{
    lemma_keys_distinct_lits();
    if let Some(b) = r.bootstrap {
        lemma_boot_entries_wf(b);
    }
    lemma_small_entries_wf(repo_entries(r), false);
}

/// The inline table of a hook definition is well formed.
pub proof fn lemma_hook_entries_wf(h: HookView)
    ensures
        crate::tree::entries_wf(hook_entries(h), true),
{
    lemma_keys_distinct_lits();
    lemma_small_entries_wf(hook_entries(h), true);
}

impl RepoSettings {
    /// Serialize into a TOML entry: the repository's name, and a table of
    /// its settings (see [`repo_entries`]).
    pub fn to_toml(&self) -> (res: TomlEntry)
        ensures
            res@ == (self.name@, TomlNode::Table(repo_entries(self@))),
            node_wf(res.item@),
    {
        let ghost target = repo_entries(self@);
        let mut es: Vec<TomlEntry> = Vec::new();
        let e = TomlEntry { key: "branch".to_owned(), item: TomlItem::Str(self.branch.clone()) };
        proof { lemma_push_entry(es@, e); }
        es.push(e);
        let e = TomlEntry { key: "remote".to_owned(), item: TomlItem::Str(self.remote.clone()) };
        proof { lemma_push_entry(es@, e); }
        es.push(e);
        let e = TomlEntry { key: "workdir_home".to_owned(), item: TomlItem::Bool(self.workdir_home) };
        proof { lemma_push_entry(es@, e); }
        es.push(e);
        match &self.bootstrap {
            Some(b) => {
                let e = TomlEntry { key: "bootstrap".to_owned(), item: TomlItem::Table(b.to_entries()) };
                proof { lemma_push_entry(es@, e); }
                es.push(e);
            },
            None => {},
        }
        proof {
            assert(entries_of(es@) =~= target);
            lemma_repo_entries_wf(self@);
        }
        TomlEntry { key: self.name.clone(), item: TomlItem::Table(es) }
    }
}

impl BootstrapSettings {
    /// Entries of the bootstrap table (see [`boot_entries`]).
    fn to_entries(&self) -> (res: Vec<TomlEntry>)
        ensures
            entries_of(res@) == boot_entries(self@),
    {
        let mut es: Vec<TomlEntry> = Vec::new();
        let ghost e0 = entries_of(es@);
        match &self.clone {
            Some(c) => {
                let e = TomlEntry { key: "clone".to_owned(), item: TomlItem::Str(c.clone()) };
                proof { lemma_push_entry(es@, e); }
                es.push(e);
            },
            None => {},
        }
        match &self.os {
            Some(o) => {
                let e = TomlEntry { key: "os".to_owned(), item: TomlItem::Str(o.to_string()) };
                proof { lemma_push_entry(es@, e); }
                es.push(e);
            },
            None => {},
        }
        match &self.users {
            Some(u) => {
                let e = TomlEntry { key: "users".to_owned(), item: str_array(u) };
                proof { lemma_push_entry(es@, e); }
                es.push(e);
            },
            None => {},
        }
        match &self.hosts {
            Some(h) => {
                let e = TomlEntry { key: "hosts".to_owned(), item: str_array(h) };
                proof { lemma_push_entry(es@, e); }
                es.push(e);
            },
            None => {},
        }
        proof {
            assert(e0 =~= Seq::<(Seq<char>, TomlNode)>::empty());
            assert(entries_of(es@) =~= boot_entries(self@));
        }
        es
    }
}

impl HookSettings {
    /// Entries of the inline table of this hook (see [`hook_entries`]).
    fn to_entries(&self) -> (res: Vec<TomlEntry>)
        ensures
            entries_of(res@) == hook_entries(self@),
    {
        let mut es: Vec<TomlEntry> = Vec::new();
        let ghost e0 = entries_of(es@);
        match &self.pre {
            Some(p) => {
                let e = TomlEntry { key: "pre".to_owned(), item: TomlItem::Str(p.clone()) };
                proof { lemma_push_entry(es@, e); }
                es.push(e);
            },
            None => {},
        }
        match &self.post {
            Some(p) => {
                let e = TomlEntry { key: "post".to_owned(), item: TomlItem::Str(p.clone()) };
                proof { lemma_push_entry(es@, e); }
                es.push(e);
            },
            None => {},
        }
        match &self.workdir {
            Some(w) => {
                let e = TomlEntry { key: "workdir".to_owned(), item: TomlItem::Str(w.clone()) };
                proof { lemma_push_entry(es@, e); }
                es.push(e);
            },
            None => {},
        }
        proof {
            assert(e0 =~= Seq::<(Seq<char>, TomlNode)>::empty());
            assert(entries_of(es@) =~= hook_entries(self@));
        }
        es
    }
}

/// Layout of the `i`-th of `n` inline tables in the array of a command hook:
/// indented by four spaces on a line of its own, the closing bracket of the
/// array on a line of its own after the last one.
pub open spec fn hook_decor_ok(d: Decor, i: int, n: int) -> bool {
    &&& (d.prefix matches Some(p) && p@ == "\n    "@)
    &&& if i == n - 1 {
        (d.suffix matches Some(s) && s@ == "\n"@)
    } else {
        d.suffix is None
    }
}

impl CmdHookSettings {
    /// Serialize into a TOML entry: the command's name, and an array with
    /// one inline table per hook definition, in order (see
    /// [`hook_entries`]), laid out one per line.
    pub fn to_toml(&self) -> (res: TomlEntry)
        ensures
            res@ == (self.cmd@, TomlNode::Array(hook_nodes(self@.hooks))),
            node_wf(res.item@),
            res.item matches TomlItem::Array(v) && v.len() == self.hooks.len() && (forall|i: int|
                0 <= i < v.len() ==> (#[trigger] v@[i] matches TomlItem::Inline(_, d)
                    && hook_decor_ok(d, i, v.len() as int))),
    {
        let ghost target = hook_nodes(self@.hooks);
        let n = self.hooks.len();
        let mut out: Vec<TomlItem> = Vec::new();
        let mut i: usize = 0;
        assert(nodes_of(out@) =~= target.take(0));
        while i < n
            invariant
                i <= n,
                n == self.hooks.len(),
                target == hook_nodes(self@.hooks),
                out.len() == i,
                nodes_of(out@) == target.take(i as int),
                values_wf(nodes_of(out@)),
                forall|j: int|
                    0 <= j < i ==> (#[trigger] out@[j] matches TomlItem::Inline(_, d)
                        && hook_decor_ok(d, j, n as int)),
            decreases n - i,
        {
            let es = self.hooks[i].to_entries();
            let suffix = if i + 1 == n {
                Some("\n".to_owned())
            } else {
                None
            };
            let x = TomlItem::Inline(es, Decor { prefix: Some("\n    ".to_owned()), suffix });
            proof {
                lemma_hook_entries_wf(self.hooks@[i as int]@);
                assert(self@.hooks[i as int] == self.hooks@[i as int]@);
                assert(target[i as int] == TomlNode::Inline(hook_entries(self@.hooks[i as int])));
                lemma_push_node(out@, x);
                lemma_values_wf_push(nodes_of(out@), node_of(x));
                assert(target.take(i + 1) =~= target.take(i as int).push(target[i as int]));
            }
            out.push(x);
            i = i + 1;
        }
        assert(target.take(n as int) =~= target);
        TomlEntry { key: self.cmd.clone(), item: TomlItem::Array(out) }
    }
}


/// Quote characters that are trimmed off the ends of listed names.
pub open spec fn is_quote(c: char) -> bool {
    c == '"' || c == '\''
}

pub open spec fn trim_start_quotes(s: Seq<char>) -> Seq<char>
    decreases s.len(),
{
    if s.len() > 0 && is_quote(s[0]) {
        trim_start_quotes(s.drop_first())
    } else {
        s
    }
}

pub open spec fn trim_end_quotes(s: Seq<char>) -> Seq<char>
    decreases s.len(),
{
    if s.len() > 0 && is_quote(s.last()) {
        trim_end_quotes(s.drop_last())
    } else {
        s
    }
}

/// A text with every leading and trailing quote character removed.
pub open spec fn trim_quotes(s: Seq<char>) -> Seq<char> {
    trim_end_quotes(trim_start_quotes(s))
}

/// Every element of a list is a string.
pub open spec fn all_strs(vs: Seq<TomlNode>) -> bool {
    forall|i: int| 0 <= i < vs.len() ==> #[trigger] vs[i] is Str
}

/// Trimmed texts of a list of strings.
pub open spec fn list_strs(vs: Seq<TomlNode>) -> Seq<Seq<char>> {
    vs.map_values(|n: TomlNode| trim_quotes(n->Str_0))
}

/// Keys whose value is read as a list of names.
pub open spec fn is_list_key(k: Seq<char>) -> bool {
    k == "users"@ || k == "hosts"@
}

/// Every list of names reachable in an item holds strings only: where it
/// does not, reading bootstrap settings from the item is not defined.
pub open spec fn lists_ok(n: TomlNode) -> bool {
    walk_ok::<BootstrapSettings>(n)
}

pub open spec fn kvs_lists_ok(es: Seq<(Seq<char>, TomlNode)>) -> bool {
    kvs_ok::<BootstrapSettings>(es)
}

pub open spec fn kv_lists_ok(e: (Seq<char>, TomlNode)) -> bool {
    kv_ok::<BootstrapSettings>(e)
}

/// Items under key `k` that the bootstrap reader can read: a list of names
/// holds strings only.
pub open spec fn boot_set_ok(k: Seq<char>, n: TomlNode) -> bool {
    is_list_key(k) && n is Array ==> all_strs(n->Array_0)
}

/// What the bootstrap reader sets on meeting key `k` with item `n`.
pub open spec fn boot_set(st: BootstrapView, k: Seq<char>, n: TomlNode) -> BootstrapView {
    if k == "clone"@ {
        match n {
            TomlNode::Str(s) => BootstrapView { clone: Some(s), ..st },
            _ => st,
        }
    } else if k == "os"@ {
        match n {
            TomlNode::Str(s) => BootstrapView { os: Some(os_from_name(s)), ..st },
            _ => st,
        }
    } else if k == "users"@ {
        match n {
            TomlNode::Array(vs) => BootstrapView { users: Some(list_strs(vs)), ..st },
            _ => st,
        }
    } else if k == "hosts"@ {
        match n {
            TomlNode::Array(vs) => BootstrapView { hosts: Some(list_strs(vs)), ..st },
            _ => st,
        }
    } else {
        st
    }
}

pub open spec fn is_boot_key(k: Seq<char>) -> bool {
    k == "clone"@ || k == "os"@ || k == "users"@ || k == "hosts"@
}

/// Bootstrap settings read from an item: every key-value pair reachable in
/// it is met in document order. A bootstrap key sets its setting, then its
/// item is walked; the item of any other key is walked twice.
pub open spec fn boot_item(st: BootstrapView, n: TomlNode) -> BootstrapView {
    walk_item::<BootstrapSettings>(st, n)
}

pub open spec fn boot_kvs(st: BootstrapView, es: Seq<(Seq<char>, TomlNode)>) -> BootstrapView {
    walk_kvs::<BootstrapSettings>(st, es)
}

pub open spec fn boot_kv(st: BootstrapView, e: (Seq<char>, TomlNode)) -> BootstrapView {
    walk_kv::<BootstrapSettings>(st, e)
}

/// Whether a character is a quote character.
fn quote_char(c: char) -> (res: bool)
    ensures
        res == is_quote(c),
{
    c == '"' || c == '\''
}

/// Removes every leading and trailing quote character of a text.
pub fn trim_quotes_str(s: &str) -> (res: String)
    ensures
        res@ == trim_quotes(s@),
{
    let n = s.unicode_len();
    let mut i: usize = 0;
    assert(s@.subrange(0, n as int) =~= s@);
    while i < n && quote_char(s.get_char(i))
        invariant
            i <= n,
            n == s@.len(),
            trim_start_quotes(s@) == trim_start_quotes(s@.subrange(i as int, n as int)),
        decreases n - i,
    {
        proof {
            let t = s@.subrange(i as int, n as int);
            assert(t[0] == s@[i as int]);
            assert(t.drop_first() =~= s@.subrange(i + 1, n as int));
        }
        i = i + 1;
    }
    assert(trim_start_quotes(s@) == s@.subrange(i as int, n as int));
    let mut j: usize = n;
    while j > i && quote_char(s.get_char(j - 1))
        invariant
            i <= j <= n,
            n == s@.len(),
            trim_end_quotes(s@.subrange(i as int, n as int)) == trim_end_quotes(
                s@.subrange(i as int, j as int),
            ),
        decreases j,
    {
        proof {
            let t = s@.subrange(i as int, j as int);
            assert(t.last() == s@[j - 1]);
            assert(t.drop_last() =~= s@.subrange(i as int, j - 1));
        }
        j = j - 1;
    }
    let t = s.substring_char(i, j);
    t.to_owned()
}

/// Trimmed texts of a list of strings.
fn trimmed_strs(v: &Vec<TomlItem>) -> (res: Vec<String>)
    requires
        all_strs(nodes_of(v@)),
    ensures
        strs(res@) == list_strs(nodes_of(v@)),
{
    let ghost vs = nodes_of(v@);
    proof {
        lemma_nodes_of(v@);
    }
    let mut out: Vec<String> = Vec::new();
    let mut i: usize = 0;
    while i < v.len()
        invariant
            i <= v.len(),
            vs == nodes_of(v@),
            vs.len() == v.len(),
            forall|j: int| 0 <= j < v.len() ==> #[trigger] vs[j] == node_of(v@[j]),
            all_strs(vs),
            out.len() == i,
            forall|j: int| 0 <= j < i ==> #[trigger] out@[j]@ == trim_quotes(vs[j]->Str_0),
        decreases v.len() - i,
    {
        assert(vs[i as int] is Str);
        match &v[i] {
            TomlItem::Str(s) => {
                let t = trim_quotes_str(s.as_str());
                out.push(t);
            },
            _ => {
                assert(false);
            },
        }
        i = i + 1;
    }
    assert(strs(out@) =~= list_strs(vs));
    out
}

impl KvVisitor for BootstrapSettings {
    type St = BootstrapView;

    open spec fn st(&self) -> BootstrapView {
        self@
    }

    open spec fn reads(k: Seq<char>) -> bool {
        is_boot_key(k)
    }

    open spec fn set(st: BootstrapView, k: Seq<char>, n: TomlNode) -> BootstrapView {
        boot_set(st, k, n)
    }

    open spec fn set_ok(k: Seq<char>, n: TomlNode) -> bool {
        boot_set_ok(k, n)
    }

    fn reads_key(k: &str) -> (res: bool) {
        str_eq(k, "clone") || str_eq(k, "os") || str_eq(k, "users") || str_eq(k, "hosts")
    }

    /// Sets what key `key` with item `item` sets (see [`boot_set`]).
    fn set_from(&mut self, key: &str, item: &TomlItem) {
        proof {
            reveal_strlit("users");
        }
        if str_eq(key, "clone") {
            if let TomlItem::Str(s) = item {
                self.clone = Some(s.clone());
            }
        } else if str_eq(key, "os") {
            if let TomlItem::Str(s) = item {
                self.os = Some(OsType::from(s.as_str()));
            }
        } else if str_eq(key, "users") {
            if let TomlItem::Array(v) = item {
                self.users = Some(trimmed_strs(v));
            }
        } else if str_eq(key, "hosts") {
            if let TomlItem::Array(v) = item {
                self.hosts = Some(trimmed_strs(v));
            }
        }
    }
}

/// Text of a string item, or the empty text for any other item.
pub open spec fn str_or_empty(n: TomlNode) -> Seq<char> {
    match n {
        TomlNode::Str(s) => s,
        _ => Seq::empty(),
    }
}

/// Value of a boolean item, or `false` for any other item.
pub open spec fn bool_or_false(n: TomlNode) -> bool {
    match n {
        TomlNode::Bool(b) => b,
        _ => false,
    }
}

pub open spec fn is_repo_key(k: Seq<char>) -> bool {
    k == "branch"@ || k == "remote"@ || k == "workdir_home"@
}

/// What the repository reader sets on meeting key `k` with item `n`.
pub open spec fn repo_set(st: RepoView, k: Seq<char>, n: TomlNode) -> RepoView {
    if k == "branch"@ {
        RepoView { branch: str_or_empty(n), ..st }
    } else if k == "remote"@ {
        RepoView { remote: str_or_empty(n), ..st }
    } else if k == "workdir_home"@ {
        RepoView { workdir_home: bool_or_false(n), ..st }
    } else {
        st
    }
}

/// Repository settings read from an item, in the same walk as
/// [`boot_item`]: a repository key sets its setting, then its item is
/// walked; the item of any other key is walked twice.
pub open spec fn repo_item(st: RepoView, n: TomlNode) -> RepoView {
    walk_item::<RepoSettings>(st, n)
}

pub open spec fn repo_kvs(st: RepoView, es: Seq<(Seq<char>, TomlNode)>) -> RepoView {
    walk_kvs::<RepoSettings>(st, es)
}

pub open spec fn repo_kv(st: RepoView, e: (Seq<char>, TomlNode)) -> RepoView {
    walk_kv::<RepoSettings>(st, e)
}

/// Repository settings of repository `name` read from its item: branch,
/// remote and working directory flag from the repository walk, bootstrap
/// settings from the bootstrap walk, kept only where one of them is set.
pub open spec fn repo_decode(name: Seq<char>, n: TomlNode) -> RepoView {
    let b = boot_item(boot_empty(), n);
    let r = repo_item(
        RepoView {
            name,
            branch: Seq::empty(),
            remote: Seq::empty(),
            workdir_home: false,
            bootstrap: None,
        },
        n,
    );
    RepoView {
        name,
        branch: r.branch,
        remote: r.remote,
        workdir_home: r.workdir_home,
        bootstrap: if b == boot_empty() {
            None
        } else {
            Some(b)
        },
    }
}

/// Text stored as a string under key `k` of a table, if any.
pub open spec fn str_at(es: Seq<(Seq<char>, TomlNode)>, k: Seq<char>) -> Option<Seq<char>> {
    match entry_lookup(es, k) {
        Some(TomlNode::Str(s)) => Some(s),
        _ => None,
    }
}

/// Hook definition read from an inline table.
pub open spec fn hook_of(es: Seq<(Seq<char>, TomlNode)>) -> HookView {
    HookView { pre: str_at(es, "pre"@), post: str_at(es, "post"@), workdir: str_at(es, "workdir"@) }
}

/// Hook definitions read from an item: every inline table reachable in it,
/// in document order, gives one hook definition.
pub open spec fn hooks_item(hs: Seq<HookView>, n: TomlNode) -> Seq<HookView>
    decreases n, 1int,
{
    match n {
        TomlNode::Array(vs) => hooks_values(hs, vs),
        TomlNode::Inline(es) => hooks_kvs(hs.push(hook_of(es)), es),
        TomlNode::Table(es) => hooks_kvs(hs, es),
        TomlNode::TableArray(ts) => hooks_tables(hs, ts),
        _ => hs,
    }
}

pub open spec fn hooks_values(hs: Seq<HookView>, vs: Seq<TomlNode>) -> Seq<HookView>
    decreases vs, 2int,
{
    if vs.len() == 0 {
        hs
    } else {
        hooks_item(hooks_values(hs, vs.drop_last()), vs.last())
    }
}

pub open spec fn hooks_kvs(hs: Seq<HookView>, es: Seq<(Seq<char>, TomlNode)>) -> Seq<HookView>
    decreases es, 2int,
{
    if es.len() == 0 {
        hs
    } else {
        hooks_kv(hooks_kvs(hs, es.drop_last()), es.last())
    }
}

pub open spec fn hooks_kv(hs: Seq<HookView>, e: (Seq<char>, TomlNode)) -> Seq<HookView>
    decreases e, 3int,
{
    hooks_item(hs, e.1)
}

pub open spec fn hooks_tables(hs: Seq<HookView>, ts: Seq<Seq<(Seq<char>, TomlNode)>>) -> Seq<
    HookView,
>
    decreases ts, 2int,
{
    if ts.len() == 0 {
        hs
    } else {
        hooks_kvs(hooks_tables(hs, ts.drop_last()), ts.last())
    }
}

impl KvVisitor for RepoSettings {
    type St = RepoView;

    open spec fn st(&self) -> RepoView {
        self@
    }

    open spec fn reads(k: Seq<char>) -> bool {
        is_repo_key(k)
    }

    open spec fn set(st: RepoView, k: Seq<char>, n: TomlNode) -> RepoView {
        repo_set(st, k, n)
    }

    open spec fn set_ok(k: Seq<char>, n: TomlNode) -> bool {
        true
    }

    fn reads_key(k: &str) -> (res: bool) {
        str_eq(k, "branch") || str_eq(k, "remote") || str_eq(k, "workdir_home")
    }

    /// Sets what key `key` with item `item` sets (see [`repo_set`]).
    fn set_from(&mut self, key: &str, item: &TomlItem) {
        if str_eq(key, "branch") {
            self.branch = match item {
                TomlItem::Str(s) => s.clone(),
                _ => String::new(),
            };
        } else if str_eq(key, "remote") {
            self.remote = match item {
                TomlItem::Str(s) => s.clone(),
                _ => String::new(),
            };
        } else if str_eq(key, "workdir_home") {
            self.workdir_home = match item {
                TomlItem::Bool(b) => *b,
                _ => false,
            };
        }
    }
}

impl RepoSettings {
    /// Deserialize repository settings from a TOML entry: the entry's key
    /// names the repository (see [`repo_decode`]).
    pub fn from_toml(entry: &TomlEntry) -> (res: Self)
        requires
            lists_ok(entry.item@),
        ensures
            res@ == repo_decode(entry.key@, entry.item@),
    {
        let mut bootstrap = BootstrapSettings::new();
        let mut repo = RepoSettings::new(entry.key.as_str());
        proof {
            lemma_walk_ok_all::<RepoSettings>(entry.item@);
        }
        walk(&mut bootstrap, &entry.item);
        walk(&mut repo, &entry.item);
        let bootstrap = if bootstrap.is_empty() {
            None
        } else {
            Some(bootstrap)
        };
        RepoSettings {
            name: entry.key.clone(),
            branch: repo.branch,
            remote: repo.remote,
            workdir_home: repo.workdir_home,
            bootstrap,
        }
    }
}

/// Text stored as a string under key `k` of a table, if any.
fn find_str(es: &Vec<TomlEntry>, k: &str) -> (res: Option<String>)
    ensures
        opt_str(res) == str_at(entries_of(es@), k@),
{
    let ghost ev = entries_of(es@);
    proof {
        lemma_entries_of(es@);
        lemma_key_index(ev, k@);
    }
    let mut i: usize = 0;
    while i < es.len()
        invariant
            i <= es.len(),
            ev == entries_of(es@),
            ev.len() == es.len(),
            forall|j: int|
                0 <= j < es.len() ==> #[trigger] ev[j] == (es@[j].key@, node_of(es@[j].item)),
            forall|j: int| 0 <= j < i ==> ev[j].0 != k@,
        decreases es.len() - i,
    {
        if str_eq(es[i].key.as_str(), k) {
            assert(ev[i as int].0 == k@);
            proof {
                lemma_key_index(ev, k@);
                let ki = key_index(ev, k@);
                if 0 <= ki < i {
                    assert(ev[ki].0 != k@);
                }
                if ki > i {
                    assert(ev[i as int].0 != k@);
                }
            }
            assert(key_index(ev, k@) == i);
            return match &es[i].item {
                TomlItem::Str(s) => Some(s.clone()),
                _ => None,
            };
        }
        i = i + 1;
    }
    None
}

impl CmdHookSettings {
    /// Reads hook definitions from an item (see [`hooks_item`]).
    fn walk_item(&mut self, item: &TomlItem)
        ensures
            final(self)@ == (CmdHookView { hooks: hooks_item(old(self)@.hooks, item@), ..old(self)@ }),
        decreases item, 1int,
    {
        match item {
            TomlItem::Array(v) => {
                let ghost vs = nodes_of(v@);
                let ghost st0 = self@;
                proof {
                    lemma_nodes_of(v@);
                    assert(vs.take(0) =~= Seq::<TomlNode>::empty());
                }
                let mut i: usize = 0;
                while i < v.len()
                    invariant
                        i <= v.len(),
                        *item == TomlItem::Array(*v),
                        vs == nodes_of(v@),
                        vs.len() == v.len(),
                        forall|j: int| 0 <= j < v.len() ==> #[trigger] vs[j] == node_of(v@[j]),
                        self@ == (CmdHookView {
                            hooks: hooks_values(st0.hooks, vs.take(i as int)),
                            ..st0
                        }),
                    decreases v.len() - i,
                {
                    proof {
                        assert(decreases_to!(*item => (*item)->Array_0));
                        assert(decreases_to!(v => v@));
                        assert(decreases_to!(v@ => v@[i as int]));
                        assert(vs[i as int] == node_of(v@[i as int]));
                        assert(vs.take(i + 1).drop_last() =~= vs.take(i as int));
                    }
                    self.walk_item(&v[i]);
                    i = i + 1;
                }
                assert(vs.take(v.len() as int) =~= vs);
            },
            TomlItem::Inline(es, _) => {
                let hook = HookSettings {
                    pre: find_str(es, "pre"),
                    post: find_str(es, "post"),
                    workdir: find_str(es, "workdir"),
                };
                let ghost hs0 = self@.hooks;
                self.hooks.push(hook);
                proof {
                    assert(hook_views(self.hooks@) =~= hs0.push(hook@));
                }
                self.walk_entries(es);
            },
            TomlItem::Table(es) => {
                self.walk_entries(es);
            },
            TomlItem::TableArray(ts) => {
                let ghost tv = tables_of(ts@);
                let ghost st0 = self@;
                proof {
                    lemma_tables_of(ts@);
                    assert(tv.take(0) =~= Seq::<Seq<(Seq<char>, TomlNode)>>::empty());
                }
                let mut i: usize = 0;
                while i < ts.len()
                    invariant
                        i <= ts.len(),
                        *item == TomlItem::TableArray(*ts),
                        tv == tables_of(ts@),
                        tv.len() == ts.len(),
                        forall|j: int|
                            0 <= j < ts.len() ==> #[trigger] tv[j] == entries_of(ts@[j]@),
                        self@ == (CmdHookView {
                            hooks: hooks_tables(st0.hooks, tv.take(i as int)),
                            ..st0
                        }),
                    decreases ts.len() - i,
                {
                    proof {
                        assert(decreases_to!(*item => (*item)->TableArray_0));
                        assert(decreases_to!(ts => ts@));
                        assert(decreases_to!(ts@ => ts@[i as int]));
                        assert(tv[i as int] == entries_of(ts@[i as int]@));
                        assert(tv.take(i + 1).drop_last() =~= tv.take(i as int));
                    }
                    self.walk_entries(&ts[i]);
                    i = i + 1;
                }
                assert(tv.take(ts.len() as int) =~= tv);
            },
            _ => {},
        }
    }

    /// Reads hook definitions from the pairs of a table (see [`hooks_kvs`]).
    fn walk_entries(&mut self, es: &Vec<TomlEntry>)
        ensures
            final(self)@ == (CmdHookView {
                hooks: hooks_kvs(old(self)@.hooks, entries_of(es@)),
                ..old(self)@
            }),
        decreases es, 2int,
    {
        let ghost ev = entries_of(es@);
        let ghost st0 = self@;
        proof {
            lemma_entries_of(es@);
            assert(ev.take(0) =~= Seq::<(Seq<char>, TomlNode)>::empty());
        }
        let mut i: usize = 0;
        while i < es.len()
            invariant
                i <= es.len(),
                ev == entries_of(es@),
                ev.len() == es.len(),
                forall|j: int|
                    0 <= j < es.len() ==> #[trigger] ev[j] == (es@[j].key@, node_of(es@[j].item)),
                self@ == (CmdHookView { hooks: hooks_kvs(st0.hooks, ev.take(i as int)), ..st0 }),
            decreases es.len() - i,
        {
            proof {
                assert(decreases_to!(es => es@));
                assert(decreases_to!(es@ => es@[i as int]));
                assert(decreases_to!(es@[i as int] => es@[i as int].item));
                assert(ev[i as int] == (es@[i as int].key@, node_of(es@[i as int].item)));
                assert(ev.take(i + 1).drop_last() =~= ev.take(i as int));
            }
            self.walk_item(&es[i].item);
            proof {
                assert(hooks_kvs(st0.hooks, ev.take(i + 1)) == hooks_kv(
                    hooks_kvs(st0.hooks, ev.take(i as int)),
                    ev[i as int],
                ));
            }
            i = i + 1;
        }
        assert(ev.take(es.len() as int) =~= ev);
    }

    /// Deserialize command hook settings from a TOML entry: the entry's key
    /// names the command, and every inline table reachable in its item, in
    /// document order, gives one hook definition (see [`hooks_item`]).
    pub fn from_toml(entry: &TomlEntry) -> (res: Self)
        ensures
            res@ == (CmdHookView {
                cmd: entry.key@,
                hooks: hooks_item(Seq::empty(), entry.item@),
            }),
    {
        let mut cmd_hook = CmdHookSettings::new(entry.key.as_str());
        cmd_hook.walk_item(&entry.item);
        cmd_hook
    }
}


/// A text with no quote character at either end.
pub open spec fn quote_free(s: Seq<char>) -> bool {
    s.len() == 0 || (!is_quote(s[0]) && !is_quote(s.last()))
}

/// Bootstrap settings whose listed names have no quote character at either
/// end: the names that survive being written and read back.
pub open spec fn boot_names_ok(b: BootstrapView) -> bool {
    &&& (b.users matches Some(u) ==> forall|i: int| 0 <= i < u.len() ==> quote_free(#[trigger] u[i]))
    &&& (b.hosts matches Some(h) ==> forall|i: int| 0 <= i < h.len() ==> quote_free(#[trigger] h[i]))
}

proof fn lemma_trim_quote_free(s: Seq<char>)
    requires
        quote_free(s),
    ensures
        trim_quotes(s) == s,
{
}

proof fn lemma_list_strs_roundtrip(u: Seq<Seq<char>>)
    requires
        forall|i: int| 0 <= i < u.len() ==> quote_free(#[trigger] u[i]),
    ensures
        list_strs(str_nodes(u)) == u,
        all_strs(str_nodes(u)),
{
    assert forall|i: int| 0 <= i < u.len() implies #[trigger] list_strs(str_nodes(u))[i] == u[i] by {
        assert(str_nodes(u)[i] == TomlNode::Str(u[i]));
        lemma_trim_quote_free(u[i]);
    }
    assert(list_strs(str_nodes(u)) =~= u);
    assert forall|i: int| 0 <= i < str_nodes(u).len() implies #[trigger] str_nodes(u)[i] is Str by {
        assert(str_nodes(u)[i] == TomlNode::Str(u[i]));
    }
}

proof fn lemma_more_distinct_lits()
    ensures
        !is_boot_key("branch"@),
        !is_boot_key("remote"@),
        !is_boot_key("workdir_home"@),
        !is_boot_key("bootstrap"@),
        !is_repo_key("clone"@),
        !is_repo_key("os"@),
        !is_repo_key("users"@),
        !is_repo_key("hosts"@),
        !is_repo_key("bootstrap"@),
        is_boot_key("clone"@),
        is_boot_key("os"@),
        is_boot_key("users"@),
        is_boot_key("hosts"@),
        is_repo_key("branch"@),
        is_repo_key("remote"@),
        is_repo_key("workdir_home"@),
        !is_list_key("clone"@),
        !is_list_key("os"@),
        is_list_key("users"@),
        is_list_key("hosts"@),
        !is_list_key("branch"@),
        !is_list_key("remote"@),
        !is_list_key("workdir_home"@),
        !is_list_key("bootstrap"@),
{
    reveal_strlit("branch");
    reveal_strlit("remote");
    reveal_strlit("workdir_home");
    reveal_strlit("bootstrap");
    reveal_strlit("clone");
    reveal_strlit("os");
    reveal_strlit("users");
    reveal_strlit("hosts");
    lemma_keys_distinct_lits();
    assert("branch"@.len() == 6 && "remote"@.len() == 6 && "workdir_home"@.len() == 12
        && "bootstrap"@.len() == 9);
    assert("clone"@.len() == 5 && "os"@.len() == 2 && "users"@.len() == 5 && "hosts"@.len() == 5);
}

proof fn lemma_boot_strs(st: BootstrapView, vs: Seq<TomlNode>)
    requires
        all_strs(vs),
    ensures
        walk_values::<BootstrapSettings>(st, vs) == st,
    decreases vs.len(),
{
    if vs.len() > 0 {
        assert(vs.last() is Str);
        assert(all_strs(vs.drop_last()));
        lemma_boot_strs(st, vs.drop_last());
        assert(boot_item(st, vs.last()) == st);
    }
}

proof fn lemma_repo_strs(st: RepoView, vs: Seq<TomlNode>)
    requires
        all_strs(vs),
    ensures
        walk_values::<RepoSettings>(st, vs) == st,
    decreases vs.len(),
{
    if vs.len() > 0 {
        assert(vs.last() is Str);
        assert(all_strs(vs.drop_last()));
        lemma_repo_strs(st, vs.drop_last());
        assert(repo_item(st, vs.last()) == st);
    }
}

proof fn lemma_strs_lists_ok(vs: Seq<TomlNode>)
    requires
        all_strs(vs),
    ensures
        values_ok::<BootstrapSettings>(vs),
    decreases vs.len(),
{
    if vs.len() > 0 {
        assert(vs.last() is Str);
        assert(all_strs(vs.drop_last()));
        lemma_strs_lists_ok(vs.drop_last());
        assert(lists_ok(vs.last()));
    }
}

/// Law: reading a bootstrap key sets at most the one setting that the key
/// names and leaves every other setting as it was: `clone` takes the text of
/// a string item, `os` the system that a string names, `users` and `hosts`
/// the trimmed names of an array; an item of another type, or any other key,
/// sets nothing.
pub proof fn lemma_boot_set_sets_one(st: BootstrapView, k: Seq<char>, n: TomlNode)
    ensures
        ({
            let b = boot_set(st, k, n);
            &&& b.clone == if k == "clone"@ && n is Str {
                Some(n->Str_0)
            } else {
                st.clone
            }
            &&& b.os == if k == "os"@ && n is Str {
                Some(os_from_name(n->Str_0))
            } else {
                st.os
            }
            &&& b.users == if k == "users"@ && n is Array {
                Some(list_strs(n->Array_0))
            } else {
                st.users
            }
            &&& b.hosts == if k == "hosts"@ && n is Array {
                Some(list_strs(n->Array_0))
            } else {
                st.hosts
            }
        }),
{
    lemma_keys_distinct_lits();
}

/// Law: reading a repository key sets the one setting that the key names and
/// leaves every other setting as it was: `branch` and `remote` take the text
/// of a string item (the empty text for any other item), `workdir_home` the
/// value of a boolean item (`false` for any other item); any other key sets
/// nothing.
pub proof fn lemma_repo_set_sets_one(st: RepoView, k: Seq<char>, n: TomlNode)
    ensures
        ({
            let r = repo_set(st, k, n);
            let text = match n {
                TomlNode::Str(s) => s,
                _ => Seq::<char>::empty(),
            };
            let flag = match n {
                TomlNode::Bool(b) => b,
                _ => false,
            };
            &&& r.name == st.name
            &&& r.bootstrap == st.bootstrap
            &&& r.branch == if k == "branch"@ {
                text
            } else {
                st.branch
            }
            &&& r.remote == if k == "remote"@ {
                text
            } else {
                st.remote
            }
            &&& r.workdir_home == if k == "workdir_home"@ {
                flag
            } else {
                st.workdir_home
            }
        }),
{
    lemma_keys_distinct_lits();
}

/// A plain value: a string, a boolean, or another scalar.
pub open spec fn is_scalar(n: TomlNode) -> bool {
    n is Str || n is Bool || n is Other
}

/// Text of a setting stored under `k`: that of a string, the empty text for
/// any other item, `dflt` where nothing is stored.
pub open spec fn text_setting(es: Seq<(Seq<char>, TomlNode)>, k: Seq<char>, dflt: Seq<char>) -> Seq<
    char,
> {
    match entry_lookup(es, k) {
        Some(TomlNode::Str(s)) => s,
        Some(_) => Seq::empty(),
        None => dflt,
    }
}

/// Flag of a setting stored under `k`: that of a boolean, `false` for any
/// other item, `dflt` where nothing is stored.
pub open spec fn flag_setting(es: Seq<(Seq<char>, TomlNode)>, k: Seq<char>, dflt: bool) -> bool {
    match entry_lookup(es, k) {
        Some(TomlNode::Bool(b)) => b,
        Some(_) => false,
        None => dflt,
    }
}

/// What a lookup finds after one more pair with a new key.
proof fn lemma_lookup_push(es: Seq<(Seq<char>, TomlNode)>, e: (Seq<char>, TomlNode), k: Seq<char>)
    requires
        keys_distinct(es.push(e)),
    ensures
        keys_distinct(es),
        entry_lookup(es.push(e), k) == if e.0 == k {
            Some(e.1)
        } else {
            entry_lookup(es, k)
        },
{
    let t = es.push(e);
    assert(t.drop_last() =~= es);
    assert forall|i: int, j: int| 0 <= i < es.len() && 0 <= j < es.len() && i != j implies es[i].0
        != es[j].0 by {
        assert(t[i] == es[i] && t[j] == es[j]);
    }
    lemma_key_index(es, k);
    if e.0 == k {
        assert forall|i: int| 0 <= i < es.len() implies es[i].0 != k by {
            assert(t[i] == es[i] && t[es.len() as int] == e);
        }
    } else {
        if key_index(es, k) >= 0 {
            assert(t[key_index(es, k)] == es[key_index(es, k)]);
        }
    }
}

/// A walk over pairs of plain values sets each repository setting from the
/// pair stored under its key.
proof fn lemma_repo_kvs_scalars(st: RepoView, es: Seq<(Seq<char>, TomlNode)>)
    requires
        keys_distinct(es),
        forall|i: int| 0 <= i < es.len() ==> is_scalar(#[trigger] es[i].1),
    ensures
        ({
            let r = walk_kvs::<RepoSettings>(st, es);
            &&& r.name == st.name
            &&& r.bootstrap == st.bootstrap
            &&& r.branch == text_setting(es, "branch"@, st.branch)
            &&& r.remote == text_setting(es, "remote"@, st.remote)
            &&& r.workdir_home == flag_setting(es, "workdir_home"@, st.workdir_home)
        }),
    decreases es.len(),
{
    if es.len() > 0 {
        let d = es.drop_last();
        let e = es.last();
        assert(d.push(e) =~= es);
        lemma_lookup_push(d, e, "branch"@);
        lemma_lookup_push(d, e, "remote"@);
        lemma_lookup_push(d, e, "workdir_home"@);
        assert forall|i: int| 0 <= i < d.len() implies is_scalar(#[trigger] d[i].1) by {
            assert(es[i] == d[i]);
        }
        assert(is_scalar(es[es.len() - 1].1));
        lemma_repo_kvs_scalars(st, d);
        let prev = walk_kvs::<RepoSettings>(st, d);
        lemma_repo_set_sets_one(prev, e.0, e.1);
        lemma_more_distinct_lits();
        assert(walk_kvs::<RepoSettings>(st, es) == walk_kv::<RepoSettings>(prev, e));
    }
}

/// Law: the repository settings read from a table of plain values with
/// distinct keys are those stored under their keys, whatever the order of
/// the keys: `branch` and `remote` the text of a string, `workdir_home` the
/// value of a boolean; a setting that is missing or of another type takes
/// its default (the empty text, `false`).
pub proof fn lemma_repo_decode_by_key(name: Seq<char>, es: Seq<(Seq<char>, TomlNode)>)
    requires
        keys_distinct(es),
        forall|i: int| 0 <= i < es.len() ==> is_scalar(#[trigger] es[i].1),
    ensures
        ({
            let r = repo_decode(name, TomlNode::Table(es));
            &&& r.name == name
            &&& r.branch == text_setting(es, "branch"@, Seq::empty())
            &&& r.remote == text_setting(es, "remote"@, Seq::empty())
            &&& r.workdir_home == flag_setting(es, "workdir_home"@, false)
        }),
{
    lemma_repo_kvs_scalars(
        RepoView {
            name,
            branch: Seq::empty(),
            remote: Seq::empty(),
            workdir_home: false,
            bootstrap: None,
        },
        es,
    );
}

/// Settings `r` under the repository name `name`.
pub open spec fn repo_named(r: RepoView, name: Seq<char>) -> RepoView {
    RepoView { name, ..r }
}

proof fn lemma_repo_item_named(st: RepoView, name: Seq<char>, n: TomlNode)
    ensures
        repo_item(repo_named(st, name), n) == repo_named(repo_item(st, n), name),
    decreases n, 1int,
{
    match n {
        TomlNode::Array(vs) => lemma_repo_values_named(st, name, vs),
        TomlNode::Inline(es) => lemma_repo_kvs_named(st, name, es),
        TomlNode::Table(es) => lemma_repo_kvs_named(st, name, es),
        TomlNode::TableArray(ts) => lemma_repo_tables_named(st, name, ts),
        _ => {},
    }
}

proof fn lemma_repo_values_named(st: RepoView, name: Seq<char>, vs: Seq<TomlNode>)
    ensures
        walk_values::<RepoSettings>(repo_named(st, name), vs) == repo_named(walk_values::<RepoSettings>(st, vs), name),
    decreases vs, 2int,
{
    if vs.len() > 0 {
        lemma_repo_values_named(st, name, vs.drop_last());
        lemma_repo_item_named(walk_values::<RepoSettings>(st, vs.drop_last()), name, vs.last());
    }
}

proof fn lemma_repo_kvs_named(st: RepoView, name: Seq<char>, es: Seq<(Seq<char>, TomlNode)>)
    ensures
        repo_kvs(repo_named(st, name), es) == repo_named(repo_kvs(st, es), name),
    decreases es, 2int,
{
    if es.len() > 0 {
        lemma_repo_kvs_named(st, name, es.drop_last());
        lemma_repo_kv_named(repo_kvs(st, es.drop_last()), name, es.last());
    }
}

proof fn lemma_repo_kv_named(st: RepoView, name: Seq<char>, e: (Seq<char>, TomlNode))
    ensures
        repo_kv(repo_named(st, name), e) == repo_named(repo_kv(st, e), name),
    decreases e, 3int,
{
    if is_repo_key(e.0) {
        assert(repo_set(repo_named(st, name), e.0, e.1) == repo_named(repo_set(st, e.0, e.1), name));
        lemma_repo_item_named(repo_set(st, e.0, e.1), name, e.1);
    } else {
        lemma_repo_item_named(st, name, e.1);
        lemma_repo_item_named(repo_item(st, e.1), name, e.1);
    }
}

proof fn lemma_repo_tables_named(
    st: RepoView,
    name: Seq<char>,
    ts: Seq<Seq<(Seq<char>, TomlNode)>>,
)
    ensures
        walk_tables::<RepoSettings>(repo_named(st, name), ts) == repo_named(walk_tables::<RepoSettings>(st, ts), name),
    decreases ts, 2int,
{
    if ts.len() > 0 {
        lemma_repo_tables_named(st, name, ts.drop_last());
        lemma_repo_kvs_named(walk_tables::<RepoSettings>(st, ts.drop_last()), name, ts.last());
    }
}

/// The settings read from an item under one name are those read under
/// another, but for the name.
pub proof fn lemma_repo_decode_named(k: Seq<char>, name: Seq<char>, n: TomlNode)
    ensures
        repo_decode(name, n) == repo_named(repo_decode(k, n), name),
{
    let base = RepoView {
        name: k,
        branch: Seq::empty(),
        remote: Seq::empty(),
        workdir_home: false,
        bootstrap: None,
    };
    assert(repo_named(base, name) == RepoView {
        name,
        branch: Seq::empty(),
        remote: Seq::empty(),
        workdir_home: false,
        bootstrap: None,
    });
    lemma_repo_item_named(base, name, n);
}

/// Bootstrap settings `st` overridden by every setting that `b` sets.
pub open spec fn boot_over(st: BootstrapView, b: BootstrapView) -> BootstrapView {
    BootstrapView {
        clone: if b.clone is Some { b.clone } else { st.clone },
        os: if b.os is Some { b.os } else { st.os },
        users: if b.users is Some { b.users } else { st.users },
        hosts: if b.hosts is Some { b.hosts } else { st.hosts },
    }
}

/// Reading the bootstrap table sets exactly what it holds.
proof fn lemma_boot_entries_read(st: BootstrapView, b: BootstrapView)
    requires
        boot_names_ok(b),
    ensures
        boot_kvs(st, boot_entries(b)) == boot_over(st, b),
        kvs_lists_ok(boot_entries(b)),
        repo_kvs_identity(boot_entries(b)),
{
    lemma_keys_distinct_lits();
    lemma_more_distinct_lits();
    let e0 = Seq::<(Seq<char>, TomlNode)>::empty();
    let e1 = match b.clone {
        Some(c) => e0.push(("clone"@, TomlNode::Str(c))),
        None => e0,
    };
    let e2 = match b.os {
        Some(o) => e1.push(("os"@, TomlNode::Str(os_name(o)))),
        None => e1,
    };
    let e3 = match b.users {
        Some(u) => e2.push(("users"@, TomlNode::Array(str_nodes(u)))),
        None => e2,
    };
    let e4 = match b.hosts {
        Some(h) => e3.push(("hosts"@, TomlNode::Array(str_nodes(h)))),
        None => e3,
    };
    let s1 = BootstrapView { clone: if b.clone is Some { b.clone } else { st.clone }, ..st };
    let s2 = BootstrapView { os: if b.os is Some { b.os } else { st.os }, ..s1 };
    let s3 = BootstrapView { users: if b.users is Some { b.users } else { st.users }, ..s2 };
    let s4 = BootstrapView { hosts: if b.hosts is Some { b.hosts } else { st.hosts }, ..s3 };
    if let Some(c) = b.clone {
        lemma_walk_kvs_push::<BootstrapSettings>(st, e0, ("clone"@, TomlNode::Str(c)));
        lemma_walk_kvs_push::<BootstrapSettings>(boot_empty(), e0, ("clone"@, TomlNode::Str(c)));
    }
    assert(boot_kvs(st, e1) == s1);
    assert(kvs_lists_ok(e1));
    if let Some(o) = b.os {
        lemma_walk_kvs_push::<BootstrapSettings>(st, e1, ("os"@, TomlNode::Str(os_name(o))));
        lemma_walk_kvs_push::<BootstrapSettings>(boot_empty(), e1, ("os"@, TomlNode::Str(os_name(o))));
        lemma_os_name_roundtrip(o);
    }
    assert(boot_kvs(st, e2) == s2);
    assert(kvs_lists_ok(e2));
    if let Some(u) = b.users {
        lemma_list_strs_roundtrip(u);
        lemma_boot_strs(boot_set(s2, "users"@, TomlNode::Array(str_nodes(u))), str_nodes(u));
        lemma_walk_kvs_push::<BootstrapSettings>(st, e2, ("users"@, TomlNode::Array(str_nodes(u))));
        lemma_strs_lists_ok(str_nodes(u));
        lemma_walk_kvs_push::<BootstrapSettings>(boot_empty(), e2, ("users"@, TomlNode::Array(str_nodes(u))));
    }
    assert(boot_kvs(st, e3) == s3);
    assert(kvs_lists_ok(e3));
    if let Some(h) = b.hosts {
        lemma_list_strs_roundtrip(h);
        lemma_boot_strs(boot_set(s3, "hosts"@, TomlNode::Array(str_nodes(h))), str_nodes(h));
        lemma_walk_kvs_push::<BootstrapSettings>(st, e3, ("hosts"@, TomlNode::Array(str_nodes(h))));
        lemma_strs_lists_ok(str_nodes(h));
        lemma_walk_kvs_push::<BootstrapSettings>(boot_empty(), e3, ("hosts"@, TomlNode::Array(str_nodes(h))));
    }
    assert(boot_kvs(st, e4) == s4);
    assert(kvs_lists_ok(e4));
    lemma_repo_reads_nothing_in_boot(b);
}

/// Reading repository settings from a table changes nothing.
pub open spec fn repo_kvs_identity(es: Seq<(Seq<char>, TomlNode)>) -> bool {
    forall|st: RepoView| #[trigger] repo_kvs(st, es) == st
}

proof fn lemma_repo_reads_nothing_in_boot(b: BootstrapView)
    requires
        boot_names_ok(b),
    ensures
        repo_kvs_identity(boot_entries(b)),
{
    lemma_more_distinct_lits();
    let e0 = Seq::<(Seq<char>, TomlNode)>::empty();
    let e1 = match b.clone {
        Some(c) => e0.push(("clone"@, TomlNode::Str(c))),
        None => e0,
    };
    let e2 = match b.os {
        Some(o) => e1.push(("os"@, TomlNode::Str(os_name(o)))),
        None => e1,
    };
    let e3 = match b.users {
        Some(u) => e2.push(("users"@, TomlNode::Array(str_nodes(u)))),
        None => e2,
    };
    assert forall|st: RepoView| #[trigger] repo_kvs(st, boot_entries(b)) == st by {
        if let Some(c) = b.clone {
            lemma_walk_kvs_push::<RepoSettings>(st, e0, ("clone"@, TomlNode::Str(c)));
        }
        assert(repo_kvs(st, e1) == st);
        if let Some(o) = b.os {
            lemma_walk_kvs_push::<RepoSettings>(st, e1, ("os"@, TomlNode::Str(os_name(o))));
        }
        assert(repo_kvs(st, e2) == st);
        if let Some(u) = b.users {
            lemma_list_strs_roundtrip(u);
            lemma_repo_strs(st, str_nodes(u));
            lemma_walk_kvs_push::<RepoSettings>(st, e2, ("users"@, TomlNode::Array(str_nodes(u))));
        }
        assert(repo_kvs(st, e3) == st);
        if let Some(h) = b.hosts {
            lemma_list_strs_roundtrip(h);
            lemma_repo_strs(st, str_nodes(h));
            lemma_walk_kvs_push::<RepoSettings>(st, e3, ("hosts"@, TomlNode::Array(str_nodes(h))));
        }
    }
}

/// Law: repository settings written as a TOML entry read back as the same
/// settings, where the bootstrap settings, if given, set something and
/// their listed names have no quote character at either end. Reading the
/// written entry is always defined.
pub proof fn lemma_repo_roundtrip(r: RepoView)
    requires
        r.bootstrap != Some(boot_empty()),
        r.bootstrap matches Some(b) ==> boot_names_ok(b),
    ensures
        lists_ok(TomlNode::Table(repo_entries(r))),
        repo_decode(r.name, TomlNode::Table(repo_entries(r))) == r,
{
    lemma_keys_distinct_lits();
    lemma_more_distinct_lits();
    let e1 = seq![("branch"@, TomlNode::Str(r.branch))];
    let e2 = e1.push(("remote"@, TomlNode::Str(r.remote)));
    let e3 = e2.push(("workdir_home"@, TomlNode::Bool(r.workdir_home)));
    assert(seq![
        ("branch"@, TomlNode::Str(r.branch)),
        ("remote"@, TomlNode::Str(r.remote)),
        ("workdir_home"@, TomlNode::Bool(r.workdir_home)),
    ] =~= e3);
    let e0 = Seq::<(Seq<char>, TomlNode)>::empty();
    assert(e1 =~= e0.push(("branch"@, TomlNode::Str(r.branch))));
    let init = RepoView {
        name: r.name,
        branch: Seq::empty(),
        remote: Seq::empty(),
        workdir_home: false,
        bootstrap: None,
    };
    // bootstrap walk over the scalar settings
    lemma_walk_kvs_push::<BootstrapSettings>(boot_empty(), e0, ("branch"@, TomlNode::Str(r.branch)));
    lemma_walk_kvs_push::<BootstrapSettings>(boot_empty(), e1, ("remote"@, TomlNode::Str(r.remote)));
    lemma_walk_kvs_push::<BootstrapSettings>(boot_empty(), e2, ("workdir_home"@, TomlNode::Bool(r.workdir_home)));
    assert(boot_kvs(boot_empty(), e3) == boot_empty());
    // repository walk over the scalar settings
    lemma_walk_kvs_push::<RepoSettings>(init, e0, ("branch"@, TomlNode::Str(r.branch)));
    let r1 = RepoView { branch: r.branch, ..init };
    lemma_walk_kvs_push::<RepoSettings>(init, e1, ("remote"@, TomlNode::Str(r.remote)));
    let r2 = RepoView { remote: r.remote, ..r1 };
    lemma_walk_kvs_push::<RepoSettings>(init, e2, ("workdir_home"@, TomlNode::Bool(r.workdir_home)));
    let r3 = RepoView { workdir_home: r.workdir_home, ..r2 };
    assert(repo_kvs(init, e3) == r3);
    lemma_walk_kvs_push::<BootstrapSettings>(boot_empty(), e0, ("branch"@, TomlNode::Str(r.branch)));
    lemma_walk_kvs_push::<BootstrapSettings>(boot_empty(), e1, ("remote"@, TomlNode::Str(r.remote)));
    lemma_walk_kvs_push::<BootstrapSettings>(boot_empty(), e2, ("workdir_home"@, TomlNode::Bool(r.workdir_home)));
    assert(kvs_lists_ok(e3));
    match r.bootstrap {
        None => {
            assert(repo_entries(r) == e3);
        },
        Some(b) => {
            let be = ("bootstrap"@, TomlNode::Table(boot_entries(b)));
            assert(repo_entries(r) == e3.push(be));
            lemma_boot_entries_read(boot_empty(), b);
            lemma_boot_entries_read(b, b);
            assert(boot_over(boot_empty(), b) == b);
            assert(boot_over(b, b) == b);
            lemma_walk_kvs_push::<BootstrapSettings>(boot_empty(), e3, be);
            lemma_walk_kvs_push::<RepoSettings>(init, e3, be);
            assert(repo_kvs(r3, boot_entries(b)) == r3);
            lemma_walk_kvs_push::<BootstrapSettings>(boot_empty(), e3, be);
        },
    }
}

/// Law: command hook settings written as a TOML entry read back as the
/// same hook definitions, in the same order.
pub proof fn lemma_cmd_hook_roundtrip(hs: Seq<HookView>)
    ensures
        hooks_item(Seq::empty(), TomlNode::Array(hook_nodes(hs))) == hs,
    decreases hs.len(),
{
    lemma_hooks_values_roundtrip(hs);
}

proof fn lemma_hooks_values_roundtrip(hs: Seq<HookView>)
    ensures
        hooks_values(Seq::empty(), hook_nodes(hs)) == hs,
    decreases hs.len(),
{
    if hs.len() > 0 {
        let d = hs.drop_last();
        lemma_hooks_values_roundtrip(d);
        assert(hook_nodes(hs).drop_last() =~= hook_nodes(d));
        let h = hs.last();
        assert(hook_nodes(hs).last() == TomlNode::Inline(hook_entries(h)));
        lemma_hook_read(d, h);
        assert(d.push(h) =~= hs);
    }
}

/// Reading the inline table of a hook definition gives the definition.
proof fn lemma_hook_read(prev: Seq<HookView>, h: HookView)
    ensures
        hooks_item(prev, TomlNode::Inline(hook_entries(h))) == prev.push(h),
{
    lemma_keys_distinct_lits();
    let es = hook_entries(h);
    let e0 = Seq::<(Seq<char>, TomlNode)>::empty();
    let e1 = match h.pre {
        Some(p) => e0.push(("pre"@, TomlNode::Str(p))),
        None => e0,
    };
    let e2 = match h.post {
        Some(p) => e1.push(("post"@, TomlNode::Str(p))),
        None => e1,
    };
    reveal_with_fuel(key_index, 4);
    assert(hook_of(es) == h);
    let hs = prev.push(h);
    if let Some(p) = h.pre {
        assert(e1.drop_last() =~= e0);
        assert(hooks_kvs(hs, e0) == hs);
        assert(hooks_item(hs, TomlNode::Str(p)) == hs);
        assert(hooks_kv(hs, ("pre"@, TomlNode::Str(p))) == hs);
    }
    assert(hooks_kvs(hs, e1) == hs);
    if let Some(p) = h.post {
        assert(e2.drop_last() =~= e1);
        assert(hooks_item(hs, TomlNode::Str(p)) == hs);
        assert(hooks_kv(hs, ("post"@, TomlNode::Str(p))) == hs);
    }
    assert(hooks_kvs(hs, e2) == hs);
    if let Some(w) = h.workdir {
        assert(es.drop_last() =~= e2);
        assert(hooks_item(hs, TomlNode::Str(w)) == hs);
        assert(hooks_kv(hs, ("workdir"@, TomlNode::Str(w))) == hs);
    }
    assert(hooks_kvs(hs, es) == hs);
}


/// The array of a command's hook definitions is well formed.
pub proof fn lemma_hook_nodes_wf(hs: Seq<HookView>)
    ensures
        node_wf(TomlNode::Array(hook_nodes(hs))),
    decreases hs.len(),
{
    if hs.len() > 0 {
        lemma_hook_nodes_wf(hs.drop_last());
        lemma_hook_entries_wf(hs.last());
        assert(hook_nodes(hs) =~= hook_nodes(hs.drop_last()).push(
            TomlNode::Inline(hook_entries(hs.last())),
        ));
        lemma_values_wf_push(
            hook_nodes(hs.drop_last()),
            TomlNode::Inline(hook_entries(hs.last())),
        );
    } else {
        assert(hook_nodes(hs) =~= Seq::<TomlNode>::empty());
    }
}

} // verus!

verus! {

/// Whether every element of a list is a string.
fn all_strings(v: &Vec<TomlItem>) -> (res: bool)
    ensures
        res == all_strs(nodes_of(v@)),
{
    proof {
        lemma_nodes_of(v@);
    }
    let mut i: usize = 0;
    while i < v.len()
        invariant
            i <= v.len(),
            nodes_of(v@).len() == v.len(),
            forall|j: int| 0 <= j < v.len() ==> #[trigger] nodes_of(v@)[j] == node_of(v@[j]),
            forall|j: int| 0 <= j < i ==> nodes_of(v@)[j] is Str,
        decreases v.len() - i,
    {
        match &v[i] {
            TomlItem::Str(_) => {},
            _ => {
                assert(!(nodes_of(v@)[i as int] is Str));
                return false;
            },
        }
        i = i + 1;
    }
    true
}

/// Whether repository settings can be read from an item (see
/// [`lists_ok`]).
pub fn readable(item: &TomlItem) -> (res: bool)
    ensures
        res == lists_ok(item@),
    decreases item, 1int,
{
    match item {
        TomlItem::Array(v) => {
            let ghost vs = nodes_of(v@);
            proof {
                lemma_nodes_of(v@);
                assert(vs.take(0) =~= Seq::<TomlNode>::empty());
            }
            let mut ok = true;
            let mut i: usize = 0;
            while i < v.len()
                invariant
                    i <= v.len(),
                    *item == TomlItem::Array(*v),
                    vs == nodes_of(v@),
                    vs.len() == v.len(),
                    forall|j: int| 0 <= j < v.len() ==> #[trigger] vs[j] == node_of(v@[j]),
                    ok == values_ok::<BootstrapSettings>(vs.take(i as int)),
                decreases v.len() - i,
            {
                proof {
                    assert(decreases_to!(*item => (*item)->Array_0));
                    assert(decreases_to!(v => v@));
                    assert(decreases_to!(v@ => v@[i as int]));
                    assert(vs[i as int] == node_of(v@[i as int]));
                    assert(vs.take(i + 1).drop_last() =~= vs.take(i as int));
                }
                let r = readable(&v[i]);
                ok = ok && r;
                i = i + 1;
            }
            assert(vs.take(v.len() as int) =~= vs);
            ok
        },
        TomlItem::Inline(es, _) => readable_entries(es),
        TomlItem::Table(es) => readable_entries(es),
        TomlItem::TableArray(ts) => {
            let ghost tv = tables_of(ts@);
            proof {
                lemma_tables_of(ts@);
                assert(tv.take(0) =~= Seq::<Seq<(Seq<char>, TomlNode)>>::empty());
            }
            let mut ok = true;
            let mut i: usize = 0;
            while i < ts.len()
                invariant
                    i <= ts.len(),
                    *item == TomlItem::TableArray(*ts),
                    tv == tables_of(ts@),
                    tv.len() == ts.len(),
                    forall|j: int| 0 <= j < ts.len() ==> #[trigger] tv[j] == entries_of(ts@[j]@),
                    ok == tables_ok::<BootstrapSettings>(tv.take(i as int)),
                decreases ts.len() - i,
            {
                proof {
                    assert(decreases_to!(*item => (*item)->TableArray_0));
                    assert(decreases_to!(ts => ts@));
                    assert(decreases_to!(ts@ => ts@[i as int]));
                    assert(tv[i as int] == entries_of(ts@[i as int]@));
                    assert(tv.take(i + 1).drop_last() =~= tv.take(i as int));
                }
                let r = readable_entries(&ts[i]);
                ok = ok && r;
                i = i + 1;
            }
            assert(tv.take(ts.len() as int) =~= tv);
            ok
        },
        _ => true,
    }
}

/// Whether repository settings can be read from the pairs of a table.
fn readable_entries(es: &Vec<TomlEntry>) -> (res: bool)
    ensures
        res == kvs_lists_ok(entries_of(es@)),
    decreases es, 2int,
{
    let ghost ev = entries_of(es@);
    proof {
        lemma_entries_of(es@);
        assert(ev.take(0) =~= Seq::<(Seq<char>, TomlNode)>::empty());
    }
    let mut ok = true;
    let mut i: usize = 0;
    while i < es.len()
        invariant
            i <= es.len(),
            ev == entries_of(es@),
            ev.len() == es.len(),
            forall|j: int|
                0 <= j < es.len() ==> #[trigger] ev[j] == (es@[j].key@, node_of(es@[j].item)),
            ok == kvs_lists_ok(ev.take(i as int)),
        decreases es.len() - i,
    {
        proof {
            assert(decreases_to!(es => es@));
            assert(decreases_to!(es@ => es@[i as int]));
            assert(decreases_to!(es@[i as int] => es@[i as int].item));
            assert(ev[i as int] == (es@[i as int].key@, node_of(es@[i as int].item)));
            assert(ev.take(i + 1).drop_last() =~= ev.take(i as int));
            reveal_strlit("users");
            reveal_strlit("hosts");
        }
        let k = es[i].key.as_str();
        let list_ok = if str_eq(k, "users") || str_eq(k, "hosts") {
            match &es[i].item {
                TomlItem::Array(v) => all_strings(v),
                _ => true,
            }
        } else {
            true
        };
        let r = readable(&es[i].item);
        assert(kv_lists_ok(ev[i as int]) == (list_ok && r));
        assert(kvs_lists_ok(ev.take(i + 1)) == (kvs_lists_ok(ev.take(i as int)) && kv_lists_ok(
            ev[i as int],
        )));
        ok = ok && list_ok && r;
        i = i + 1;
    }
    assert(ev.take(es.len() as int) =~= ev);
    ok
}

} // verus!
