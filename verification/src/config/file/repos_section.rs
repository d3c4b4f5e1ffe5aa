//! Repository entries of the `repos` section.
//!
//! A repository entry is a table of the repository's branch, remote and URL,
//! with an inline table saying on which targets the repository is used.

use vstd::prelude::*;

use crate::config::settings::{bool_or_false, opt_str, str_or_empty};
use crate::text::str_eq;
use crate::tree::{
    entries_of, lemma_entries_wf_intro, node_of, node_wf, Decor,
    TomlEntry, TomlItem, TomlNode,
};
use crate::walk::{
    lemma_walk_kvs_push, walk, walk_item, walk_kvs, KvVisitor,
};

verus! {

/// Target operating system of a repository.
#[derive(Debug, Clone, Copy, PartialEq, Eq, Structural)]
pub enum TargetOsOption {
    Any,
    Unix,
    MacOs,
    Windows,
}

impl Default for TargetOsOption {
    fn default() -> (res: Self)
        ensures
            res == TargetOsOption::Any,
    {
        TargetOsOption::Any
    }
}

/// Name of a target operating system as written in a configuration file.
pub open spec fn target_os_name(os: TargetOsOption) -> Seq<char> {
    match os {
        TargetOsOption::Any => "any"@,
        TargetOsOption::Unix => "unix"@,
        TargetOsOption::MacOs => "macos"@,
        TargetOsOption::Windows => "windows"@,
    }
}

/// Target operating system named by a text; any unknown name means any
/// operating system.
pub open spec fn target_os_from_name(name: Seq<char>) -> TargetOsOption {
    if name == "unix"@ {
        TargetOsOption::Unix
    } else if name == "macos"@ {
        TargetOsOption::MacOs
    } else if name == "windows"@ {
        TargetOsOption::Windows
    } else {
        TargetOsOption::Any
    }
}

impl TargetOsOption {
    /// Target operating system named by `data`.
    pub fn from(data: &str) -> (res: TargetOsOption)
        ensures
            res == target_os_from_name(data@),
    {
        if str_eq(data, "unix") {
            TargetOsOption::Unix
        } else if str_eq(data, "macos") {
            TargetOsOption::MacOs
        } else if str_eq(data, "windows") {
            TargetOsOption::Windows
        } else {
            TargetOsOption::Any
        }
    }

    /// Name of the target as written in a configuration file.
    pub fn to_string(&self) -> (res: String)
        ensures
            res@ == target_os_name(*self),
    {
        match self {
            TargetOsOption::Any => "any".to_owned(),
            TargetOsOption::Unix => "unix".to_owned(),
            TargetOsOption::MacOs => "macos".to_owned(),
            TargetOsOption::Windows => "windows".to_owned(),
        }
    }
}

/// Law: reading back the name of a target operating system gives the
/// target.
pub proof fn lemma_target_os_roundtrip(os: TargetOsOption)
    ensures
        target_os_from_name(target_os_name(os)) == os,
{
    reveal_strlit("any");
    reveal_strlit("unix");
    reveal_strlit("macos");
    reveal_strlit("windows");
    assert("any"@.len() == 3 && "unix"@.len() == 4 && "macos"@.len() == 5 && "windows"@.len()
        == 7);
}

/// Model of a [`RepoTargetEntry`].
pub struct TargetView {
    pub home: bool,
    pub os: TargetOsOption,
    pub user: Option<Seq<char>>,
    pub hostname: Option<Seq<char>>,
}

/// Model of a [`RepoEntry`].
pub struct RepoEntryView {
    pub name: Seq<char>,
    pub branch: Seq<char>,
    pub remote: Seq<char>,
    pub url: Seq<char>,
    pub target: TargetView,
}

/// Repository entry.
#[derive(Debug, PartialEq, Eq)]
pub struct RepoEntry {
    pub name: String,
    pub branch: String,
    pub remote: String,
    pub url: String,
    pub target: RepoTargetEntry,
}

/// Targets a repository is used on.
#[derive(Debug, PartialEq, Eq)]
pub struct RepoTargetEntry {
    /// Whether the repository's working directory is the home directory.
    pub home: bool,
    pub os: TargetOsOption,
    pub user: Option<String>,
    pub hostname: Option<String>,
}

/// Builder of a [`RepoEntry`].
#[derive(Debug)]
pub struct RepoEntryBuilder {
    name: String,
    branch: String,
    remote: String,
    url: String,
    target: RepoTargetEntry,
}

/// Builder of a [`RepoTargetEntry`].
#[derive(Debug, PartialEq, Eq)]
pub struct RepoTargetEntryBuilder {
    home: bool,
    os: TargetOsOption,
    user: Option<String>,
    hostname: Option<String>,
}

impl View for RepoTargetEntry {
    type V = TargetView;

    open spec fn view(&self) -> TargetView {
        TargetView {
            home: self.home,
            os: self.os,
            user: opt_str(self.user),
            hostname: opt_str(self.hostname),
        }
    }
}

impl View for RepoEntry {
    type V = RepoEntryView;

    open spec fn view(&self) -> RepoEntryView {
        RepoEntryView {
            name: self.name@,
            branch: self.branch@,
            remote: self.remote@,
            url: self.url@,
            target: self.target@,
        }
    }
}

impl View for RepoEntryBuilder {
    type V = RepoEntryView;

    closed spec fn view(&self) -> RepoEntryView {
        RepoEntryView {
            name: self.name@,
            branch: self.branch@,
            remote: self.remote@,
            url: self.url@,
            target: self.target@,
        }
    }
}

impl View for RepoTargetEntryBuilder {
    type V = TargetView;

    closed spec fn view(&self) -> TargetView {
        TargetView {
            home: self.home,
            os: self.os,
            user: opt_str(self.user),
            hostname: opt_str(self.hostname),
        }
    }
}

/// Target with the working directory not the home directory, any operating
/// system, and no user or host.
pub open spec fn target_default() -> TargetView {
    TargetView { home: false, os: TargetOsOption::Any, user: None, hostname: None }
}

impl RepoEntry {
    pub fn builder(name: &str) -> (res: RepoEntryBuilder)
        ensures
            res@ == (RepoEntryView {
                name: name@,
                branch: Seq::empty(),
                remote: Seq::empty(),
                url: Seq::empty(),
                target: target_default(),
            }),
    {
        RepoEntryBuilder::new(name)
    }
}

impl RepoEntryBuilder {
    pub fn new(name: &str) -> (res: Self)
        ensures
            res@ == (RepoEntryView {
                name: name@,
                branch: Seq::empty(),
                remote: Seq::empty(),
                url: Seq::empty(),
                target: target_default(),
            }),
    {
        RepoEntryBuilder {
            name: name.to_owned(),
            branch: String::new(),
            remote: String::new(),
            url: String::new(),
            target: RepoTargetEntry {
                home: false,
                os: TargetOsOption::Any,
                user: None,
                hostname: None,
            },
        }
    }

    pub fn branch(self, branch: &str) -> (res: Self)
        ensures
            res@ == (RepoEntryView { branch: branch@, ..self@ }),
    {
        RepoEntryBuilder { branch: branch.to_owned(), ..self }
    }

    pub fn remote(self, remote: &str) -> (res: Self)
        ensures
            res@ == (RepoEntryView { remote: remote@, ..self@ }),
    {
        RepoEntryBuilder { remote: remote.to_owned(), ..self }
    }

    pub fn url(self, url: &str) -> (res: Self)
        ensures
            res@ == (RepoEntryView { url: url@, ..self@ }),
    {
        RepoEntryBuilder { url: url.to_owned(), ..self }
    }

    pub fn target(self, target: RepoTargetEntry) -> (res: Self)
        ensures
            res@ == (RepoEntryView { target: target@, ..self@ }),
    {
        RepoEntryBuilder { target, ..self }
    }

    /// The entry built. Name, branch, remote and URL must all be given.
    pub fn build(self) -> (res: RepoEntry)
        requires
            self@.name.len() > 0,
            self@.branch.len() > 0,
            self@.remote.len() > 0,
            self@.url.len() > 0,
        ensures
            res@ == self@,
    {
        RepoEntry {
            name: self.name,
            branch: self.branch,
            remote: self.remote,
            url: self.url,
            target: self.target,
        }
    }
}

impl RepoTargetEntry {
    pub fn builder() -> (res: RepoTargetEntryBuilder)
        ensures
            res@ == target_default(),
    {
        RepoTargetEntryBuilder::new()
    }
}

impl RepoTargetEntryBuilder {
    pub fn new() -> (res: Self)
        ensures
            res@ == target_default(),
    {
        RepoTargetEntryBuilder { home: false, os: TargetOsOption::Any, user: None, hostname: None }
    }

    pub fn home(self, home: bool) -> (res: Self)
        ensures
            res@ == (TargetView { home, ..self@ }),
    {
        RepoTargetEntryBuilder { home, ..self }
    }

    pub fn os(self, os: TargetOsOption) -> (res: Self)
        ensures
            res@ == (TargetView { os, ..self@ }),
    {
        RepoTargetEntryBuilder { os, ..self }
    }

    pub fn user(self, user: Option<&str>) -> (res: Self)
        ensures
            res@ == (TargetView {
                user: match user {
                    Some(u) => Some(u@),
                    None => None,
                },
                ..self@
            }),
    {
        let user = match user {
            Some(u) => Some(u.to_owned()),
            None => None,
        };
        RepoTargetEntryBuilder { user, ..self }
    }

    pub fn hostname(self, hostname: Option<&str>) -> (res: Self)
        ensures
            res@ == (TargetView {
                hostname: match hostname {
                    Some(h) => Some(h@),
                    None => None,
                },
                ..self@
            }),
    {
        let hostname = match hostname {
            Some(h) => Some(h.to_owned()),
            None => None,
        };
        RepoTargetEntryBuilder { hostname, ..self }
    }

    pub fn build(self) -> (res: RepoTargetEntry)
        ensures
            res@ == self@,
    {
        RepoTargetEntry { home: self.home, os: self.os, user: self.user, hostname: self.hostname }
    }
}

/// Text of a string item, if it is one.
pub open spec fn node_str(n: TomlNode) -> Option<Seq<char>> {
    match n {
        TomlNode::Str(s) => Some(s),
        _ => None,
    }
}

fn item_str(item: &TomlItem) -> (res: Option<String>)
    ensures
        opt_str(res) == node_str(item@),
{
    match item {
        TomlItem::Str(s) => Some(s.clone()),
        _ => None,
    }
}

impl KvVisitor for RepoEntryBuilder {
    type St = RepoEntryView;

    closed spec fn st(&self) -> RepoEntryView {
        self@
    }

    open spec fn reads(k: Seq<char>) -> bool {
        k == "branch"@ || k == "remote"@ || k == "url"@
    }

    open spec fn set(st: RepoEntryView, k: Seq<char>, n: TomlNode) -> RepoEntryView {
        if k == "branch"@ {
            RepoEntryView { branch: str_or_empty(n), ..st }
        } else if k == "remote"@ {
            RepoEntryView { remote: str_or_empty(n), ..st }
        } else {
            RepoEntryView { url: str_or_empty(n), ..st }
        }
    }

    open spec fn set_ok(k: Seq<char>, n: TomlNode) -> bool {
        true
    }

    fn reads_key(k: &str) -> (res: bool) {
        str_eq(k, "branch") || str_eq(k, "remote") || str_eq(k, "url")
    }

    fn set_from(&mut self, k: &str, item: &TomlItem) {
        let s = match item_str(item) {
            Some(s) => s,
            None => String::new(),
        };
        if str_eq(k, "branch") {
            self.branch = s;
        } else if str_eq(k, "remote") {
            self.remote = s;
        } else {
            self.url = s;
        }
    }
}

impl KvVisitor for RepoTargetEntryBuilder {
    type St = TargetView;

    closed spec fn st(&self) -> TargetView {
        self@
    }

    open spec fn reads(k: Seq<char>) -> bool {
        k == "home"@ || k == "os"@ || k == "user"@ || k == "hostname"@
    }

    open spec fn set(st: TargetView, k: Seq<char>, n: TomlNode) -> TargetView {
        if k == "home"@ {
            TargetView { home: bool_or_false(n), ..st }
        } else if k == "os"@ {
            TargetView { os: target_os_from_name(str_or_empty(n)), ..st }
        } else if k == "user"@ {
            TargetView { user: node_str(n), ..st }
        } else {
            TargetView { hostname: node_str(n), ..st }
        }
    }

    open spec fn set_ok(k: Seq<char>, n: TomlNode) -> bool {
        true
    }

    fn reads_key(k: &str) -> (res: bool) {
        str_eq(k, "home") || str_eq(k, "os") || str_eq(k, "user") || str_eq(k, "hostname")
    }

    fn set_from(&mut self, k: &str, item: &TomlItem) {
        proof {
            reveal_strlit("");
            assert(""@ =~= Seq::<char>::empty());
        }
        if str_eq(k, "home") {
            self.home = match item {
                TomlItem::Bool(b) => *b,
                _ => false,
            };
        } else if str_eq(k, "os") {
            let os = match item {
                TomlItem::Str(s) => TargetOsOption::from(s.as_str()),
                _ => TargetOsOption::from(""),
            };
            self.os = os;
        } else if str_eq(k, "user") {
            self.user = item_str(item);
        } else {
            self.hostname = item_str(item);
        }
    }
}

/// Entries of the inline table of a target: `home`, `os`, then `user` and
/// `hostname` where they are given.
pub open spec fn target_entries(t: TargetView) -> Seq<(Seq<char>, TomlNode)> {
    let e2 = seq![("home"@, TomlNode::Bool(t.home)), ("os"@, TomlNode::Str(target_os_name(t.os)))];
    let e3 = match t.user {
        Some(u) => e2.push(("user"@, TomlNode::Str(u))),
        None => e2,
    };
    match t.hostname {
        Some(h) => e3.push(("hostname"@, TomlNode::Str(h))),
        None => e3,
    }
}

/// Entries of the table of a repository entry: `branch`, `remote`, `url`
/// and the inline table `target`.
pub open spec fn repo_entry_entries(r: RepoEntryView) -> Seq<(Seq<char>, TomlNode)> {
    seq![
        ("branch"@, TomlNode::Str(r.branch)),
        ("remote"@, TomlNode::Str(r.remote)),
        ("url"@, TomlNode::Str(r.url)),
        ("target"@, TomlNode::Inline(target_entries(r.target))),
    ]
}

/// Repository entry of repository `name` read from its item.
pub open spec fn repo_entry_decode(name: Seq<char>, n: TomlNode) -> RepoEntryView {
    let r = walk_item::<RepoEntryBuilder>(
        RepoEntryView {
            name,
            branch: Seq::empty(),
            remote: Seq::empty(),
            url: Seq::empty(),
            target: target_default(),
        },
        n,
    );
    RepoEntryView {
        name,
        branch: r.branch,
        remote: r.remote,
        url: r.url,
        target: walk_item::<RepoTargetEntryBuilder>(target_default(), n),
    }
}

proof fn lemma_entry_lits()
    ensures
        "branch"@ != "remote"@,
        "branch"@ != "url"@,
        "branch"@ != "target"@,
        "remote"@ != "url"@,
        "remote"@ != "target"@,
        "url"@ != "target"@,
        "home"@ != "os"@,
        "home"@ != "user"@,
        "home"@ != "hostname"@,
        "os"@ != "user"@,
        "os"@ != "hostname"@,
        "user"@ != "hostname"@,
        !RepoEntryBuilder::reads("home"@),
        !RepoEntryBuilder::reads("os"@),
        !RepoEntryBuilder::reads("user"@),
        !RepoEntryBuilder::reads("hostname"@),
        !RepoEntryBuilder::reads("target"@),
        !RepoTargetEntryBuilder::reads("branch"@),
        !RepoTargetEntryBuilder::reads("remote"@),
        !RepoTargetEntryBuilder::reads("url"@),
        !RepoTargetEntryBuilder::reads("target"@),
{
    reveal_strlit("branch");
    reveal_strlit("remote");
    reveal_strlit("url");
    reveal_strlit("target");
    reveal_strlit("home");
    reveal_strlit("os");
    reveal_strlit("user");
    reveal_strlit("hostname");
    assert("branch"@[0] != "remote"@[0]);
    assert("branch"@[0] != "target"@[0]);
    assert("remote"@[0] != "target"@[0]);
    assert("home"@[0] != "user"@[0]);
    assert("user"@[0] != "hostname"@[0]);
    assert("branch"@.len() == 6 && "remote"@.len() == 6 && "url"@.len() == 3 && "target"@.len()
        == 6);
    assert("home"@.len() == 4 && "os"@.len() == 2 && "user"@.len() == 4 && "hostname"@.len()
        == 8);
    assert("home"@[0] != "branch"@[0] && "home"@[0] != "remote"@[0] && "home"@[0] != "target"@[0]);
    assert("user"@[0] != "branch"@[0] && "user"@[0] != "remote"@[0] && "user"@[0] != "target"@[0]);
    assert("user"@ != "url"@);
}

} // verus!

verus! {

proof fn lemma_push_entry(out: Seq<TomlEntry>, e: TomlEntry)
    ensures
        entries_of(out.push(e)) == entries_of(out).push((e.key@, node_of(e.item))),
{
    assert(out.push(e).drop_last() =~= out);
}

proof fn lemma_target_entries_wf(t: TargetView)
    ensures
        crate::tree::entries_wf(target_entries(t), true),
{
    lemma_entry_lits();
    lemma_entries_wf_intro(target_entries(t), true);
}

/// The table of a repository entry is well formed.
pub proof fn lemma_repo_entry_entries_wf(r: RepoEntryView)
    ensures
        crate::tree::entries_wf(repo_entry_entries(r), false),
{
    lemma_entry_lits();
    lemma_target_entries_wf(r.target);
    lemma_entries_wf_intro(repo_entry_entries(r), false);
}

impl RepoTargetEntry {
    /// Entries of the inline table of this target (see [`target_entries`]).
    fn to_entries(&self) -> (res: Vec<TomlEntry>)
        ensures
            entries_of(res@) == target_entries(self@),
    {
        let mut es: Vec<TomlEntry> = Vec::new();
        let ghost e0 = entries_of(es@);
        let e = TomlEntry { key: "home".to_owned(), item: TomlItem::Bool(self.home) };
        proof { lemma_push_entry(es@, e); }
        es.push(e);
        let e = TomlEntry { key: "os".to_owned(), item: TomlItem::Str(self.os.to_string()) };
        proof { lemma_push_entry(es@, e); }
        es.push(e);
        match &self.user {
            Some(u) => {
                let e = TomlEntry { key: "user".to_owned(), item: TomlItem::Str(u.clone()) };
                proof { lemma_push_entry(es@, e); }
                es.push(e);
            },
            None => {},
        }
        match &self.hostname {
            Some(h) => {
                let e = TomlEntry { key: "hostname".to_owned(), item: TomlItem::Str(h.clone()) };
                proof { lemma_push_entry(es@, e); }
                es.push(e);
            },
            None => {},
        }
        proof {
            assert(e0 =~= Seq::<(Seq<char>, TomlNode)>::empty());
            assert(entries_of(es@) =~= target_entries(self@));
        }
        es
    }
}

impl RepoEntry {
    /// Serialize into a TOML entry: the repository's name, and a table of
    /// its settings (see [`repo_entry_entries`]).
    pub fn to_toml(&self) -> (res: TomlEntry)
        ensures
            res@ == (self.name@, TomlNode::Table(repo_entry_entries(self@))),
            node_wf(res.item@),
    {
        let mut es: Vec<TomlEntry> = Vec::new();
        let ghost e0 = entries_of(es@);
        let e = TomlEntry { key: "branch".to_owned(), item: TomlItem::Str(self.branch.clone()) };
        proof { lemma_push_entry(es@, e); }
        es.push(e);
        let e = TomlEntry { key: "remote".to_owned(), item: TomlItem::Str(self.remote.clone()) };
        proof { lemma_push_entry(es@, e); }
        es.push(e);
        let e = TomlEntry { key: "url".to_owned(), item: TomlItem::Str(self.url.clone()) };
        proof { lemma_push_entry(es@, e); }
        es.push(e);
        let target = TomlItem::Inline(self.target.to_entries(), Decor { prefix: None, suffix: None });
        let e = TomlEntry { key: "target".to_owned(), item: target };
        proof { lemma_push_entry(es@, e); }
        es.push(e);
        proof {
            assert(e0 =~= Seq::<(Seq<char>, TomlNode)>::empty());
            assert(entries_of(es@) =~= repo_entry_entries(self@));
            lemma_repo_entry_entries_wf(self@);
        }
        TomlEntry { key: self.name.clone(), item: TomlItem::Table(es) }
    }

    /// Deserialize a repository entry from a TOML entry: the entry's key
    /// names the repository (see [`repo_entry_decode`]). Branch, remote and
    /// URL must be found, and the name must not be empty.
    pub fn from_toml(entry: &TomlEntry) -> (res: RepoEntry)
        requires
            entry.key@.len() > 0,
            repo_entry_decode(entry.key@, entry.item@).branch.len() > 0,
            repo_entry_decode(entry.key@, entry.item@).remote.len() > 0,
            repo_entry_decode(entry.key@, entry.item@).url.len() > 0,
        ensures
            res@ == repo_entry_decode(entry.key@, entry.item@),
    {
        proof {
            crate::walk::lemma_walk_ok_all::<RepoEntryBuilder>(entry.item@);
            crate::walk::lemma_walk_ok_all::<RepoTargetEntryBuilder>(entry.item@);
        }
        let mut target_entry = RepoTargetEntry::builder();
        let mut repo_entry = RepoEntry::builder(entry.key.as_str());
        walk(&mut target_entry, &entry.item);
        walk(&mut repo_entry, &entry.item);
        let target = target_entry.build();
        let read = RepoEntryBuilder {
            name: entry.key.clone(),
            branch: repo_entry.branch,
            remote: repo_entry.remote,
            url: repo_entry.url,
            target,
        };
        read.build()
    }
}

/// Law: a repository entry written as a TOML entry reads back as the same
/// entry.
pub proof fn lemma_repo_entry_roundtrip(r: RepoEntryView)
    ensures
        repo_entry_decode(r.name, TomlNode::Table(repo_entry_entries(r))) == r,
{
    lemma_entry_lits();
    lemma_target_os_roundtrip(r.target.os);
    let t = r.target;
    let te = target_entries(t);
    let e0 = Seq::<(Seq<char>, TomlNode)>::empty();
    let h = ("home"@, TomlNode::Bool(t.home));
    let o = ("os"@, TomlNode::Str(target_os_name(t.os)));
    let e1 = e0.push(h);
    let e2 = e1.push(o);
    assert(seq![h, o] =~= e2);
    let e3 = match t.user {
        Some(u) => e2.push(("user"@, TomlNode::Str(u))),
        None => e2,
    };
    // reading the target's inline table sets exactly what it holds
    assert forall|st: TargetView| #[trigger] walk_kvs::<RepoTargetEntryBuilder>(st, te) == (
    TargetView {
        home: t.home,
        os: t.os,
        user: if t.user is Some {
            t.user
        } else {
            st.user
        },
        hostname: if t.hostname is Some {
            t.hostname
        } else {
            st.hostname
        },
    }) by {
        lemma_walk_kvs_push::<RepoTargetEntryBuilder>(st, e0, h);
        lemma_walk_kvs_push::<RepoTargetEntryBuilder>(st, e1, o);
        if let Some(u) = t.user {
            lemma_walk_kvs_push::<RepoTargetEntryBuilder>(st, e2, ("user"@, TomlNode::Str(u)));
        }
        if let Some(hn) = t.hostname {
            lemma_walk_kvs_push::<RepoTargetEntryBuilder>(st, e3, ("hostname"@, TomlNode::Str(hn)));
        }
        let s1 = TargetView { home: t.home, ..st };
        let s2 = TargetView { os: t.os, ..s1 };
        assert(walk_kvs::<RepoTargetEntryBuilder>(st, e2) == s2);
    }
    // the repository reader reads nothing in the target's inline table
    assert forall|st: RepoEntryView| #[trigger] walk_kvs::<RepoEntryBuilder>(st, te) == st by {
        lemma_walk_kvs_push::<RepoEntryBuilder>(st, e0, h);
        lemma_walk_kvs_push::<RepoEntryBuilder>(st, e1, o);
        if let Some(u) = t.user {
            lemma_walk_kvs_push::<RepoEntryBuilder>(st, e2, ("user"@, TomlNode::Str(u)));
        }
        if let Some(hn) = t.hostname {
            lemma_walk_kvs_push::<RepoEntryBuilder>(st, e3, ("hostname"@, TomlNode::Str(hn)));
        }
    }
    let es = repo_entry_entries(r);
    let b = ("branch"@, TomlNode::Str(r.branch));
    let rm = ("remote"@, TomlNode::Str(r.remote));
    let u = ("url"@, TomlNode::Str(r.url));
    let tg = ("target"@, TomlNode::Inline(te));
    let f1 = e0.push(b);
    let f2 = f1.push(rm);
    let f3 = f2.push(u);
    assert(es =~= f3.push(tg));
    let init = RepoEntryView {
        name: r.name,
        branch: Seq::empty(),
        remote: Seq::empty(),
        url: Seq::empty(),
        target: target_default(),
    };
    lemma_walk_kvs_push::<RepoEntryBuilder>(init, e0, b);
    lemma_walk_kvs_push::<RepoEntryBuilder>(init, f1, rm);
    lemma_walk_kvs_push::<RepoEntryBuilder>(init, f2, u);
    lemma_walk_kvs_push::<RepoEntryBuilder>(init, f3, tg);
    let r3 = RepoEntryView { branch: r.branch, remote: r.remote, url: r.url, ..init };
    assert(walk_kvs::<RepoEntryBuilder>(init, f3) == r3);
    assert(walk_kvs::<RepoEntryBuilder>(r3, te) == r3);
    let t0 = target_default();
    lemma_walk_kvs_push::<RepoTargetEntryBuilder>(t0, e0, b);
    lemma_walk_kvs_push::<RepoTargetEntryBuilder>(t0, f1, rm);
    lemma_walk_kvs_push::<RepoTargetEntryBuilder>(t0, f2, u);
    lemma_walk_kvs_push::<RepoTargetEntryBuilder>(t0, f3, tg);
    assert(walk_kvs::<RepoTargetEntryBuilder>(t0, f3) == t0);
    assert(walk_kvs::<RepoTargetEntryBuilder>(t0, te) == t);
    assert(walk_kvs::<RepoTargetEntryBuilder>(t, te) == t);
}

} // verus!
