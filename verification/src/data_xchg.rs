//! Repository settings in their data exchange form.
//!
//! [`Repository`] and [`Bootstrap`] hold the same settings as
//! [`RepoSettings`] and [`BootstrapSettings`], written and read the same
//! way; they share their model ([`RepoView`], [`BootstrapView`]).

use vstd::prelude::*;

pub use crate::config::settings::OsType;
use crate::config::settings::{
    boot_empty, lists_ok, opt_boot, opt_str, opt_strs, repo_decode, repo_entries, strs,
    BootstrapSettings, BootstrapView, RepoSettings, RepoView,
};
use crate::tree::{node_wf, TomlEntry, TomlNode};

verus! {

/// Repository configuration settings.
#[derive(Debug, Clone, PartialEq, Eq)]
pub struct Repository {
    pub name: String,
    pub branch: String,
    pub remote: String,
    pub workdir_home: bool,
    pub bootstrap: Option<Bootstrap>,
}

/// Repository bootstrap configuration settings.
#[derive(Debug, Clone, PartialEq, Eq)]
pub struct Bootstrap {
    pub clone: Option<String>,
    pub os: Option<OsType>,
    pub users: Option<Vec<String>>,
    pub hosts: Option<Vec<String>>,
}

impl View for Bootstrap {
    type V = BootstrapView;

    open spec fn view(&self) -> BootstrapView {
        BootstrapView {
            clone: opt_str(self.clone),
            os: self.os,
            users: opt_strs(self.users),
            hosts: opt_strs(self.hosts),
        }
    }
}

pub open spec fn opt_bootstrap(o: Option<Bootstrap>) -> Option<BootstrapView> {
    match o {
        Some(b) => Some(b@),
        None => None,
    }
}

impl View for Repository {
    type V = RepoView;

    open spec fn view(&self) -> RepoView {
        RepoView {
            name: self.name@,
            branch: self.branch@,
            remote: self.remote@,
            workdir_home: self.workdir_home,
            bootstrap: opt_bootstrap(self.bootstrap),
        }
    }
}

fn copy_strs(v: &Vec<String>) -> (res: Vec<String>)
    ensures
        strs(res@) == strs(v@),
{
    let mut out: Vec<String> = Vec::new();
    let mut i: usize = 0;
    while i < v.len()
        invariant
            i <= v.len(),
            out.len() == i,
            forall|j: int| 0 <= j < i ==> #[trigger] out@[j]@ == v@[j]@,
        decreases v.len() - i,
    {
        out.push(v[i].clone());
        i = i + 1;
    }
    assert(strs(out@) =~= strs(v@));
    out
}

fn copy_opt_strs(o: &Option<Vec<String>>) -> (res: Option<Vec<String>>)
    ensures
        opt_strs(res) == opt_strs(*o),
{
    match o {
        Some(v) => Some(copy_strs(v)),
        None => None,
    }
}

fn copy_opt_str(o: &Option<String>) -> (res: Option<String>)
    ensures
        opt_str(res) == opt_str(*o),
{
    match o {
        Some(s) => Some(s.clone()),
        None => None,
    }
}

impl Bootstrap {
    pub fn new() -> (res: Self)
        ensures
            res@ == boot_empty(),
    {
        Bootstrap { clone: None, os: None, users: None, hosts: None }
    }

    pub fn clone(self, url: &str) -> (res: Self)
        ensures
            res@ == (BootstrapView { clone: Some(url@), ..self@ }),
    {
        Bootstrap { clone: Some(url.to_owned()), ..self }
    }

    pub fn os(self, os: OsType) -> (res: Self)
        ensures
            res@ == (BootstrapView { os: Some(os), ..self@ }),
    {
        Bootstrap { os: Some(os), ..self }
    }

    pub fn users(self, users: Vec<String>) -> (res: Self)
        ensures
            res@ == (BootstrapView { users: Some(strs(users@)), ..self@ }),
    {
        Bootstrap { users: Some(users), ..self }
    }

    pub fn hosts(self, hosts: Vec<String>) -> (res: Self)
        ensures
            res@ == (BootstrapView { hosts: Some(strs(hosts@)), ..self@ }),
    {
        Bootstrap { hosts: Some(hosts), ..self }
    }

    /// Whether no bootstrap setting is set.
    pub fn is_empty(&self) -> (res: bool)
        ensures
            res == (self@ == boot_empty()),
    {
        self.clone.is_none() && self.os.is_none() && self.users.is_none() && self.hosts.is_none()
    }

    fn to_settings(&self) -> (res: BootstrapSettings)
        ensures
            res@ == self@,
    {
        BootstrapSettings {
            clone: copy_opt_str(&self.clone),
            os: self.os,
            users: copy_opt_strs(&self.users),
            hosts: copy_opt_strs(&self.hosts),
        }
    }

    fn from_settings(b: BootstrapSettings) -> (res: Self)
        ensures
            res@ == b@,
    {
        Bootstrap { clone: b.clone, os: b.os, users: b.users, hosts: b.hosts }
    }
}

impl Repository {
    /// Settings of repository `name`: empty branch and remote, working
    /// directory not the home directory, no bootstrap settings.
    pub fn new(name: &str) -> (res: Self)
        ensures
            res@ == (RepoView {
                name: name@,
                branch: Seq::empty(),
                remote: Seq::empty(),
                workdir_home: false,
                bootstrap: None,
            }),
    {
        Repository {
            name: name.to_owned(),
            branch: String::new(),
            remote: String::new(),
            workdir_home: false,
            bootstrap: None,
        }
    }

    pub fn branch(self, branch: &str) -> (res: Self)
        ensures
            res@ == (RepoView { branch: branch@, ..self@ }),
    {
        Repository { branch: branch.to_owned(), ..self }
    }

    pub fn remote(self, remote: &str) -> (res: Self)
        ensures
            res@ == (RepoView { remote: remote@, ..self@ }),
    {
        Repository { remote: remote.to_owned(), ..self }
    }

    pub fn workdir_home(self, choice: bool) -> (res: Self)
        ensures
            res@ == (RepoView { workdir_home: choice, ..self@ }),
    {
        Repository { workdir_home: choice, ..self }
    }

    pub fn bootstrap(self, bootstrap: Bootstrap) -> (res: Self)
        ensures
            res@ == (RepoView { bootstrap: Some(bootstrap@), ..self@ }),
    {
        Repository { bootstrap: Some(bootstrap), ..self }
    }

    /// Serialize into a TOML entry, as [`RepoSettings::to_toml`] does.
    pub fn to_toml(&self) -> (res: TomlEntry)
        ensures
            res@ == (self.name@, TomlNode::Table(repo_entries(self@))),
            node_wf(res.item@),
    {
        let bootstrap = match &self.bootstrap {
            Some(b) => Some(b.to_settings()),
            None => None,
        };
        let settings = RepoSettings {
            name: self.name.clone(),
            branch: self.branch.clone(),
            remote: self.remote.clone(),
            workdir_home: self.workdir_home,
            bootstrap,
        };
        assert(settings@ == self@);
        settings.to_toml()
    }

    /// Deserialize from a TOML entry, as [`RepoSettings::from_toml`] does.
    pub fn from_toml(entry: &TomlEntry) -> (res: Self)
        requires
            lists_ok(entry.item@),
        ensures
            res@ == repo_decode(entry.key@, entry.item@),
    {
        let s = RepoSettings::from_toml(entry);
        let bootstrap = match s.bootstrap {
            Some(b) => Some(Bootstrap::from_settings(b)),
            None => None,
        };
        let res = Repository {
            name: s.name,
            branch: s.branch,
            remote: s.remote,
            workdir_home: s.workdir_home,
            bootstrap,
        };
        assert(opt_bootstrap(res.bootstrap) == opt_boot(s.bootstrap));
        res
    }
}

} // verus!
