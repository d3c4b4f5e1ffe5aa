//! Configuration file management.
//!
//! Ricer keeps its repository and command hook settings in TOML files whose
//! formatting it preserves. [`toml::Toml`] is the document store;
//! [`settings`] holds the settings that live in it. [`RepoConfig`] keeps
//! repository settings in the `repos` section of a document, and
//! [`CmdHookConfig`] keeps command hook settings in its `hooks` section.

pub mod dir;
pub mod file;
pub mod hook;
pub mod settings;
pub mod toml;

use vstd::prelude::*;

use crate::config::settings::{
    boot_empty, boot_names_ok, hook_nodes, hooks_item, lemma_cmd_hook_roundtrip,
    lemma_repo_decode_named, lemma_repo_roundtrip, lists_ok, repo_decode, repo_named, repo_entries, CmdHookSettings, CmdHookView,
    RepoSettings, RepoView,
};
use crate::config::toml::{
    lemma_toml_add_returns_replaced, lemma_toml_get_after_add, lemma_toml_get_after_remove,
    add_keeps_format, lemma_toml_rename_moves, remove_keeps_format, rename_keeps_format, section,
    toml_add, toml_get, toml_remove, toml_rename, Toml, TomlError, TomlErrorView,
};
use crate::tree::{entries_wf, TomlNode};

verus! {

/// Name of the section that holds repository settings.
pub open spec fn repos_section() -> Seq<char> {
    "repos"@
}

/// Name of the section that holds command hook settings.
pub open spec fn hooks_section() -> Seq<char> {
    "hooks"@
}

/// Repository settings read from an entry that the document gives back.
pub open spec fn repo_result(r: Result<(Seq<char>, TomlNode), TomlErrorView>) -> Result<
    RepoView,
    TomlErrorView,
> {
    match r {
        Ok((k, n)) => Ok(repo_decode(k, n)),
        Err(e) => Err(e),
    }
}

/// Command hook settings read from an entry that the document gives back.
pub open spec fn cmd_hook_result(r: Result<(Seq<char>, TomlNode), TomlErrorView>) -> Result<
    CmdHookView,
    TomlErrorView,
> {
    match r {
        Ok((k, n)) => Ok(CmdHookView { cmd: k, hooks: hooks_item(Seq::empty(), n) }),
        Err(e) => Err(e),
    }
}

/// Where a document entry can be read as repository settings.
pub open spec fn repo_readable(r: Result<(Seq<char>, TomlNode), TomlErrorView>) -> bool {
    r matches Ok((_, n)) ==> lists_ok(n)
}

pub open spec fn repo_out(r: Result<RepoSettings, TomlError>) -> Result<RepoView, TomlErrorView> {
    match r {
        Ok(s) => Ok(s@),
        Err(e) => Err(e@),
    }
}

pub open spec fn repo_opt_out(r: Result<Option<RepoSettings>, TomlError>) -> Result<
    Option<RepoView>,
    TomlErrorView,
> {
    match r {
        Ok(Some(s)) => Ok(Some(s@)),
        Ok(None) => Ok(None),
        Err(e) => Err(e@),
    }
}

pub open spec fn cmd_hook_out(r: Result<CmdHookSettings, TomlError>) -> Result<
    CmdHookView,
    TomlErrorView,
> {
    match r {
        Ok(s) => Ok(s@),
        Err(e) => Err(e@),
    }
}

pub open spec fn cmd_hook_opt_out(r: Result<Option<CmdHookSettings>, TomlError>) -> Result<
    Option<CmdHookView>,
    TomlErrorView,
> {
    match r {
        Ok(Some(s)) => Ok(Some(s@)),
        Ok(None) => Ok(None),
        Err(e) => Err(e@),
    }
}

/// Repository data configuration management.
///
/// Handles serialization and deserialization of repository settings.
/// Repository settings are held within the "repos" section of a
/// configuration file.
///
/// # Invariants
///
/// Will preserve existing formatting of configuration file if any.
#[derive(Clone, Copy, Debug, PartialEq, Eq)]
pub struct RepoConfig;

/// Command hook configuration management.
///
/// Handles serialization and deserialization of command hook settings.
/// Command hook settings are held within the "hooks" section of a
/// configuration file.
///
/// # Invariants
///
/// Will preserve existing formatting of configuration file if any.
#[derive(Clone, Copy, Debug, PartialEq, Eq)]
pub struct CmdHookConfig;

impl RepoConfig {
    /// Repository settings of repository `key`.
    pub fn get(&self, doc: &Toml, key: &str) -> (res: Result<RepoSettings, TomlError>)
        requires
            repo_readable(toml_get(doc@, repos_section(), key@)),
        ensures
            repo_out(res) == repo_result(toml_get(doc@, repos_section(), key@)),
    {
        match doc.get("repos", key) {
            Ok(entry) => Ok(RepoSettings::from_toml(&entry)),
            Err(e) => Err(e),
        }
    }

    /// Add repository settings, replacing those of the same name; gives back
    /// the settings replaced.
    pub fn add(&self, doc: &mut Toml, entry: RepoSettings) -> (res: Result<
        Option<RepoSettings>,
        TomlError,
    >)
        requires
            repo_readable(toml_get(old(doc)@, repos_section(), entry.name@)),
        ensures
            final(doc)@ == toml_add(
                old(doc)@,
                repos_section(),
                entry@.name,
                TomlNode::Table(repo_entries(entry@)),
            ).0,
            repo_opt_out(res) == match toml_add(
                old(doc)@,
                repos_section(),
                entry@.name,
                TomlNode::Table(repo_entries(entry@)),
            ).1 {
                Ok(Some((k, n))) => Ok(Some(repo_decode(k, n))),
                Ok(None) => Ok(None),
                Err(e) => Err(e),
            },
            add_keeps_format(
                old(doc).document(),
                final(doc).document(),
                repos_section(),
                entry@.name,
                section(old(doc)@, repos_section()) is Table,
                res is Ok,
            ),
    {
        let ghost d0 = doc@;
        let e = entry.to_toml();
        let res = doc.add("repos", e);
        proof {
            lemma_toml_add_returns_replaced(d0, repos_section(), entry@.name, e.item@);
        }
        match res {
            Ok(Some(old)) => Ok(Some(RepoSettings::from_toml(&old))),
            Ok(None) => Ok(None),
            Err(err) => Err(err),
        }
    }
}


impl RepoConfig {
    /// Remove the settings of repository `key`, giving them back.
    pub fn remove(&self, doc: &mut Toml, key: &str) -> (res: Result<RepoSettings, TomlError>)
        requires
            repo_readable(toml_get(old(doc)@, repos_section(), key@)),
        ensures
            final(doc)@ == toml_remove(old(doc)@, repos_section(), key@).0,
            repo_out(res) == repo_result(toml_remove(old(doc)@, repos_section(), key@).1),
            remove_keeps_format(
                old(doc).document(),
                final(doc).document(),
                repos_section(),
                key@,
                res is Ok,
            ),
    {
        let ghost d0 = doc@;
        let res = doc.remove("repos", key);
        proof {
            lemma_toml_get_after_remove(d0, repos_section(), key@, repos_section(), key@);
        }
        match res {
            Ok(entry) => Ok(RepoSettings::from_toml(&entry)),
            Err(e) => Err(e),
        }
    }

    /// Rename repository `from` to `to`, giving back its settings as they
    /// were.
    pub fn rename(&self, doc: &mut Toml, from: &str, to: &str) -> (res: Result<
        RepoSettings,
        TomlError,
    >)
        requires
            repo_readable(toml_get(old(doc)@, repos_section(), from@)),
        ensures
            final(doc)@ == toml_rename(old(doc)@, repos_section(), from@, to@).0,
            repo_out(res) == repo_result(toml_rename(old(doc)@, repos_section(), from@, to@).1),
            rename_keeps_format(
                old(doc).document(),
                final(doc).document(),
                repos_section(),
                from@,
                to@,
                res is Ok,
            ),
    {
        let ghost d0 = doc@;
        let res = doc.rename("repos", from, to);
        proof {
            lemma_toml_rename_moves(d0, repos_section(), from@, to@);
        }
        match res {
            Ok(entry) => Ok(RepoSettings::from_toml(&entry)),
            Err(e) => Err(e),
        }
    }
}

impl CmdHookConfig {
    /// Command hook settings of command `key`.
    pub fn get(&self, doc: &Toml, key: &str) -> (res: Result<CmdHookSettings, TomlError>)
        ensures
            cmd_hook_out(res) == cmd_hook_result(toml_get(doc@, hooks_section(), key@)),
    {
        match doc.get("hooks", key) {
            Ok(entry) => Ok(CmdHookSettings::from_toml(&entry)),
            Err(e) => Err(e),
        }
    }

    /// Add command hook settings, replacing those of the same command; gives
    /// back the settings replaced.
    pub fn add(&self, doc: &mut Toml, entry: CmdHookSettings) -> (res: Result<
        Option<CmdHookSettings>,
        TomlError,
    >)
        ensures
            final(doc)@ == toml_add(
                old(doc)@,
                hooks_section(),
                entry@.cmd,
                TomlNode::Array(hook_nodes(entry@.hooks)),
            ).0,
            cmd_hook_opt_out(res) == match toml_add(
                old(doc)@,
                hooks_section(),
                entry@.cmd,
                TomlNode::Array(hook_nodes(entry@.hooks)),
            ).1 {
                Ok(Some((k, n))) => Ok(Some(CmdHookView { cmd: k, hooks: hooks_item(Seq::empty(), n) })),
                Ok(None) => Ok(None),
                Err(e) => Err(e),
            },
            add_keeps_format(
                old(doc).document(),
                final(doc).document(),
                hooks_section(),
                entry@.cmd,
                section(old(doc)@, hooks_section()) is Table,
                res is Ok,
            ),
    {
        let e = entry.to_toml();
        match doc.add("hooks", e) {
            Ok(Some(old)) => Ok(Some(CmdHookSettings::from_toml(&old))),
            Ok(None) => Ok(None),
            Err(err) => Err(err),
        }
    }

    /// Remove the settings of command `key`, giving them back.
    pub fn remove(&self, doc: &mut Toml, key: &str) -> (res: Result<CmdHookSettings, TomlError>)
        ensures
            final(doc)@ == toml_remove(old(doc)@, hooks_section(), key@).0,
            cmd_hook_out(res) == cmd_hook_result(toml_remove(old(doc)@, hooks_section(), key@).1),
            remove_keeps_format(
                old(doc).document(),
                final(doc).document(),
                hooks_section(),
                key@,
                res is Ok,
            ),
    {
        match doc.remove("hooks", key) {
            Ok(entry) => Ok(CmdHookSettings::from_toml(&entry)),
            Err(e) => Err(e),
        }
    }

    /// Rename the settings of command `from` to `to`, giving them back as
    /// they were.
    pub fn rename(&self, doc: &mut Toml, from: &str, to: &str) -> (res: Result<
        CmdHookSettings,
        TomlError,
    >)
        ensures
            final(doc)@ == toml_rename(old(doc)@, hooks_section(), from@, to@).0,
            cmd_hook_out(res) == cmd_hook_result(
                toml_rename(old(doc)@, hooks_section(), from@, to@).1,
            ),
            rename_keeps_format(
                old(doc).document(),
                final(doc).document(),
                hooks_section(),
                from@,
                to@,
                res is Ok,
            ),
    {
        match doc.rename("hooks", from, to) {
            Ok(entry) => Ok(CmdHookSettings::from_toml(&entry)),
            Err(e) => Err(e),
        }
    }
}

/// Law: repository settings read back after adding them are the settings
/// added, where their bootstrap settings, if given, set something and list no
/// name with a quote character at either end.
pub proof fn lemma_repo_get_after_add(doc: Seq<(Seq<char>, TomlNode)>, r: RepoView)
    requires
        entries_wf(doc, false),
        r.bootstrap != Some(boot_empty()),
        r.bootstrap matches Some(b) ==> boot_names_ok(b),
        toml_add(doc, repos_section(), r.name, TomlNode::Table(repo_entries(r))).1 is Ok,
    ensures
        ({
            let after = toml_add(doc, repos_section(), r.name, TomlNode::Table(repo_entries(r))).0;
            &&& repo_readable(toml_get(after, repos_section(), r.name))
            &&& repo_result(toml_get(after, repos_section(), r.name)) == Ok::<
                RepoView,
                TomlErrorView,
            >(r)
        }),
{
    crate::config::settings::lemma_repo_entries_wf(r);
    lemma_toml_get_after_add(
        doc,
        repos_section(),
        r.name,
        TomlNode::Table(repo_entries(r)),
        repos_section(),
        r.name,
    );
    lemma_repo_roundtrip(r);
}

/// Law: command hook settings read back after adding them are the settings
/// added.
pub proof fn lemma_cmd_hook_get_after_add(doc: Seq<(Seq<char>, TomlNode)>, c: CmdHookView)
    requires
        entries_wf(doc, false),
        toml_add(doc, hooks_section(), c.cmd, TomlNode::Array(hook_nodes(c.hooks))).1 is Ok,
    ensures
        cmd_hook_result(
            toml_get(
                toml_add(doc, hooks_section(), c.cmd, TomlNode::Array(hook_nodes(c.hooks))).0,
                hooks_section(),
                c.cmd,
            ),
        ) == Ok::<CmdHookView, TomlErrorView>(c),
{
    crate::config::settings::lemma_hook_nodes_wf(c.hooks);
    lemma_toml_get_after_add(
        doc,
        hooks_section(),
        c.cmd,
        TomlNode::Array(hook_nodes(c.hooks)),
        hooks_section(),
        c.cmd,
    );
    lemma_cmd_hook_roundtrip(c.hooks);
}

/// Law: renaming a repository gives back its settings as they were, and
/// afterwards the same settings read back under the new name, while the old
/// name, where it differs, is no longer found.
pub proof fn lemma_repo_rename_moves(doc: Seq<(Seq<char>, TomlNode)>, from: Seq<char>, to: Seq<char>)
    requires
        entries_wf(doc, false),
    ensures
        repo_result(toml_rename(doc, repos_section(), from, to).1) == repo_result(
            toml_get(doc, repos_section(), from),
        ),
        ({
            let after = toml_rename(doc, repos_section(), from, to).0;
            repo_result(toml_get(doc, repos_section(), from)) matches Ok(r) ==> {
                &&& repo_readable(toml_get(doc, repos_section(), from)) ==> repo_readable(
                    toml_get(after, repos_section(), to),
                )
                &&& repo_result(toml_get(after, repos_section(), to)) == Ok::<
                    RepoView,
                    TomlErrorView,
                >(repo_named(r, to))
                &&& from != to ==> repo_result(toml_get(after, repos_section(), from)) == Err::<
                    RepoView,
                    TomlErrorView,
                >(TomlErrorView::EntryNotFound(repos_section(), from))
            }
        }),
{
    lemma_toml_rename_moves(doc, repos_section(), from, to);
    if let Ok((k, n)) = toml_get(doc, repos_section(), from) {
        lemma_repo_decode_named(k, to, n);
    }
}

} // verus!
