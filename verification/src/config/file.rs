//! Entries of Ricer's configuration file: repository entries in its `repos`
//! section and command hook entries in its `hooks` section.

pub mod hooks_section;
pub mod repos_section;

use vstd::prelude::*;

use crate::config::file::hooks_section::{entry_hooks, CommandHookEntry, CommandHookEntryView};
use crate::config::file::repos_section::{repo_entry_decode, repo_entry_entries, RepoEntry, RepoEntryView};
use crate::config::file::repos_section::{lemma_repo_entry_entries_wf, lemma_repo_entry_roundtrip};
use crate::config::toml::{
    add_keeps_format, lemma_toml_get_after_add, remove_keeps_format, rename_keeps_format, section,
    toml_add, toml_get, toml_remove, toml_rename, Toml, TomlError, TomlErrorView,
};
use toml_edit::DocumentMut;
use crate::tree::{entries_wf, TomlNode};

verus! {

/// Where a repository entry of a document can be read: its name, branch,
/// remote and URL are all given.
pub open spec fn repo_entry_readable(r: Result<(Seq<char>, TomlNode), TomlErrorView>) -> bool {
    r matches Ok((k, n)) ==> {
        let e = repo_entry_decode(k, n);
        &&& k.len() > 0
        &&& e.branch.len() > 0
        &&& e.remote.len() > 0
        &&& e.url.len() > 0
    }
}

/// Configuration file manager: repository entries in the `repos` section
/// and command hook entries in the `hooks` section of one document.
#[derive(Debug)]
pub struct DefaultConfigFileManager {
    doc: Toml,
}

impl View for DefaultConfigFileManager {
    type V = Seq<(Seq<char>, TomlNode)>;

    closed spec fn view(&self) -> Seq<(Seq<char>, TomlNode)> {
        self.doc@
    }
}

impl DefaultConfigFileManager {
    /// Manager of an empty document.
    pub fn new() -> (res: Self)
        ensures
            res@ == Seq::<(Seq<char>, TomlNode)>::empty(),
    {
        DefaultConfigFileManager { doc: Toml::new() }
    }

    /// Manager of a parsed document.
    pub fn from_doc(doc: Toml) -> (res: Self)
        ensures
            res@ == doc@,
            res.document() == doc.document(),
    {
        DefaultConfigFileManager { doc }
    }

    /// The managed `toml_edit` document, formatting included.
    pub closed spec fn document(&self) -> DocumentMut {
        self.doc.document()
    }

    /// Text that the managed document prints as.
    pub closed spec fn text(&self) -> Seq<char> {
        self.doc.text()
    }

    /// The document as TOML text, with its formatting kept.
    pub fn to_string(&self) -> (res: String)
        ensures
            res@ == self.text(),
    {
        self.doc.to_string()
    }

    /// Repository entry `name` of the `repos` section.
    ///
    /// # Errors
    ///
    /// The section is missing or not a table, or holds no entry `name`.
    pub fn get_repo(&self, name: &str) -> (res: Result<RepoEntry, TomlError>)
        requires
            repo_entry_readable(toml_get(self@, "repos"@, name@)),
        ensures
            match res {
                Ok(e) => toml_get(self@, "repos"@, name@) matches Ok((k, n)) && e@
                    == repo_entry_decode(k, n),
                Err(e) => toml_get(self@, "repos"@, name@) == Err::<
                    (Seq<char>, TomlNode),
                    TomlErrorView,
                >(e@),
            },
    {
        match self.doc.get("repos", name) {
            Ok(entry) => Ok(RepoEntry::from_toml(&entry)),
            Err(e) => Err(e),
        }
    }

    /// Add a repository entry to the `repos` section, creating the section
    /// where it is missing and replacing an entry of the same name.
    ///
    /// # Errors
    ///
    /// The section is not a table.
    pub fn add_repo(&mut self, repo_entry: &RepoEntry) -> (res: Result<(), TomlError>)
        ensures
            final(self)@ == toml_add(
                old(self)@,
                "repos"@,
                repo_entry@.name,
                TomlNode::Table(repo_entry_entries(repo_entry@)),
            ).0,
            match res {
                Ok(_) => toml_add(
                    old(self)@,
                    "repos"@,
                    repo_entry@.name,
                    TomlNode::Table(repo_entry_entries(repo_entry@)),
                ).1 is Ok,
                Err(e) => toml_add(
                    old(self)@,
                    "repos"@,
                    repo_entry@.name,
                    TomlNode::Table(repo_entry_entries(repo_entry@)),
                ).1 == Err::<Option<(Seq<char>, TomlNode)>, TomlErrorView>(e@),
            },
            add_keeps_format(
                old(self).document(),
                final(self).document(),
                "repos"@,
                repo_entry@.name,
                section(old(self)@, "repos"@) is Table,
                res is Ok,
            ),
    {
        match self.doc.add("repos", repo_entry.to_toml()) {
            Ok(_) => Ok(()),
            Err(e) => Err(e),
        }
    }

    /// Remove repository entry `name` from the `repos` section.
    ///
    /// # Errors
    ///
    /// The section is missing or not a table, or holds no entry `name`.
    pub fn remove_repo(&mut self, name: &str) -> (res: Result<(), TomlError>)
        ensures
            final(self)@ == toml_remove(old(self)@, "repos"@, name@).0,
            match res {
                Ok(_) => toml_remove(old(self)@, "repos"@, name@).1 is Ok,
                Err(e) => toml_remove(old(self)@, "repos"@, name@).1 == Err::<
                    (Seq<char>, TomlNode),
                    TomlErrorView,
                >(e@),
            },
            remove_keeps_format(
                old(self).document(),
                final(self).document(),
                "repos"@,
                name@,
                res is Ok,
            ),
    {
        match self.doc.remove("repos", name) {
            Ok(_) => Ok(()),
            Err(e) => Err(e),
        }
    }

    /// Rename repository entry `from` of the `repos` section to `to`.
    ///
    /// # Errors
    ///
    /// The section is missing or not a table, or holds no entry `from`.
    pub fn rename_repo(&mut self, from: &str, to: &str) -> (res: Result<(), TomlError>)
        ensures
            final(self)@ == toml_rename(old(self)@, "repos"@, from@, to@).0,
            match res {
                Ok(_) => toml_rename(old(self)@, "repos"@, from@, to@).1 is Ok,
                Err(e) => toml_rename(old(self)@, "repos"@, from@, to@).1 == Err::<
                    (Seq<char>, TomlNode),
                    TomlErrorView,
                >(e@),
            },
            rename_keeps_format(
                old(self).document(),
                final(self).document(),
                "repos"@,
                from@,
                to@,
                res is Ok,
            ),
    {
        match self.doc.rename("repos", from, to) {
            Ok(_) => Ok(()),
            Err(e) => Err(e),
        }
    }

    /// Command hook entry `cmd_name` of the `hooks` section.
    ///
    /// # Errors
    ///
    /// The section is missing or not a table, or holds no entry `cmd_name`.
    pub fn get_cmd_hook(&self, cmd_name: &str) -> (res: Result<CommandHookEntry, TomlError>)
        ensures
            match res {
                Ok(e) => toml_get(self@, "hooks"@, cmd_name@) matches Ok((k, n)) && e@ == (
                CommandHookEntryView { cmd: k, hooks: entry_hooks(Seq::empty(), n) }),
                Err(e) => toml_get(self@, "hooks"@, cmd_name@) == Err::<
                    (Seq<char>, TomlNode),
                    TomlErrorView,
                >(e@),
            },
    {
        match self.doc.get("hooks", cmd_name) {
            Ok(entry) => Ok(CommandHookEntry::from_toml(&entry)),
            Err(e) => Err(e),
        }
    }
}


/// Law: a repository entry read back after adding it is the entry added.
pub proof fn lemma_repo_entry_get_after_add(doc: Seq<(Seq<char>, TomlNode)>, r: RepoEntryView)
    requires
        entries_wf(doc, false),
        toml_add(doc, "repos"@, r.name, TomlNode::Table(repo_entry_entries(r))).1 is Ok,
    ensures
        ({
            let after = toml_add(doc, "repos"@, r.name, TomlNode::Table(repo_entry_entries(r))).0;
            toml_get(after, "repos"@, r.name) matches Ok((k, n)) && repo_entry_decode(k, n) == r
        }),
{
    lemma_repo_entry_entries_wf(r);
    lemma_toml_get_after_add(
        doc,
        "repos"@,
        r.name,
        TomlNode::Table(repo_entry_entries(r)),
        "repos"@,
        r.name,
    );
    lemma_repo_entry_roundtrip(r);
}

} // verus!
