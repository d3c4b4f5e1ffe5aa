//! Configuration directory layout.
//!
//! Ricer keeps its configuration below one root directory: the
//! `config.toml` file, the `hooks/` directory of hook scripts, the `repos/`
//! directory of tracked repositories, and the `ignores/` directory of the
//! repositories' exclude files. Ricer runs hook scripts from `hooks/` alone,
//! so that the user finds every script in one place.

use vstd::prelude::*;

use crate::locate::{has_prefix, join_path, path_joined, rooted, Locator};

verus! {

/// Configuration directory manager representation.
pub trait ConfigDirManager {
    /// The root configuration directory.
    spec fn spec_root_dir(&self) -> Seq<char>;

    /// The repositories directory.
    spec fn spec_repos_dir(&self) -> Seq<char>;

    /// The hook scripts directory.
    spec fn spec_hooks_dir(&self) -> Seq<char>;

    /// The ignore files directory.
    spec fn spec_ignores_dir(&self) -> Seq<char>;

    /// Absolute path to root/top-level configuration directory.
    fn root_dir(&self) -> (res: &str)
        ensures
            res@ == self.spec_root_dir(),
    ;

    /// Absolute path to repositories directory.
    fn repos_dir(&self) -> (res: &str)
        ensures
            res@ == self.spec_repos_dir(),
    ;

    /// Absolute path to hook scripts directory.
    fn hooks_dir(&self) -> (res: &str)
        ensures
            res@ == self.spec_hooks_dir(),
    ;

    /// Absolute path to ignore files directory.
    fn ignores_dir(&self) -> (res: &str)
        ensures
            res@ == self.spec_ignores_dir(),
    ;
}

/// Default implementation of a configuration directory manager.
///
/// # Invariants
///
/// 1. Caller must validate paths themselves.
pub struct DefaultConfigDirManager {
    root_dir: String,
    repos_dir: String,
    hooks_dir: String,
    ignores_dir: String,
}

proof fn lemma_subdir_names()
    ensures
        !has_prefix("repos"@) && "repos"@[0] != '/' && "repos"@[0] != '\\',
        !has_prefix("hooks"@) && "hooks"@[0] != '/' && "hooks"@[0] != '\\',
        !has_prefix("ignores"@) && "ignores"@[0] != '/' && "ignores"@[0] != '\\',
{
    reveal_strlit("repos");
    reveal_strlit("hooks");
    reveal_strlit("ignores");
}

impl DefaultConfigDirManager {
    /// Directory manager rooted at the configuration directory of
    /// `locator`, with `repos`, `hooks` and `ignores` joined onto it. Where
    /// the root starts at the root directory, so do the three others.
    pub fn new<L: Locator>(locator: &L) -> (res: Self)
        ensures
            res.spec_root_dir() == locator.spec_config_dir(),
            path_joined(res.spec_repos_dir(), res.spec_root_dir(), "repos"@),
            path_joined(res.spec_hooks_dir(), res.spec_root_dir(), "hooks"@),
            path_joined(res.spec_ignores_dir(), res.spec_root_dir(), "ignores"@),
            rooted(res.spec_root_dir()) && !has_prefix(res.spec_root_dir()) ==> {
                &&& rooted(res.spec_repos_dir())
                &&& rooted(res.spec_hooks_dir())
                &&& rooted(res.spec_ignores_dir())
            },
    {
        proof {
            lemma_subdir_names();
        }
        let root = locator.config_dir();
        let repos_dir = join_path(root, "repos");
        let hooks_dir = join_path(root, "hooks");
        let ignores_dir = join_path(root, "ignores");
        DefaultConfigDirManager { root_dir: root.to_owned(), repos_dir, hooks_dir, ignores_dir }
    }
}

impl ConfigDirManager for DefaultConfigDirManager {
    closed spec fn spec_root_dir(&self) -> Seq<char> {
        self.root_dir@
    }

    closed spec fn spec_repos_dir(&self) -> Seq<char> {
        self.repos_dir@
    }

    closed spec fn spec_hooks_dir(&self) -> Seq<char> {
        self.hooks_dir@
    }

    closed spec fn spec_ignores_dir(&self) -> Seq<char> {
        self.ignores_dir@
    }

    fn root_dir(&self) -> (res: &str) {
        self.root_dir.as_str()
    }

    fn repos_dir(&self) -> (res: &str) {
        self.repos_dir.as_str()
    }

    fn hooks_dir(&self) -> (res: &str) {
        self.hooks_dir.as_str()
    }

    fn ignores_dir(&self) -> (res: &str) {
        self.ignores_dir.as_str()
    }
}

} // verus!
