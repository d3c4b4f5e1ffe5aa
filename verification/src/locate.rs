//! Configuration data locators.
//!
//! Ricer keeps its configuration files, hook scripts and repositories at
//! fixed places in two base directories: one for configuration and one
//! for data. A [`DirLayout`] gives the base directories; a
//! [`DefaultLocator`] derives every path from them.

use vstd::prelude::*;

verus! {

/// Error types for locating configuration data.
#[derive(Debug, Clone, Copy, PartialEq, Eq, Structural)]
pub enum LocateError {
    /// The home directory cannot be determined.
    NoWayHome,
}

/// A character that separates path components on some platform: `/`, and
/// `\\` on Windows.
pub open spec fn sep_char(c: char) -> bool {
    c == '/' || c == '\\'
}

/// A path that Windows would read as starting with a prefix: a drive (a
/// second character `:`), or a verbatim, device or UNC prefix (two
/// separators at the start).
pub open spec fn has_prefix(p: Seq<char>) -> bool {
    ||| (p.len() >= 2 && p[1] == ':')
    ||| (p.len() >= 2 && sep_char(p[0]) && sep_char(p[1]))
}

/// `res` is `part` joined onto `base` as `Path::join` does it, on every
/// path where Unix and Windows agree on what `base` and `part` are (neither
/// has a Windows prefix, and `part` does not start with `\\`):
///
/// - a `part` that starts with `/` replaces `base`;
/// - onto an empty `base`, the result is `part`;
/// - onto a `base` that ends in `/`, `part` is appended;
/// - otherwise `part` is appended after one separator of the platform (`/`,
///   or `\\` on Windows, where a trailing `\\` already is one).
pub open spec fn path_joined(res: Seq<char>, base: Seq<char>, part: Seq<char>) -> bool {
    !has_prefix(base) && !has_prefix(part) && !(part.len() > 0 && part[0] == '\\') ==> {
        if part.len() > 0 && part[0] == '/' {
            res == part
        } else if base.len() == 0 {
            res == part
        } else if base.last() == '/' {
            res == base + part
        } else if base.last() == '\\' {
            res == base + part || res == base.push('/') + part
        } else {
            res == base.push('/') + part || res == base.push('\\') + part
        }
    }
}

/// A path that starts at the root directory.
pub open spec fn rooted(p: Seq<char>) -> bool {
    p.len() > 0 && p[0] == '/'
}

/// `Path::new(base).join(part)`, as text.
///
/// Claims what [`path_joined`] states: what `PathBuf::push` documents and
/// does where the two platforms agree. Paths with a Windows prefix, and
/// parts that start with `\\`, are joined by rules of their own on Windows
/// (a verbatim base is normalised, a drive-only base takes no separator), so
/// nothing is claimed of them; nor of which separator the platform adds.
#[verifier::external_body]
fn path_join(base: &str, part: &str) -> (res: String)
    ensures
        path_joined(res@, base@, part@),
{
    std::path::Path::new(base).join(part).to_string_lossy().into_owned()
}

/// Joins a path onto another (see [`path_joined`]).
pub fn join_path(base: &str, part: &str) -> (res: String)
    ensures
        path_joined(res@, base@, part@),
{
    path_join(base, part)
}

/// Configuration data locator.
pub trait Locator {
    /// The configuration file directory.
    spec fn spec_config_dir(&self) -> Seq<char>;

    /// The hook script directory.
    spec fn spec_hooks_dir(&self) -> Seq<char>;

    /// The command hook configuration file.
    spec fn spec_hooks_config(&self) -> Seq<char>;

    /// The repository directory.
    spec fn spec_repos_dir(&self) -> Seq<char>;

    /// The repository configuration file.
    spec fn spec_repos_config(&self) -> Seq<char>;

    /// Expected absolute path to configuration file directory.
    fn config_dir(&self) -> (res: &str)
        ensures
            res@ == self.spec_config_dir(),
    ;

    /// Expected absolute path to hook script directory.
    fn hooks_dir(&self) -> (res: &str)
        ensures
            res@ == self.spec_hooks_dir(),
    ;

    /// Expected absolute path to command hook configuration file.
    fn hooks_config(&self) -> (res: &str)
        ensures
            res@ == self.spec_hooks_config(),
    ;

    /// Expected absolute path to repository directory.
    fn repos_dir(&self) -> (res: &str)
        ensures
            res@ == self.spec_repos_dir(),
    ;

    /// Expected absolute path to repository configuration file.
    fn repos_config(&self) -> (res: &str)
        ensures
            res@ == self.spec_repos_config(),
    ;
}

/// Specify expected configuration directory layout.
pub trait DirLayout {
    /// The configuration directory.
    spec fn spec_config_dir(&self) -> Seq<char>;

    /// The repository data directory.
    spec fn spec_repo_dir(&self) -> Seq<char>;

    /// Absolute path to directory where configuration files will be stored.
    fn config_dir(&self) -> (res: &str)
        ensures
            res@ == self.spec_config_dir(),
    ;

    /// Absolute path to directory where repository data will be stored.
    fn repo_dir(&self) -> (res: &str)
        ensures
            res@ == self.spec_repo_dir(),
    ;
}

/// Configuration directory layout after the XDG Base Directory
/// Specification: configuration files and hook scripts in
/// `$XDG_CONFIG_HOME/ricer`, tracked repositories in `$XDG_DATA_HOME/ricer`.
///
/// # Invariants
///
/// 1. Caller must validate paths themselves.
pub struct XdgDirLayout {
    config_dir: String,
    data_dir: String,
}

impl XdgDirLayout {
    /// Layout with the given configuration and data directories of the
    /// project.
    pub fn new(config_dir: &str, data_dir: &str) -> (res: Self)
        ensures
            res.spec_config_dir() == config_dir@,
            res.spec_repo_dir() == data_dir@,
    {
        XdgDirLayout { config_dir: config_dir.to_owned(), data_dir: data_dir.to_owned() }
    }
}

impl DirLayout for XdgDirLayout {
    closed spec fn spec_config_dir(&self) -> Seq<char> {
        self.config_dir@
    }

    closed spec fn spec_repo_dir(&self) -> Seq<char> {
        self.data_dir@
    }

    fn config_dir(&self) -> (res: &str) {
        self.config_dir.as_str()
    }

    fn repo_dir(&self) -> (res: &str) {
        self.data_dir.as_str()
    }
}

/// Default configuration data locator.
///
/// # Invariants
///
/// 1. Caller must validate paths themselves.
#[derive(Debug, Clone, PartialEq, Eq)]
pub struct DefaultLocator {
    config_dir: String,
    hooks_dir: String,
    hooks_config: String,
    repos_dir: String,
    repos_config: String,
}

/// The paths of a locator derived from a configuration directory and a
/// repository directory: the configuration directory itself, `hooks`,
/// `hooks.toml` and `repos.toml` joined onto it, and the repository
/// directory itself.
pub open spec fn locates(l: DefaultLocator, config_dir: Seq<char>, repo_dir: Seq<char>) -> bool {
    &&& l.spec_config_dir() == config_dir
    &&& path_joined(l.spec_hooks_dir(), config_dir, "hooks"@)
    &&& path_joined(l.spec_hooks_config(), config_dir, "hooks.toml"@)
    &&& l.spec_repos_dir() == repo_dir
    &&& path_joined(l.spec_repos_config(), config_dir, "repos.toml"@)
}

impl DefaultLocator {
    /// Locator whose paths derive from a configuration directory and a
    /// repository base directory (see [`locates`]).
    pub fn from_dirs(config_dir: &str, repo_dir: &str) -> (res: Self)
        ensures
            locates(res, config_dir@, repo_dir@),
    {
        let hooks_dir = join_path(config_dir, "hooks");
        let hooks_config = join_path(config_dir, "hooks.toml");
        let repos_dir = repo_dir.to_owned();
        let repos_config = join_path(config_dir, "repos.toml");
        DefaultLocator {
            config_dir: config_dir.to_owned(),
            hooks_dir,
            hooks_config,
            repos_dir,
            repos_config,
        }
    }

    /// Locator for the base directories of a layout.
    pub fn locate<D: DirLayout>(layout: D) -> (res: Self)
        ensures
            locates(res, layout.spec_config_dir(), layout.spec_repo_dir()),
    {
        let res = DefaultLocator::from_dirs(layout.config_dir(), layout.repo_dir());
        res
    }
}

impl Locator for DefaultLocator {
    closed spec fn spec_config_dir(&self) -> Seq<char> {
        self.config_dir@
    }

    closed spec fn spec_hooks_dir(&self) -> Seq<char> {
        self.hooks_dir@
    }

    closed spec fn spec_hooks_config(&self) -> Seq<char> {
        self.hooks_config@
    }

    closed spec fn spec_repos_dir(&self) -> Seq<char> {
        self.repos_dir@
    }

    closed spec fn spec_repos_config(&self) -> Seq<char> {
        self.repos_config@
    }

    fn config_dir(&self) -> (res: &str) {
        self.config_dir.as_str()
    }

    fn hooks_dir(&self) -> (res: &str) {
        self.hooks_dir.as_str()
    }

    fn hooks_config(&self) -> (res: &str) {
        self.hooks_config.as_str()
    }

    fn repos_dir(&self) -> (res: &str) {
        self.repos_dir.as_str()
    }

    fn repos_config(&self) -> (res: &str) {
        self.repos_config.as_str()
    }
}

} // verus!
