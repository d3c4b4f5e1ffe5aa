//! Command contexts.
//!
//! A context is what a command of Ricer's command set needs to know from
//! the command line: its own options and the shared ones.

use vstd::prelude::*;

use crate::cli::{Cli, CommandSet, SharedOptions};

verus! {

/// What to do with command hooks.
#[derive(Debug, Clone, Copy, PartialEq, Eq, Structural)]
pub enum HookAction {
    /// Always run hooks, no questions asked.
    Always,
    /// Show each hook and ask before running it.
    Prompt,
    /// Never run hooks, no questions asked.
    Never,
}

impl Default for HookAction {
    fn default() -> (res: Self)
        ensures
            res == HookAction::Prompt,
    {
        HookAction::Prompt
    }
}

/// How `commit` fixes up a commit.
#[derive(Debug, Clone, Copy, PartialEq, Eq, Structural)]
pub enum FixupAction {
    Amend,
    Reword,
}

impl Default for FixupAction {
    fn default() -> (res: Self)
        ensures
            res == FixupAction::Amend,
    {
        FixupAction::Amend
    }
}

/// Context of each command of Ricer's command set.
#[derive(Debug, PartialEq, Eq)]
pub enum Context {
    Bootstrap(BootstrapContext),
    Clone(CloneContext),
    Commit(CommitContext),
    Delete(DeleteContext),
    Enter(EnterContext),
    Init(InitContext),
    List(ListContext),
    Push(PushContext),
    Pull(PullContext),
    Rename(RenameContext),
    Status(StatusContext),
    Git(GitContext),
}

#[derive(Debug, PartialEq, Eq)]
pub struct BootstrapContext {
    pub config: Option<String>,
    pub from: Option<String>,
    pub only: Option<Vec<String>>,
    pub shared: SharedContext,
}

#[derive(Debug, PartialEq, Eq)]
pub struct CloneContext {
    pub remote: String,
    pub repo: Option<String>,
    pub shared: SharedContext,
}

#[derive(Debug, PartialEq, Eq)]
pub struct CommitContext {
    pub fixup: Option<FixupAction>,
    pub message: Option<String>,
    pub shared: SharedContext,
}

#[derive(Debug, PartialEq, Eq)]
pub struct DeleteContext {
    pub repo: String,
    pub shared: SharedContext,
}

#[derive(Debug, PartialEq, Eq)]
pub struct EnterContext {
    pub repo: String,
    pub shared: SharedContext,
}

#[derive(Debug, PartialEq, Eq)]
pub struct InitContext {
    pub name: String,
    pub workdir_home: bool,
    pub branch: Option<String>,
    pub remote: Option<String>,
    pub shared: SharedContext,
}

#[derive(Debug, PartialEq, Eq)]
pub struct ListContext {
    pub show_tracked: bool,
    pub untracked: bool,
    pub shared: SharedContext,
}

#[derive(Debug, PartialEq, Eq)]
pub struct PushContext {
    pub remote: Option<String>,
    pub branch: Option<String>,
    pub shared: SharedContext,
}

#[derive(Debug, PartialEq, Eq)]
pub struct PullContext {
    pub branch: Option<String>,
    pub remote: Option<String>,
    pub shared: SharedContext,
}

#[derive(Debug, PartialEq, Eq)]
pub struct RenameContext {
    pub from: String,
    pub to: String,
    pub shared: SharedContext,
}

#[derive(Debug, PartialEq, Eq)]
pub struct StatusContext {
    pub terse: bool,
    pub shared: SharedContext,
}

/// Context of the Git shortcut: the repository to run Git on, and the
/// arguments to hand Git.
#[derive(Debug, PartialEq, Eq)]
pub struct GitContext {
    pub repo: String,
    pub git_args: Vec<String>,
}

/// Context shared by every command.
#[derive(Debug, PartialEq, Eq)]
pub struct SharedContext {
    pub run_hook: HookAction,
}

impl SharedContext {
    pub fn from(opts: SharedOptions) -> (res: Self)
        ensures
            res.run_hook == opts.run_hook,
    {
        SharedContext { run_hook: opts.run_hook }
    }
}

impl BootstrapContext {
    pub fn from(opts: Cli) -> (res: Self)
        requires
            opts.cmd_set is Bootstrap,
        ensures
            res == (BootstrapContext {
                config: opts.cmd_set->Bootstrap_0.config,
                from: opts.cmd_set->Bootstrap_0.from,
                only: opts.cmd_set->Bootstrap_0.only,
                shared: SharedContext { run_hook: opts.shared_opts.run_hook },
            }),
    {
        let Cli { shared_opts, cmd_set } = opts;
        match cmd_set {
            CommandSet::Bootstrap(o) => BootstrapContext {
                config: o.config,
                from: o.from,
                only: o.only,
                shared: SharedContext::from(shared_opts),
            },
            _ => {
                proof {
                    assert(false);
                }
                BootstrapContext {
                    config: None,
                    from: None,
                    only: None,
                    shared: SharedContext::from(shared_opts),
                }
            },
        }
    }
}

impl CloneContext {
    pub fn from(opts: Cli) -> (res: Self)
        requires
            opts.cmd_set is Clone,
        ensures
            res == (CloneContext {
                remote: opts.cmd_set->Clone_0.remote,
                repo: opts.cmd_set->Clone_0.repo,
                shared: SharedContext { run_hook: opts.shared_opts.run_hook },
            }),
    {
        let Cli { shared_opts, cmd_set } = opts;
        match cmd_set {
            CommandSet::Clone(o) => CloneContext {
                remote: o.remote,
                repo: o.repo,
                shared: SharedContext::from(shared_opts),
            },
            _ => {
                proof {
                    assert(false);
                }
                CloneContext { remote: String::new(), repo: None, shared: SharedContext::from(shared_opts) }
            },
        }
    }
}

impl CommitContext {
    pub fn from(opts: Cli) -> (res: Self)
        requires
            opts.cmd_set is Commit,
        ensures
            res == (CommitContext {
                fixup: opts.cmd_set->Commit_0.fixup,
                message: opts.cmd_set->Commit_0.message,
                shared: SharedContext { run_hook: opts.shared_opts.run_hook },
            }),
    {
        let Cli { shared_opts, cmd_set } = opts;
        match cmd_set {
            CommandSet::Commit(o) => CommitContext {
                fixup: o.fixup,
                message: o.message,
                shared: SharedContext::from(shared_opts),
            },
            _ => {
                proof {
                    assert(false);
                }
                CommitContext { fixup: None, message: None, shared: SharedContext::from(shared_opts) }
            },
        }
    }
}

impl DeleteContext {
    pub fn from(opts: Cli) -> (res: Self)
        requires
            opts.cmd_set is Delete,
        ensures
            res == (DeleteContext {
                repo: opts.cmd_set->Delete_0.repo,
                shared: SharedContext { run_hook: opts.shared_opts.run_hook },
            }),
    {
        let Cli { shared_opts, cmd_set } = opts;
        match cmd_set {
            CommandSet::Delete(o) => DeleteContext { repo: o.repo, shared: SharedContext::from(shared_opts) },
            _ => {
                proof {
                    assert(false);
                }
                DeleteContext { repo: String::new(), shared: SharedContext::from(shared_opts) }
            },
        }
    }
}

impl EnterContext {
    pub fn from(opts: Cli) -> (res: Self)
        requires
            opts.cmd_set is Enter,
        ensures
            res == (EnterContext {
                repo: opts.cmd_set->Enter_0.repo,
                shared: SharedContext { run_hook: opts.shared_opts.run_hook },
            }),
    {
        let Cli { shared_opts, cmd_set } = opts;
        match cmd_set {
            CommandSet::Enter(o) => EnterContext { repo: o.repo, shared: SharedContext::from(shared_opts) },
            _ => {
                proof {
                    assert(false);
                }
                EnterContext { repo: String::new(), shared: SharedContext::from(shared_opts) }
            },
        }
    }
}

impl InitContext {
    pub fn from(opts: Cli) -> (res: Self)
        requires
            opts.cmd_set is Init,
        ensures
            res == (InitContext {
                name: opts.cmd_set->Init_0.name,
                workdir_home: opts.cmd_set->Init_0.workdir_home,
                branch: opts.cmd_set->Init_0.branch,
                remote: opts.cmd_set->Init_0.remote,
                shared: SharedContext { run_hook: opts.shared_opts.run_hook },
            }),
    {
        let Cli { shared_opts, cmd_set } = opts;
        match cmd_set {
            CommandSet::Init(o) => InitContext {
                name: o.name,
                workdir_home: o.workdir_home,
                branch: o.branch,
                remote: o.remote,
                shared: SharedContext::from(shared_opts),
            },
            _ => {
                proof {
                    assert(false);
                }
                InitContext {
                    name: String::new(),
                    workdir_home: false,
                    branch: None,
                    remote: None,
                    shared: SharedContext::from(shared_opts),
                }
            },
        }
    }
}

impl ListContext {
    pub fn from(opts: Cli) -> (res: Self)
        requires
            opts.cmd_set is List,
        ensures
            res == (ListContext {
                show_tracked: opts.cmd_set->List_0.show_tracked,
                untracked: opts.cmd_set->List_0.untracked,
                shared: SharedContext { run_hook: opts.shared_opts.run_hook },
            }),
    {
        let Cli { shared_opts, cmd_set } = opts;
        match cmd_set {
            CommandSet::List(o) => ListContext {
                show_tracked: o.show_tracked,
                untracked: o.untracked,
                shared: SharedContext::from(shared_opts),
            },
            _ => {
                proof {
                    assert(false);
                }
                ListContext { show_tracked: false, untracked: false, shared: SharedContext::from(shared_opts) }
            },
        }
    }
}

impl PushContext {
    pub fn from(opts: Cli) -> (res: Self)
        requires
            opts.cmd_set is Push,
        ensures
            res == (PushContext {
                remote: opts.cmd_set->Push_0.remote,
                branch: opts.cmd_set->Push_0.branch,
                shared: SharedContext { run_hook: opts.shared_opts.run_hook },
            }),
    {
        let Cli { shared_opts, cmd_set } = opts;
        match cmd_set {
            CommandSet::Push(o) => PushContext {
                remote: o.remote,
                branch: o.branch,
                shared: SharedContext::from(shared_opts),
            },
            _ => {
                proof {
                    assert(false);
                }
                PushContext { remote: None, branch: None, shared: SharedContext::from(shared_opts) }
            },
        }
    }
}

impl PullContext {
    pub fn from(opts: Cli) -> (res: Self)
        requires
            opts.cmd_set is Pull,
        ensures
            res == (PullContext {
                branch: opts.cmd_set->Pull_0.branch,
                remote: opts.cmd_set->Pull_0.remote,
                shared: SharedContext { run_hook: opts.shared_opts.run_hook },
            }),
    {
        let Cli { shared_opts, cmd_set } = opts;
        match cmd_set {
            CommandSet::Pull(o) => PullContext {
                branch: o.branch,
                remote: o.remote,
                shared: SharedContext::from(shared_opts),
            },
            _ => {
                proof {
                    assert(false);
                }
                PullContext { branch: None, remote: None, shared: SharedContext::from(shared_opts) }
            },
        }
    }
}

impl RenameContext {
    pub fn from(opts: Cli) -> (res: Self)
        requires
            opts.cmd_set is Rename,
        ensures
            res == (RenameContext {
                from: opts.cmd_set->Rename_0.from,
                to: opts.cmd_set->Rename_0.to,
                shared: SharedContext { run_hook: opts.shared_opts.run_hook },
            }),
    {
        let Cli { shared_opts, cmd_set } = opts;
        match cmd_set {
            CommandSet::Rename(o) => RenameContext {
                from: o.from,
                to: o.to,
                shared: SharedContext::from(shared_opts),
            },
            _ => {
                proof {
                    assert(false);
                }
                RenameContext { from: String::new(), to: String::new(), shared: SharedContext::from(shared_opts) }
            },
        }
    }
}

impl StatusContext {
    pub fn from(opts: Cli) -> (res: Self)
        requires
            opts.cmd_set is Status,
        ensures
            res == (StatusContext {
                terse: opts.cmd_set->Status_0.terse,
                shared: SharedContext { run_hook: opts.shared_opts.run_hook },
            }),
    {
        let Cli { shared_opts, cmd_set } = opts;
        match cmd_set {
            CommandSet::Status(o) => StatusContext { terse: o.terse, shared: SharedContext::from(shared_opts) },
            _ => {
                proof {
                    assert(false);
                }
                StatusContext { terse: false, shared: SharedContext::from(shared_opts) }
            },
        }
    }
}

impl GitContext {
    /// Context of the Git shortcut: the first word names the repository,
    /// the others go to Git.
    pub fn from(opts: Cli) -> (res: Self)
        requires
            opts.cmd_set matches CommandSet::Git(words) && words.len() >= 1,
        ensures
            res.repo == opts.cmd_set->Git_0@[0],
            res.git_args@ == opts.cmd_set->Git_0@.subrange(1, opts.cmd_set->Git_0.len() as int),
    {
        let Cli { cmd_set, .. } = opts;
        match cmd_set {
            CommandSet::Git(words) => {
                let mut git_args = words;
                let repo = git_args.remove(0);
                GitContext { repo, git_args }
            },
            _ => {
                proof {
                    assert(false);
                }
                GitContext { repo: String::new(), git_args: Vec::new() }
            },
        }
    }
}

/// Name of the command of a context.
pub open spec fn context_name(c: Context) -> Seq<char> {
    match c {
        Context::Bootstrap(_) => "bootstrap"@,
        Context::Clone(_) => "clone"@,
        Context::Commit(_) => "commit"@,
        Context::Delete(_) => "delete"@,
        Context::Enter(_) => "enter"@,
        Context::Init(_) => "init"@,
        Context::List(_) => "list"@,
        Context::Pull(_) => "pull"@,
        Context::Push(_) => "push"@,
        Context::Rename(_) => "rename"@,
        Context::Status(_) => "status"@,
        Context::Git(_) => Seq::empty(),
    }
}

/// What to do with command hooks in a context; the Git shortcut has no
/// such choice.
pub open spec fn context_action(c: Context) -> HookAction {
    match c {
        Context::Bootstrap(x) => x.shared.run_hook,
        Context::Clone(x) => x.shared.run_hook,
        Context::Commit(x) => x.shared.run_hook,
        Context::Delete(x) => x.shared.run_hook,
        Context::Enter(x) => x.shared.run_hook,
        Context::Init(x) => x.shared.run_hook,
        Context::List(x) => x.shared.run_hook,
        Context::Pull(x) => x.shared.run_hook,
        Context::Push(x) => x.shared.run_hook,
        Context::Rename(x) => x.shared.run_hook,
        Context::Status(x) => x.shared.run_hook,
        Context::Git(_) => HookAction::Never,
    }
}

/// Whether a command line is one that a context can be made of: the Git
/// shortcut needs at least the repository's name.
pub open spec fn cli_ok(opts: Cli) -> bool {
    opts.cmd_set matches CommandSet::Git(words) ==> words.len() >= 1
}

/// Whether a context is the one made of a command line.
pub open spec fn context_of(opts: Cli, c: Context) -> bool {
    match opts.cmd_set {
        CommandSet::Bootstrap(o) => c == Context::Bootstrap(
            BootstrapContext {
                config: o.config,
                from: o.from,
                only: o.only,
                shared: SharedContext { run_hook: opts.shared_opts.run_hook },
            },
        ),
        CommandSet::Clone(o) => c == Context::Clone(
            CloneContext {
                remote: o.remote,
                repo: o.repo,
                shared: SharedContext { run_hook: opts.shared_opts.run_hook },
            },
        ),
        CommandSet::Commit(o) => c == Context::Commit(
            CommitContext {
                fixup: o.fixup,
                message: o.message,
                shared: SharedContext { run_hook: opts.shared_opts.run_hook },
            },
        ),
        CommandSet::Delete(o) => c == Context::Delete(
            DeleteContext { repo: o.repo, shared: SharedContext { run_hook: opts.shared_opts.run_hook } },
        ),
        CommandSet::Enter(o) => c == Context::Enter(
            EnterContext { repo: o.repo, shared: SharedContext { run_hook: opts.shared_opts.run_hook } },
        ),
        CommandSet::Init(o) => c == Context::Init(
            InitContext {
                name: o.name,
                workdir_home: o.workdir_home,
                branch: o.branch,
                remote: o.remote,
                shared: SharedContext { run_hook: opts.shared_opts.run_hook },
            },
        ),
        CommandSet::List(o) => c == Context::List(
            ListContext {
                show_tracked: o.show_tracked,
                untracked: o.untracked,
                shared: SharedContext { run_hook: opts.shared_opts.run_hook },
            },
        ),
        CommandSet::Push(o) => c == Context::Push(
            PushContext {
                remote: o.remote,
                branch: o.branch,
                shared: SharedContext { run_hook: opts.shared_opts.run_hook },
            },
        ),
        CommandSet::Pull(o) => c == Context::Pull(
            PullContext {
                branch: o.branch,
                remote: o.remote,
                shared: SharedContext { run_hook: opts.shared_opts.run_hook },
            },
        ),
        CommandSet::Rename(o) => c == Context::Rename(
            RenameContext {
                from: o.from,
                to: o.to,
                shared: SharedContext { run_hook: opts.shared_opts.run_hook },
            },
        ),
        CommandSet::Status(o) => c == Context::Status(
            StatusContext { terse: o.terse, shared: SharedContext { run_hook: opts.shared_opts.run_hook } },
        ),
        CommandSet::Git(words) => c matches Context::Git(g) && g.repo == words@[0] && g.git_args@
            == words@.subrange(1, words.len() as int),
    }
}

impl Context {
    /// Context of the command on a parsed command line.
    pub fn from(opts: Cli) -> (res: Self)
        requires
            cli_ok(opts),
        ensures
            context_of(opts, res),
    {
        match &opts.cmd_set {
            CommandSet::Bootstrap(_) => Context::Bootstrap(BootstrapContext::from(opts)),
            CommandSet::Clone(_) => Context::Clone(CloneContext::from(opts)),
            CommandSet::Commit(_) => Context::Commit(CommitContext::from(opts)),
            CommandSet::Delete(_) => Context::Delete(DeleteContext::from(opts)),
            CommandSet::Enter(_) => Context::Enter(EnterContext::from(opts)),
            CommandSet::Init(_) => Context::Init(InitContext::from(opts)),
            CommandSet::List(_) => Context::List(ListContext::from(opts)),
            CommandSet::Push(_) => Context::Push(PushContext::from(opts)),
            CommandSet::Pull(_) => Context::Pull(PullContext::from(opts)),
            CommandSet::Rename(_) => Context::Rename(RenameContext::from(opts)),
            CommandSet::Status(_) => Context::Status(StatusContext::from(opts)),
            CommandSet::Git(_) => Context::Git(GitContext::from(opts)),
        }
    }

    /// Name of the context's command. The Git shortcut has none.
    pub fn to_string(&self) -> (res: String)
        requires
            !(self is Git),
        ensures
            res@ == context_name(*self),
    {
        match self {
            Context::Bootstrap(_) => "bootstrap".to_owned(),
            Context::Clone(_) => "clone".to_owned(),
            Context::Commit(_) => "commit".to_owned(),
            Context::Delete(_) => "delete".to_owned(),
            Context::Enter(_) => "enter".to_owned(),
            Context::Init(_) => "init".to_owned(),
            Context::List(_) => "list".to_owned(),
            Context::Pull(_) => "pull".to_owned(),
            Context::Push(_) => "push".to_owned(),
            Context::Rename(_) => "rename".to_owned(),
            Context::Status(_) => "status".to_owned(),
            Context::Git(_) => String::new(),
        }
    }
}

} // verus!

verus! {

/// Law: the context made of a command line keeps the hook action chosen on
/// it, unless the command is the Git shortcut.
pub proof fn lemma_context_keeps_hook_action(opts: Cli, c: Context)
    requires
        context_of(opts, c),
        !(opts.cmd_set is Git),
    ensures
        context_action(c) == opts.shared_opts.run_hook,
        !(c is Git),
{
}

/// Law: the context made of a command line is the Git shortcut exactly
/// when the command line's command is.
pub proof fn lemma_context_git_iff(opts: Cli, c: Context)
    requires
        context_of(opts, c),
    ensures
        (c is Git) == (opts.cmd_set is Git),
{
}

/// Law: the name of a context is the name of its own command: the key
/// that its hooks are looked up under.
pub proof fn lemma_context_name_is_command(c: Context)
    ensures
        c is Bootstrap ==> context_name(c) == "bootstrap"@,
        c is Clone ==> context_name(c) == "clone"@,
        c is Commit ==> context_name(c) == "commit"@,
        c is Delete ==> context_name(c) == "delete"@,
        c is Enter ==> context_name(c) == "enter"@,
        c is Init ==> context_name(c) == "init"@,
        c is List ==> context_name(c) == "list"@,
        c is Pull ==> context_name(c) == "pull"@,
        c is Push ==> context_name(c) == "push"@,
        c is Rename ==> context_name(c) == "rename"@,
        c is Status ==> context_name(c) == "status"@,
{
}

/// The command names, letter by letter.
proof fn lemma_command_name_letters()
    ensures
        "bootstrap"@ =~= seq!['b', 'o', 'o', 't', 's', 't', 'r', 'a', 'p'],
        "clone"@ =~= seq!['c', 'l', 'o', 'n', 'e'],
        "commit"@ =~= seq!['c', 'o', 'm', 'm', 'i', 't'],
        "delete"@ =~= seq!['d', 'e', 'l', 'e', 't', 'e'],
        "enter"@ =~= seq!['e', 'n', 't', 'e', 'r'],
        "init"@ =~= seq!['i', 'n', 'i', 't'],
        "list"@ =~= seq!['l', 'i', 's', 't'],
        "pull"@ =~= seq!['p', 'u', 'l', 'l'],
        "push"@ =~= seq!['p', 'u', 's', 'h'],
        "rename"@ =~= seq!['r', 'e', 'n', 'a', 'm', 'e'],
        "status"@ =~= seq!['s', 't', 'a', 't', 'u', 's'],
{
    reveal_strlit("bootstrap");
    reveal_strlit("clone");
    reveal_strlit("commit");
    reveal_strlit("delete");
    reveal_strlit("enter");
    reveal_strlit("init");
    reveal_strlit("list");
    reveal_strlit("pull");
    reveal_strlit("push");
    reveal_strlit("rename");
    reveal_strlit("status");
}

/// Law: no two commands share a name, so each command finds its own hooks.
pub proof fn lemma_context_name_injective(c1: Context, c2: Context)
    requires
        !(c1 is Git),
        !(c2 is Git),
        context_name(c1) == context_name(c2),
    ensures
        (c1 is Bootstrap) == (c2 is Bootstrap),
        (c1 is Clone) == (c2 is Clone),
        (c1 is Commit) == (c2 is Commit),
        (c1 is Delete) == (c2 is Delete),
        (c1 is Enter) == (c2 is Enter),
        (c1 is Init) == (c2 is Init),
        (c1 is List) == (c2 is List),
        (c1 is Pull) == (c2 is Pull),
        (c1 is Push) == (c2 is Push),
        (c1 is Rename) == (c2 is Rename),
        (c1 is Status) == (c2 is Status),
{
    lemma_command_name_letters();
    let n = context_name(c1);
    assert(n.len() > 0 && n[0] == context_name(c2)[0]);
    assert(n.len() == context_name(c2).len());
    if n.len() >= 2 {
        assert(n[1] == context_name(c2)[1]);
    }
    if n.len() >= 3 {
        assert(n[2] == context_name(c2)[2]);
    }
}

/// Law: the context made of a command line keeps each option of the
/// command in the field of the same name.
pub proof fn lemma_context_keeps_options(opts: Cli, c: Context)
    requires
        context_of(opts, c),
    ensures
        match opts.cmd_set {
            CommandSet::Bootstrap(o) => c matches Context::Bootstrap(x) && x.config == o.config
                && x.from == o.from && x.only == o.only,
            CommandSet::Clone(o) => c matches Context::Clone(x) && x.remote == o.remote && x.repo
                == o.repo,
            CommandSet::Commit(o) => c matches Context::Commit(x) && x.fixup == o.fixup && x.message
                == o.message,
            CommandSet::Delete(o) => c matches Context::Delete(x) && x.repo == o.repo,
            CommandSet::Enter(o) => c matches Context::Enter(x) && x.repo == o.repo,
            CommandSet::Init(o) => c matches Context::Init(x) && x.name == o.name && x.workdir_home
                == o.workdir_home && x.branch == o.branch && x.remote == o.remote,
            CommandSet::List(o) => c matches Context::List(x) && x.show_tracked == o.show_tracked
                && x.untracked == o.untracked,
            CommandSet::Push(o) => c matches Context::Push(x) && x.remote == o.remote && x.branch
                == o.branch,
            CommandSet::Pull(o) => c matches Context::Pull(x) && x.remote == o.remote && x.branch
                == o.branch,
            CommandSet::Rename(o) => c matches Context::Rename(x) && x.from == o.from && x.to == o.to,
            CommandSet::Status(o) => c matches Context::Status(x) && x.terse == o.terse,
            CommandSet::Git(words) => c matches Context::Git(g) && g.repo == words@[0],
        },
{
}

} // verus!
