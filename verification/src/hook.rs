//! Command hook management.
//!
//! Command hooks are user-defined scripts run _before_ (pre) or _after_
//! (post) a command of Ricer's command set. They are defined per command in
//! Ricer's command hook configuration file and live in the special `hooks/`
//! directory. The user chooses, through the command's [`HookAction`],
//! whether hooks always run, never run, or are shown first so that the user
//! can accept or deny each one.
//!
//! [`CmdHook::plan`] decides which hook scripts a command runs, in which
//! order, where, and whether the user is asked first; running the scripts
//! and asking the user is left to the binary.

use vstd::prelude::*;

use crate::config::settings::{opt_str, CmdHookSettings, HookView};
use crate::config::toml::{toml_get, Toml, TomlError, TomlErrorView};
use crate::config::{cmd_hook_result, hooks_section, CmdHookConfig};
use crate::context::{context_action, context_name, Context, HookAction};
use crate::locate::{join_path, path_joined, Locator};

verus! {

/// Hook type to execute.
#[derive(Debug, Clone, Copy, PartialEq, Eq, Structural)]
pub enum HookKind {
    /// Execute hooks _before_ command.
    Pre,
    /// Execute hooks _after_ command.
    Post,
}

/// Pager for hook scripts.
///
/// Holds the user's answer to the last prompt: whether the hook script shown
/// was accepted.
#[derive(Debug, Clone, Copy, PartialEq, Eq)]
pub struct HookPager {
    choice: bool,
}

impl HookPager {
    /// A pager whose answer is "deny" until the user accepts a script.
    pub fn new() -> (res: Self)
        ensures
            !res.spec_choice(),
    {
        HookPager { choice: false }
    }

    pub closed spec fn spec_choice(&self) -> bool {
        self.choice
    }

    /// Whether the user accepted the last hook script shown.
    pub fn choice(&self) -> (res: bool)
        ensures
            res == self.spec_choice(),
    {
        self.choice
    }

    /// Record the user's answer to a prompt.
    pub fn answer(&mut self, accepted: bool)
        ensures
            final(self).spec_choice() == accepted,
    {
        self.choice = accepted;
    }
}

/// A hook script that a command runs.
#[derive(Debug, Clone, PartialEq, Eq)]
pub struct HookJob {
    /// Name of the script in the hook script directory.
    pub name: String,
    /// Path to the script.
    pub path: String,
    /// Working directory to run the script in, before shell expansion.
    pub workdir: Option<String>,
    /// Whether the user is shown the script and asked before it runs.
    pub prompt: bool,
}

/// Script of a hook definition for a kind of hook.
pub open spec fn hook_script(h: HookView, kind: HookKind) -> Option<Seq<char>> {
    match kind {
        HookKind::Pre => h.pre,
        HookKind::Post => h.post,
    }
}

/// Scripts and working directories that hook definitions give for a kind of
/// hook, in order; definitions without a script of that kind give nothing.
pub open spec fn hook_scripts(hs: Seq<HookView>, kind: HookKind) -> Seq<
    (Seq<char>, Option<Seq<char>>),
>
    decreases hs.len(),
{
    if hs.len() == 0 {
        Seq::empty()
    } else {
        let rest = hook_scripts(hs.drop_last(), kind);
        match hook_script(hs.last(), kind) {
            Some(name) => rest.push((name, hs.last().workdir)),
            None => rest,
        }
    }
}

/// Hook scripts that a command runs for a kind of hook: none for the Git
/// shortcut, none where hooks never run, none where the command has no hook
/// definitions; otherwise those of its definitions. An error to read the
/// definitions other than their absence is passed on.
pub open spec fn hook_plan(ctx: Context, doc: Seq<(Seq<char>, crate::tree::TomlNode)>, kind: HookKind) -> Result<
    Seq<(Seq<char>, Option<Seq<char>>)>,
    TomlErrorView,
> {
    if ctx is Git || context_action(ctx) == HookAction::Never {
        Ok(Seq::empty())
    } else {
        match cmd_hook_result(toml_get(doc, hooks_section(), context_name(ctx))) {
            Ok(c) => Ok(hook_scripts(c.hooks, kind)),
            Err(TomlErrorView::EntryNotFound(_, _)) => Ok(Seq::empty()),
            Err(e) => Err(e),
        }
    }
}

/// Scripts and working directories of jobs.
pub open spec fn job_scripts(jobs: Seq<HookJob>) -> Seq<(Seq<char>, Option<Seq<char>>)> {
    jobs.map_values(|j: HookJob| (j.name@, opt_str(j.workdir)))
}

/// Jobs that command hook settings give for a kind of hook: one per
/// definition with a script of that kind, in order, its path the script
/// joined onto `hooks_dir`.
pub(crate) fn hook_jobs(
    hooks_dir: &str,
    cmd_hook: &CmdHookSettings,
    hook_kind: HookKind,
    prompt: bool,
) -> (res: Vec<HookJob>)
    ensures
        job_scripts(res@) == hook_scripts(cmd_hook@.hooks, hook_kind),
        forall|k: int|
            0 <= k < res.len() ==> {
                let j = #[trigger] res@[k];
                &&& j.prompt == prompt
                &&& path_joined(j.path@, hooks_dir@, j.name@)
            },
{
    let ghost hs = cmd_hook@.hooks;
    let mut jobs: Vec<HookJob> = Vec::new();
    let mut i: usize = 0;
    assert(job_scripts(jobs@) =~= hook_scripts(hs.take(0), hook_kind));
    while i < cmd_hook.hooks.len()
        invariant
            i <= cmd_hook.hooks.len(),
            hs == cmd_hook@.hooks,
            hs.len() == cmd_hook.hooks.len(),
            job_scripts(jobs@) == hook_scripts(hs.take(i as int), hook_kind),
            forall|k: int|
                0 <= k < jobs.len() ==> {
                    let j = #[trigger] jobs@[k];
                    &&& j.prompt == prompt
                    &&& path_joined(j.path@, hooks_dir@, j.name@)
                },
        decreases cmd_hook.hooks.len() - i,
    {
        let hook = &cmd_hook.hooks[i];
        let script = match hook_kind {
            HookKind::Pre => &hook.pre,
            HookKind::Post => &hook.post,
        };
        proof {
            assert(hs[i as int] == hook@);
            assert(hs.take(i + 1).drop_last() =~= hs.take(i as int));
        }
        match script {
            Some(n) => {
                let workdir = match &hook.workdir {
                    Some(w) => Some(w.clone()),
                    None => None,
                };
                let path = join_path(hooks_dir, n.as_str());
                let job = HookJob { name: n.clone(), path, workdir, prompt };
                proof {
                    assert(job_scripts(jobs@.push(job)) =~= job_scripts(jobs@).push(
                        (job.name@, opt_str(job.workdir)),
                    ));
                }
                jobs.push(job);
            },
            None => {},
        }
        i = i + 1;
    }
    assert(hs.take(hs.len() as int) =~= hs);
    jobs
}

/// Command hook execution handler.
///
/// Executes user-defined hooks according to specified hook actions selected
/// by the user through [`Context`]. Hooks utilize scripts that must be
/// defined in the special `hooks/` directory at the top-level of Ricer's
/// configuration directory.
pub struct CmdHook<'cfg> {
    context: &'cfg Context,
    hooks_dir: String,
    config: Toml,
    pager: HookPager,
}

impl<'cfg> CmdHook<'cfg> {
    /// Command hook handler for a context, the hook script directory that
    /// `locator` gives, and a command hook configuration document.
    pub fn new<L: Locator>(context: &'cfg Context, locator: &L, config: Toml) -> (res: Self)
        ensures
            res.context() == *context,
            res.hooks_dir() == locator.spec_hooks_dir(),
            res.config() == config@,
            !res.pager().spec_choice(),
    {
        CmdHook { context, hooks_dir: locator.hooks_dir().to_owned(), config, pager: HookPager::new() }
    }

    pub closed spec fn context(&self) -> Context {
        *self.context
    }

    pub closed spec fn hooks_dir(&self) -> Seq<char> {
        self.hooks_dir@
    }

    pub closed spec fn config(&self) -> Seq<(Seq<char>, crate::tree::TomlNode)> {
        self.config@
    }

    pub closed spec fn pager(&self) -> HookPager {
        self.pager
    }

    /// What to do with hooks in this context.
    fn get_hook_action(&self) -> (res: HookAction)
        requires
            !(self.context() is Git),
        ensures
            res == context_action(self.context()),
    {
        match self.context {
            Context::Bootstrap(ctx) => ctx.shared.run_hook,
            Context::Clone(ctx) => ctx.shared.run_hook,
            Context::Commit(ctx) => ctx.shared.run_hook,
            Context::Delete(ctx) => ctx.shared.run_hook,
            Context::Enter(ctx) => ctx.shared.run_hook,
            Context::Init(ctx) => ctx.shared.run_hook,
            Context::List(ctx) => ctx.shared.run_hook,
            Context::Pull(ctx) => ctx.shared.run_hook,
            Context::Push(ctx) => ctx.shared.run_hook,
            Context::Rename(ctx) => ctx.shared.run_hook,
            Context::Status(ctx) => ctx.shared.run_hook,
            Context::Git(_) => HookAction::Never,
        }
    }

    /// Hook scripts to run for a kind of hook, in order (see [`hook_plan`]).
    /// Each job's path is its script joined onto the hook script directory;
    /// the user is asked before each job where the hook action is to prompt.
    ///
    /// # Errors
    ///
    /// Return the [`TomlError`] met reading the command's hook definitions,
    /// unless the command has none.
    pub fn plan(&self, hook_kind: HookKind) -> (res: Result<Vec<HookJob>, TomlError>)
        ensures
            match res {
                Ok(jobs) => hook_plan(self.context(), self.config(), hook_kind) == Ok::<
                    Seq<(Seq<char>, Option<Seq<char>>)>,
                    TomlErrorView,
                >(job_scripts(jobs@)),
                Err(e) => hook_plan(self.context(), self.config(), hook_kind) == Err::<
                    Seq<(Seq<char>, Option<Seq<char>>)>,
                    TomlErrorView,
                >(e@),
            },
            res matches Ok(jobs) ==> forall|i: int|
                0 <= i < jobs.len() ==> {
                    let j = #[trigger] jobs@[i];
                    &&& j.prompt == (context_action(self.context()) == HookAction::Prompt)
                    &&& path_joined(j.path@, self.hooks_dir(), j.name@)
                },
    {
        if let Context::Git(_) = self.context {
            let none: Vec<HookJob> = Vec::new();
            assert(job_scripts(none@) =~= Seq::empty());
            return Ok(none);
        }
        let action = self.get_hook_action();
        if action == HookAction::Never {
            let none: Vec<HookJob> = Vec::new();
            assert(job_scripts(none@) =~= Seq::empty());
            return Ok(none);
        }
        let name = self.context.to_string();
        let cmd_hook = match CmdHookConfig.get(&self.config, name.as_str()) {
            Ok(c) => c,
            Err(TomlError::EntryNotFound { .. }) => {
                let none: Vec<HookJob> = Vec::new();
                assert(job_scripts(none@) =~= Seq::empty());
                return Ok(none);
            },
            Err(e) => {
                return Err(e);
            },
        };
        let prompt = action == HookAction::Prompt;
        let jobs = hook_jobs(self.hooks_dir.as_str(), &cmd_hook, hook_kind, prompt);
        Ok(jobs)
    }

    /// Record the user's answer to the prompt for a hook script.
    pub fn answer(&mut self, accepted: bool)
        ensures
            final(self).pager().spec_choice() == accepted,
            final(self).context() == old(self).context(),
            final(self).config() == old(self).config(),
            final(self).hooks_dir() == old(self).hooks_dir(),
    {
        self.pager.answer(accepted);
    }

    /// Whether a job runs: always where the user is not asked, otherwise
    /// only where the user accepted it.
    pub fn approves(&self, job: &HookJob) -> (res: bool)
        ensures
            res == (!job.prompt || self.pager().spec_choice()),
    {
        !job.prompt || self.pager.choice()
    }
}

} // verus!

verus! {

/// Law: the Git shortcut runs no hooks.
pub proof fn lemma_git_runs_no_hooks(
    ctx: Context,
    doc: Seq<(Seq<char>, crate::tree::TomlNode)>,
    kind: HookKind,
)
    requires
        ctx is Git,
    ensures
        hook_plan(ctx, doc, kind) == Ok::<Seq<(Seq<char>, Option<Seq<char>>)>, TomlErrorView>(
            Seq::empty(),
        ),
{
}

/// Law: where the user chose never to run hooks, none runs.
pub proof fn lemma_never_runs_no_hooks(
    ctx: Context,
    doc: Seq<(Seq<char>, crate::tree::TomlNode)>,
    kind: HookKind,
)
    requires
        context_action(ctx) == HookAction::Never,
    ensures
        hook_plan(ctx, doc, kind) == Ok::<Seq<(Seq<char>, Option<Seq<char>>)>, TomlErrorView>(
            Seq::empty(),
        ),
{
}

/// Law: a command without hook definitions runs no hooks, and this is no
/// error.
pub proof fn lemma_commands_may_lack_hooks(
    ctx: Context,
    doc: Seq<(Seq<char>, crate::tree::TomlNode)>,
    kind: HookKind,
)
    requires
        toml_get(doc, hooks_section(), context_name(ctx)) is Err,
        toml_get(doc, hooks_section(), context_name(ctx))->Err_0 is EntryNotFound,
    ensures
        hook_plan(ctx, doc, kind) == Ok::<Seq<(Seq<char>, Option<Seq<char>>)>, TomlErrorView>(
            Seq::empty(),
        ),
{
}

/// Law: after a command's hook definitions are added to a command hook
/// document, the hooks planned for the command are the scripts of those
/// definitions of the kind asked for, in order, unless the command is the
/// Git shortcut or never runs hooks.
pub proof fn lemma_plan_after_add(
    ctx: Context,
    doc: Seq<(Seq<char>, crate::tree::TomlNode)>,
    hooks: Seq<HookView>,
    kind: HookKind,
)
    requires
        crate::tree::entries_wf(doc, false),
        !(ctx is Git),
        context_action(ctx) != HookAction::Never,
        crate::config::toml::toml_add(
            doc,
            hooks_section(),
            context_name(ctx),
            crate::tree::TomlNode::Array(crate::config::settings::hook_nodes(hooks)),
        ).1 is Ok,
    ensures
        hook_plan(
            ctx,
            crate::config::toml::toml_add(
                doc,
                hooks_section(),
                context_name(ctx),
                crate::tree::TomlNode::Array(crate::config::settings::hook_nodes(hooks)),
            ).0,
            kind,
        ) == Ok::<Seq<(Seq<char>, Option<Seq<char>>)>, TomlErrorView>(hook_scripts(hooks, kind)),
{
    crate::config::lemma_cmd_hook_get_after_add(
        doc,
        crate::config::settings::CmdHookView { cmd: context_name(ctx), hooks },
    );
}

/// Law: one hook definition with a script of the kind asked for plans that
/// script, once, with the definition's own working directory, whichever the
/// kind (pre or post); one without such a script plans nothing.
pub proof fn lemma_hook_scripts_one(h: HookView, kind: HookKind)
    ensures
        hook_scripts(seq![h], kind) == match kind {
            HookKind::Pre => match h.pre {
                Some(n) => seq![(n, h.workdir)],
                None => Seq::empty(),
            },
            HookKind::Post => match h.post {
                Some(n) => seq![(n, h.workdir)],
                None => Seq::empty(),
            },
        },
{
    let one = seq![h];
    assert(one.drop_last() =~= Seq::<HookView>::empty());
    assert(one.last() == h);
    assert(hook_scripts(Seq::<HookView>::empty(), kind) == Seq::<(Seq<char>, Option<Seq<char>>)>::empty());
    match hook_script(h, kind) {
        Some(n) => {
            assert(Seq::<(Seq<char>, Option<Seq<char>>)>::empty().push((n, h.workdir)) =~= seq![
                (n, h.workdir),
            ]);
        },
        None => {},
    }
}

/// Law: the plan of two runs of hook definitions, one after the other, is the
/// plan of the first followed by the plan of the second.
pub proof fn lemma_hook_scripts_concat(a: Seq<HookView>, b: Seq<HookView>, kind: HookKind)
    ensures
        hook_scripts(a + b, kind) == hook_scripts(a, kind) + hook_scripts(b, kind),
    decreases b.len(),
{
    if b.len() == 0 {
        assert(a + b =~= a);
        assert(hook_scripts(a, kind) + Seq::empty() =~= hook_scripts(a, kind));
    } else {
        let d = b.drop_last();
        lemma_hook_scripts_concat(a, d, kind);
        assert((a + b).drop_last() =~= a + d);
        assert((a + b).last() == b.last());
        match hook_script(b.last(), kind) {
            Some(n) => {
                assert(hook_scripts(a, kind) + hook_scripts(d, kind).push((n, b.last().workdir))
                    =~= (hook_scripts(a, kind) + hook_scripts(d, kind)).push((n, b.last().workdir)));
            },
            None => {},
        }
    }
}

} // verus!
