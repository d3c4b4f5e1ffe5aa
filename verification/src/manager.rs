//! Command hook management, strict form.
//!
//! [`CommandHookManager`] runs the hooks of a command like
//! [`crate::hook::CmdHook`], with two differences: a command must have hook
//! definitions, and a hook script is shown with the hook script directory
//! as its working directory where its definition gives none.

use vstd::prelude::*;

use crate::config::toml::{toml_get, Toml, TomlError, TomlErrorView};
use crate::config::{cmd_hook_result, hooks_section, CmdHookConfig};
use crate::context::{context_action, context_name, Context, HookAction};
pub use crate::hook::HookKind;
use crate::hook::{hook_jobs, hook_scripts, job_scripts, HookJob, HookPager};
use crate::locate::{path_joined, Locator};

verus! {

/// Hook scripts that a command runs for a kind of hook: none for the Git
/// shortcut, none where hooks never run; otherwise those of its hook
/// definitions. Any error to read the definitions is passed on.
pub open spec fn managed_plan(
    ctx: Context,
    doc: Seq<(Seq<char>, crate::tree::TomlNode)>,
    kind: HookKind,
) -> Result<Seq<(Seq<char>, Option<Seq<char>>)>, TomlErrorView> {
    if ctx is Git || context_action(ctx) == HookAction::Never {
        Ok(Seq::empty())
    } else {
        match cmd_hook_result(toml_get(doc, hooks_section(), context_name(ctx))) {
            Ok(c) => Ok(hook_scripts(c.hooks, kind)),
            Err(e) => Err(e),
        }
    }
}

/// Command hook manager.
pub struct CommandHookManager<'cfg> {
    context: &'cfg Context,
    hooks_dir: String,
    config: Toml,
    pager: HookPager,
}

impl<'cfg> CommandHookManager<'cfg> {
    /// Manager of the hooks of a context, with the hook script directory
    /// that `locator` gives and a command hook configuration document.
    pub fn new<L: Locator>(context: &'cfg Context, locator: &L, config: Toml) -> (res: Self)
        ensures
            res.context() == *context,
            res.hooks_dir() == locator.spec_hooks_dir(),
            res.config() == config@,
            !res.pager().spec_choice(),
    {
        CommandHookManager {
            context,
            hooks_dir: locator.hooks_dir().to_owned(),
            config,
            pager: HookPager::new(),
        }
    }

    pub closed spec fn context(&self) -> Context {
        *self.context
    }

    pub closed spec fn hooks_dir(&self) -> Seq<char> {
        self.hooks_dir@
    }

    pub closed spec fn config(&self) -> Seq<(Seq<char>, crate::tree::TomlNode)> {
        self.config@
    }

    pub closed spec fn pager(&self) -> HookPager {
        self.pager
    }

    /// Use `pager` for the user's answers.
    pub fn set_pager(&mut self, pager: HookPager)
        ensures
            final(self).pager() == pager,
            final(self).context() == old(self).context(),
            final(self).config() == old(self).config(),
            final(self).hooks_dir() == old(self).hooks_dir(),
    {
        self.pager = pager;
    }

    fn get_hook_action(&self) -> (res: HookAction)
        requires
            !(self.context() is Git),
        ensures
            res == context_action(self.context()),
    {
        match self.context {
            Context::Bootstrap(ctx) => ctx.shared.run_hook,
            Context::Clone(ctx) => ctx.shared.run_hook,
            Context::Commit(ctx) => ctx.shared.run_hook,
            Context::Delete(ctx) => ctx.shared.run_hook,
            Context::Enter(ctx) => ctx.shared.run_hook,
            Context::Init(ctx) => ctx.shared.run_hook,
            Context::List(ctx) => ctx.shared.run_hook,
            Context::Pull(ctx) => ctx.shared.run_hook,
            Context::Push(ctx) => ctx.shared.run_hook,
            Context::Rename(ctx) => ctx.shared.run_hook,
            Context::Status(ctx) => ctx.shared.run_hook,
            Context::Git(_) => HookAction::Never,
        }
    }

    /// Hook scripts to run for a kind of hook, in order (see
    /// [`managed_plan`]).
    ///
    /// # Errors
    ///
    /// Return the [`TomlError`] met reading the command's hook definitions.
    pub fn plan(&self, hook_kind: HookKind) -> (res: Result<Vec<HookJob>, TomlError>)
        ensures
            match res {
                Ok(jobs) => managed_plan(self.context(), self.config(), hook_kind) == Ok::<
                    Seq<(Seq<char>, Option<Seq<char>>)>,
                    TomlErrorView,
                >(job_scripts(jobs@)),
                Err(e) => managed_plan(self.context(), self.config(), hook_kind) == Err::<
                    Seq<(Seq<char>, Option<Seq<char>>)>,
                    TomlErrorView,
                >(e@),
            },
            res matches Ok(jobs) ==> forall|i: int|
                0 <= i < jobs.len() ==> {
                    let j = #[trigger] jobs@[i];
                    &&& j.prompt == (context_action(self.context()) == HookAction::Prompt)
                    &&& path_joined(j.path@, self.hooks_dir(), j.name@)
                },
    {
        if let Context::Git(_) = self.context {
            let none: Vec<HookJob> = Vec::new();
            assert(job_scripts(none@) =~= Seq::empty());
            return Ok(none);
        }
        let action = self.get_hook_action();
        if action == HookAction::Never {
            let none: Vec<HookJob> = Vec::new();
            assert(job_scripts(none@) =~= Seq::empty());
            return Ok(none);
        }
        let name = self.context.to_string();
        let cmd_hook = match CmdHookConfig.get(&self.config, name.as_str()) {
            Ok(c) => c,
            Err(e) => {
                return Err(e);
            },
        };
        let prompt = action == HookAction::Prompt;
        Ok(hook_jobs(self.hooks_dir.as_str(), &cmd_hook, hook_kind, prompt))
    }

    /// Working directory shown with a hook script: the job's own, or the
    /// hook script directory.
    pub fn prompt_dir(&self, job: &HookJob) -> (res: String)
        ensures
            res@ == match job.workdir {
                Some(w) => w@,
                None => self.hooks_dir(),
            },
    {
        match &job.workdir {
            Some(w) => w.clone(),
            None => self.hooks_dir.clone(),
        }
    }

    /// Record the user's answer to the prompt for a hook script.
    pub fn answer(&mut self, accepted: bool)
        ensures
            final(self).pager().spec_choice() == accepted,
            final(self).context() == old(self).context(),
            final(self).config() == old(self).config(),
            final(self).hooks_dir() == old(self).hooks_dir(),
    {
        self.pager.answer(accepted);
    }

    /// Whether a job runs: always where the user is not asked, otherwise
    /// only where the user accepted it.
    pub fn approves(&self, job: &HookJob) -> (res: bool)
        ensures
            res == (!job.prompt || self.pager().spec_choice()),
    {
        !job.prompt || self.pager.choice()
    }
}

} // verus!
