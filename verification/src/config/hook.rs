//! Command hook definitions.

use vstd::prelude::*;

use crate::config::settings::opt_str;

verus! {

/// Model of a [`Hook`].
pub struct HookDefView {
    pub pre: Option<Seq<char>>,
    pub post: Option<Seq<char>>,
    pub workdir: Option<Seq<char>>,
}

/// Hook definitions of one command.
#[derive(Debug, Clone, PartialEq, Eq)]
pub struct CommandHook {
    pub cmd: String,
    pub hooks: Vec<Hook>,
}

/// Hook definition: scripts run before and after a command, and the working
/// directory to run them in.
#[derive(Debug, Clone, PartialEq, Eq)]
pub struct Hook {
    pub pre: Option<String>,
    pub post: Option<String>,
    pub workdir: Option<String>,
}

impl View for Hook {
    type V = HookDefView;

    open spec fn view(&self) -> HookDefView {
        HookDefView { pre: opt_str(self.pre), post: opt_str(self.post), workdir: opt_str(self.workdir) }
    }
}

impl CommandHook {
    /// Hook definitions of command `cmd`: none yet.
    pub fn new(cmd: &str) -> (res: Self)
        ensures
            res.cmd@ == cmd@,
            res.hooks@.len() == 0,
    {
        CommandHook { cmd: cmd.to_owned(), hooks: Vec::new() }
    }

    /// Append a hook definition.
    pub fn add_hook(&mut self, hook: Hook)
        ensures
            final(self).cmd == old(self).cmd,
            final(self).hooks@ == old(self).hooks@.push(hook),
    {
        self.hooks.push(hook);
    }
}

impl Hook {
    /// Hook definition with nothing set.
    pub fn new() -> (res: Self)
        ensures
            res@ == (HookDefView { pre: None, post: None, workdir: None }),
    {
        Hook { pre: None, post: None, workdir: None }
    }

    pub fn pre(self, script: &str) -> (res: Self)
        ensures
            res@ == (HookDefView { pre: Some(script@), ..self@ }),
    {
        Hook { pre: Some(script.to_owned()), ..self }
    }

    pub fn post(self, script: &str) -> (res: Self)
        ensures
            res@ == (HookDefView { post: Some(script@), ..self@ }),
    {
        Hook { post: Some(script.to_owned()), ..self }
    }

    pub fn workdir(self, path: &str) -> (res: Self)
        ensures
            res@ == (HookDefView { workdir: Some(path@), ..self@ }),
    {
        Hook { workdir: Some(path.to_owned()), ..self }
    }
}

} // verus!
