use ricer::cli::{Cli, CommandSet, CommitOptions, SharedOptions, BootstrapOptions};
use ricer::config::toml::{Toml, TomlError};
use ricer::context::{Context, HookAction};
use ricer::hook::{CmdHook, HookKind, HookPager};
use ricer::locate::{DefaultLocator, Locator};
use ricer::config::settings::{CmdHookSettings, HookSettings};
use ricer::config::CmdHookConfig;
use ricer::manager::CommandHookManager;

const HOOKS: &str = r#"[hooks]
bootstrap = [
    { pre = "pre_hook.sh" },
    { post = "post_hook.sh", workdir = "~/dots" },
]
"#;

fn bootstrap(action: HookAction) -> Context {
    Context::from(Cli {
        shared_opts: SharedOptions { run_hook: action },
        cmd_set: CommandSet::Bootstrap(BootstrapOptions { config: None, from: None, only: None }),
    })
}

fn locator() -> DefaultLocator {
    DefaultLocator::from_dirs("/home/user/.config/ricer", "/home/user/.local/share")
}

#[test]
fn cmd_hook_run_hooks_execute_pre_and_post_hooks() {
    let ctx = bootstrap(HookAction::Always);
    let loc = locator();
    let hooks = CmdHook::new(&ctx, &loc, Toml::parse(HOOKS).unwrap());
    let pre = hooks.plan(HookKind::Pre).unwrap();
    assert_eq!(pre.len(), 1);
    assert_eq!(pre[0].name, "pre_hook.sh");
    assert_eq!(pre[0].path, format!("{}/pre_hook.sh", loc.hooks_dir()));
    assert_eq!(pre[0].workdir, None);
    assert!(!pre[0].prompt);
    let post = hooks.plan(HookKind::Post).unwrap();
    assert_eq!(post.len(), 1);
    assert_eq!(post[0].name, "post_hook.sh");
    assert_eq!(post[0].workdir.as_deref(), Some("~/dots"));
}

#[test]
fn cmd_hook_run_hooks_ignore_git_shortcut() {
    let ctx = Context::from(Cli {
        shared_opts: SharedOptions { run_hook: HookAction::Always },
        cmd_set: CommandSet::Git(vec!["vim".into(), "commit".into()]),
    });
    let loc = locator();
    let hooks = CmdHook::new(&ctx, &loc, Toml::parse(HOOKS).unwrap());
    assert!(hooks.plan(HookKind::Pre).unwrap().is_empty());
    assert!(hooks.plan(HookKind::Post).unwrap().is_empty());
}

#[test]
fn cmd_hook_run_hooks_ignore_no_entry_for_cmd() {
    let ctx = Context::from(Cli {
        shared_opts: SharedOptions { run_hook: HookAction::Always },
        cmd_set: CommandSet::Commit(CommitOptions { fixup: None, message: None }),
    });
    let loc = locator();
    let hooks = CmdHook::new(&ctx, &loc, Toml::parse(HOOKS).unwrap());
    assert!(hooks.plan(HookKind::Pre).unwrap().is_empty());
    assert!(hooks.plan(HookKind::Post).unwrap().is_empty());
}

#[test]
fn cmd_hook_never_runs_nothing() {
    let ctx = bootstrap(HookAction::Never);
    let loc = locator();
    let hooks = CmdHook::new(&ctx, &loc, Toml::parse(HOOKS).unwrap());
    assert!(hooks.plan(HookKind::Pre).unwrap().is_empty());
}

#[test]
fn cmd_hook_missing_section_is_error() {
    let ctx = bootstrap(HookAction::Always);
    let loc = locator();
    let hooks = CmdHook::new(&ctx, &loc, Toml::parse("").unwrap());
    assert_eq!(
        hooks.plan(HookKind::Pre).unwrap_err(),
        TomlError::TableNotFound { table: "hooks".into() }
    );
}

#[test]
fn cmd_hook_prompt_asks_before_running() {
    let ctx = bootstrap(HookAction::Prompt);
    let loc = locator();
    let mut hooks = CmdHook::new(&ctx, &loc, Toml::parse(HOOKS).unwrap());
    let jobs = hooks.plan(HookKind::Pre).unwrap();
    assert!(jobs[0].prompt);
    assert!(!hooks.approves(&jobs[0]));
    hooks.answer(true);
    assert!(hooks.approves(&jobs[0]));
    hooks.answer(false);
    assert!(!hooks.approves(&jobs[0]));
}

#[test]
fn hook_pager_choice() {
    let mut pager = HookPager::new();
    assert!(!pager.choice());
    pager.answer(true);
    assert!(pager.choice());
}

#[test]
fn plan_after_adding_hooks_law() {
    let ctx = Context::from(Cli {
        shared_opts: SharedOptions { run_hook: HookAction::Always },
        cmd_set: CommandSet::Commit(CommitOptions { fixup: None, message: None }),
    });
    let mut doc = Toml::new();
    let settings = CmdHookSettings::new("commit")
        .add_hook(HookSettings::new().pre("lint.sh"))
        .add_hook(HookSettings::new().post("notify.sh").workdir("/tmp"))
        .add_hook(HookSettings::new().pre("fmt.sh").post("done.sh"));
    CmdHookConfig.add(&mut doc, settings).unwrap();
    let loc = locator();
    let hooks = CmdHook::new(&ctx, &loc, doc);
    let pre: Vec<String> = hooks.plan(HookKind::Pre).unwrap().into_iter().map(|j| j.name).collect();
    assert_eq!(pre, vec!["lint.sh".to_string(), "fmt.sh".to_string()]);
    let post = hooks.plan(HookKind::Post).unwrap();
    assert_eq!(post.len(), 2);
    assert_eq!(post[0].workdir.as_deref(), Some("/tmp"));
    assert_eq!(post[1].name, "done.sh");
}

#[test]
fn command_hook_manager_requires_definitions() {
    let ctx = Context::from(Cli {
        shared_opts: SharedOptions { run_hook: HookAction::Prompt },
        cmd_set: CommandSet::Commit(CommitOptions { fixup: None, message: None }),
    });
    let loc = locator();
    let mgr = CommandHookManager::new(&ctx, &loc, Toml::parse(HOOKS).unwrap());
    assert_eq!(
        mgr.plan(HookKind::Pre).unwrap_err(),
        TomlError::EntryNotFound { table: "hooks".into(), key: "commit".into() }
    );
    let ctx = bootstrap(HookAction::Prompt);
    let mut mgr = CommandHookManager::new(&ctx, &loc, Toml::parse(HOOKS).unwrap());
    let pre = mgr.plan(HookKind::Pre).unwrap();
    assert_eq!(mgr.prompt_dir(&pre[0]), loc.hooks_dir());
    let post = mgr.plan(HookKind::Post).unwrap();
    assert_eq!(mgr.prompt_dir(&post[0]), "~/dots");
    assert!(!mgr.approves(&pre[0]));
    mgr.set_pager({
        let mut p = HookPager::new();
        p.answer(true);
        p
    });
    assert!(mgr.approves(&pre[0]));
}

#[test]
fn toml_from_str_parses() {
    let doc: Toml = HOOKS.parse().unwrap();
    assert!(doc.get("hooks", "bootstrap").is_ok());
    let bad: Result<Toml, TomlError> = "not toml = ".parse();
    assert!(matches!(bad, Err(TomlError::BadParse { .. })));
}
