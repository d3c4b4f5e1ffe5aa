use ricer::cli::{
    BootstrapOptions, Cli, CloneOptions, CommandSet, CommitOptions, InitOptions, ListOptions,
    SharedOptions, StatusOptions,
};
use ricer::context::{Context, FixupAction, HookAction};

fn cli(cmd_set: CommandSet) -> Cli {
    Cli { shared_opts: SharedOptions { run_hook: HookAction::Always }, cmd_set }
}

#[test]
fn context_from_bootstrap() {
    let ctx = Context::from(cli(CommandSet::Bootstrap(BootstrapOptions {
        config: Some("dots".into()),
        from: None,
        only: Some(vec!["vim".into(), "sh".into()]),
    })));
    match &ctx {
        Context::Bootstrap(b) => {
            assert_eq!(b.config.as_deref(), Some("dots"));
            assert_eq!(b.from, None);
            assert_eq!(b.only, Some(vec!["vim".to_string(), "sh".to_string()]));
            assert_eq!(b.shared.run_hook, HookAction::Always);
        }
        _ => panic!("wrong context"),
    }
    assert_eq!(ctx.to_string(), "bootstrap");
}

#[test]
fn context_from_each_command_has_its_name() {
    let cases = vec![
        (CommandSet::Clone(CloneOptions { remote: "url".into(), repo: None }), "clone"),
        (CommandSet::Commit(CommitOptions { fixup: Some(FixupAction::Reword), message: None }), "commit"),
        (
            CommandSet::Init(InitOptions { name: "vim".into(), workdir_home: true, branch: None, remote: None }),
            "init",
        ),
        (CommandSet::List(ListOptions { show_tracked: true, untracked: false }), "list"),
        (CommandSet::Status(StatusOptions { terse: true }), "status"),
    ];
    for (cmd, name) in cases {
        assert_eq!(Context::from(cli(cmd)).to_string(), name);
    }
}

#[test]
fn context_from_git_shortcut() {
    let ctx = Context::from(cli(CommandSet::Git(vec!["vim".into(), "commit".into(), "-m".into()])));
    match ctx {
        Context::Git(g) => {
            assert_eq!(g.repo, "vim");
            assert_eq!(g.git_args, vec!["commit".to_string(), "-m".to_string()]);
        }
        _ => panic!("wrong context"),
    }
}

#[test]
fn context_defaults() {
    assert_eq!(HookAction::default(), HookAction::Prompt);
    assert_eq!(FixupAction::default(), FixupAction::Amend);
}

#[test]
fn exit_code_status() {
    assert_eq!(i32::from(ricer::error::ExitCode::Success), 0);
    assert_eq!(i32::from(ricer::error::ExitCode::Failure), 1);
}
