use ricer::config::file::hooks_section::{CommandHookEntry, HookEntry};
use ricer::config::file::repos_section::{RepoEntry, RepoTargetEntry, TargetOsOption};
use ricer::config::hook::{CommandHook, Hook};
use ricer::data_xchg::{Bootstrap, OsType, Repository};
use ricer::config::file::DefaultConfigFileManager;
use ricer::config::toml::{Toml, TomlError};
use ricer::convert::from_item;
use ricer::tree::TomlEntry;
use toml_edit::DocumentMut;

fn entry_of(doc: &str, name: &str) -> TomlEntry {
    let doc: DocumentMut = doc.parse().unwrap();
    TomlEntry { key: name.to_string(), item: from_item(&doc[name]) }
}

fn vim_entry() -> RepoEntry {
    RepoEntry::builder("vim")
        .branch("master")
        .remote("origin")
        .url("https://github.com/awkless/vim.git")
        .target(
            RepoTargetEntry::builder()
                .home(true)
                .os(TargetOsOption::Unix)
                .user(Some("awkless"))
                .hostname(None)
                .build(),
        )
        .build()
}

#[test]
fn repo_entry_from_toml() {
    let doc = r#"[vim]
branch = "master"
remote = "origin"
url = "https://github.com/awkless/vim.git"
target = { home = true, os = "unix", user = "awkless" }
"#;
    assert_eq!(RepoEntry::from_toml(&entry_of(doc, "vim")), vim_entry());
}

#[test]
fn repo_entry_roundtrip() {
    let entry = vim_entry();
    assert_eq!(RepoEntry::from_toml(&entry.to_toml()), entry);
}

#[test]
fn target_os_option_names() {
    for (os, name) in [
        (TargetOsOption::Any, "any"),
        (TargetOsOption::Unix, "unix"),
        (TargetOsOption::MacOs, "macos"),
        (TargetOsOption::Windows, "windows"),
    ] {
        assert_eq!(os.to_string(), name);
        assert_eq!(TargetOsOption::from(name), os);
    }
    assert_eq!(TargetOsOption::from("beos"), TargetOsOption::Any);
    assert_eq!(TargetOsOption::default(), TargetOsOption::Any);
}

#[test]
fn command_hook_entry_from_toml() {
    let doc = "commit = [{ pre = \"a.sh\", repo = \"vim\" }, { post = \"b.sh\" }]\n";
    let result = CommandHookEntry::from_toml(&entry_of(doc, "commit"));
    let mut expect = CommandHookEntry::new("commit");
    expect.add_hook(HookEntry::builder().pre("a.sh").repo("vim").build());
    expect.add_hook(HookEntry::builder().post("b.sh").build());
    assert_eq!(result, expect);
}

#[test]
fn command_hook_builders() {
    let mut hooks = CommandHook::new("push");
    hooks.add_hook(Hook::new().pre("a.sh").post("b.sh").workdir("/tmp"));
    assert_eq!(hooks.cmd, "push");
    assert_eq!(hooks.hooks.len(), 1);
    assert_eq!(hooks.hooks[0].workdir.as_deref(), Some("/tmp"));
}

#[test]
fn data_xchg_repository_matches_settings() {
    let repo = Repository::new("bar").branch("main").remote("origin").bootstrap(
        Bootstrap::new().clone("https://some/url").os(OsType::MacOs).users(vec!["awkless".into()]),
    );
    let back = Repository::from_toml(&repo.to_toml());
    assert_eq!(back, repo);
    assert!(Bootstrap::new().is_empty());
}

#[test]
fn config_file_manager_repo_operations() {
    let mut mgr = DefaultConfigFileManager::new();
    assert_eq!(
        mgr.get_repo("vim").unwrap_err(),
        TomlError::TableNotFound { table: "repos".into() }
    );
    mgr.add_repo(&vim_entry()).unwrap();
    assert_eq!(mgr.get_repo("vim").unwrap(), vim_entry());
    mgr.rename_repo("vim", "nvim").unwrap();
    assert_eq!(mgr.get_repo("nvim").unwrap().url, "https://github.com/awkless/vim.git");
    assert_eq!(
        mgr.remove_repo("absent").unwrap_err(),
        TomlError::EntryNotFound { table: "repos".into(), key: "absent".into() }
    );
    mgr.remove_repo("nvim").unwrap();
    assert_eq!(
        mgr.get_repo("nvim").unwrap_err(),
        TomlError::EntryNotFound { table: "repos".into(), key: "nvim".into() }
    );
    assert_eq!(
        mgr.rename_repo("gone", "x").unwrap_err(),
        TomlError::EntryNotFound { table: "repos".into(), key: "gone".into() }
    );

    let mut mgr = DefaultConfigFileManager::from_doc(Toml::parse("repos = 1\n").unwrap());
    assert_eq!(mgr.add_repo(&vim_entry()).unwrap_err(), TomlError::NotTable { table: "repos".into() });
    assert_eq!(mgr.remove_repo("vim").unwrap_err(), TomlError::NotTable { table: "repos".into() });
}

#[test]
fn config_file_manager_get_cmd_hook() {
    let doc = Toml::parse("[hooks]\ncommit = [{ pre = \"a.sh\", repo = \"vim\" }]\n").unwrap();
    let mgr = DefaultConfigFileManager::from_doc(doc);
    let hooks = mgr.get_cmd_hook("commit").unwrap();
    assert_eq!(hooks.cmd, "commit");
    assert_eq!(hooks.hooks, vec![HookEntry::builder().pre("a.sh").repo("vim").build()]);
    assert!(mgr.get_cmd_hook("push").is_err());
}
