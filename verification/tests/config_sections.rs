use ricer::config::settings::{CmdHookSettings, HookSettings, RepoSettings};
use ricer::config::toml::{Toml, TomlError};
use ricer::config::{CmdHookConfig, RepoConfig};

const CONFIG: &str = r#"# Formatting should remain the same!

[repos.vim]
branch = "master"
remote = "origin"
workdir_home = true

[hooks]
bootstrap = [
    { pre = "hook.sh", post = "hook.sh", workdir = "/some/dir" },
    { pre = "hook.sh" }
]
"#;

const NOT_TABLE: &str = "repos = 'not a table'\nhooks = 'not a table'\n";

fn vim() -> RepoSettings {
    RepoSettings::new("vim").branch("master").remote("origin").workdir_home(true)
}

fn bootstrap_hooks() -> CmdHookSettings {
    CmdHookSettings::new("bootstrap")
        .add_hook(HookSettings::new().pre("hook.sh").post("hook.sh").workdir("/some/dir"))
        .add_hook(HookSettings::new().pre("hook.sh"))
}

#[test]
fn config_file_get_return_setting() {
    let doc = Toml::parse(CONFIG).unwrap();
    assert_eq!(RepoConfig.get(&doc, "vim").unwrap(), vim());
    assert_eq!(CmdHookConfig.get(&doc, "bootstrap").unwrap(), bootstrap_hooks());
}

#[test]
fn config_file_get_return_err_toml() {
    let doc = Toml::parse(CONFIG).unwrap();
    assert_eq!(
        RepoConfig.get(&doc, "non-existent").unwrap_err(),
        TomlError::EntryNotFound { table: "repos".into(), key: "non-existent".into() }
    );
    assert_eq!(
        CmdHookConfig.get(&doc, "non-existent").unwrap_err(),
        TomlError::EntryNotFound { table: "hooks".into(), key: "non-existent".into() }
    );
}

#[test]
fn config_file_new_return_none() {
    let mut doc = Toml::parse(CONFIG).unwrap();
    let entry = RepoSettings::new("dwm").branch("main").remote("upstream").workdir_home(true);
    assert_eq!(RepoConfig.add(&mut doc, entry.clone()).unwrap(), None);
    assert_eq!(RepoConfig.get(&doc, "dwm").unwrap(), entry);
    assert!(doc.to_string().starts_with("# Formatting should remain the same!\n"));

    let mut doc = Toml::parse(CONFIG).unwrap();
    let entry = CmdHookSettings::new("commit").add_hook(HookSettings::new().post("hook.sh"));
    assert_eq!(CmdHookConfig.add(&mut doc, entry.clone()).unwrap(), None);
    assert_eq!(CmdHookConfig.get(&doc, "commit").unwrap(), entry);
    assert!(doc.to_string().ends_with("commit = [\n    { post = \"hook.sh\" }\n]\n"));
}

#[test]
fn config_file_new_return_some() {
    let mut doc = Toml::parse(CONFIG).unwrap();
    let entry = RepoSettings::new("vim").branch("main").remote("upstream").workdir_home(false);
    assert_eq!(RepoConfig.add(&mut doc, entry.clone()).unwrap(), Some(vim()));
    assert_eq!(RepoConfig.get(&doc, "vim").unwrap(), entry);

    let mut doc = Toml::parse(CONFIG).unwrap();
    let entry = CmdHookSettings::new("bootstrap")
        .add_hook(HookSettings::new().pre("new_hook.sh").post("new_hook.sh"))
        .add_hook(HookSettings::new().pre("new_hook.sh").workdir("/new/dir"));
    assert_eq!(CmdHookConfig.add(&mut doc, entry.clone()).unwrap(), Some(bootstrap_hooks()));
    assert_eq!(CmdHookConfig.get(&doc, "bootstrap").unwrap(), entry);
}

#[test]
fn config_file_add_return_err_toml() {
    let mut doc = Toml::parse(NOT_TABLE).unwrap();
    assert_eq!(
        RepoConfig.add(&mut doc, RepoSettings::new("")).unwrap_err(),
        TomlError::NotTable { table: "repos".into() }
    );
    assert_eq!(
        CmdHookConfig.add(&mut doc, CmdHookSettings::new("")).unwrap_err(),
        TomlError::NotTable { table: "hooks".into() }
    );
}

#[test]
fn config_file_rename_return_old_setting() {
    let mut doc = Toml::parse(CONFIG).unwrap();
    assert_eq!(RepoConfig.rename(&mut doc, "vim", "neovim").unwrap(), vim());
    assert!(doc.to_string().contains("[repos.neovim]"));
    assert_eq!(RepoConfig.get(&doc, "neovim").unwrap().branch, "master");

    let mut doc = Toml::parse(CONFIG).unwrap();
    assert_eq!(CmdHookConfig.rename(&mut doc, "bootstrap", "commit").unwrap(), bootstrap_hooks());
    assert!(doc.to_string().contains("commit = ["));
}

#[test]
fn config_file_rename_return_err_toml() {
    let mut doc = Toml::parse(NOT_TABLE).unwrap();
    assert_eq!(
        RepoConfig.rename(&mut doc, "gonna", "fail").unwrap_err(),
        TomlError::NotTable { table: "repos".into() }
    );
    assert_eq!(
        CmdHookConfig.rename(&mut doc, "gonna", "fail").unwrap_err(),
        TomlError::NotTable { table: "hooks".into() }
    );
}

#[test]
fn config_file_remove_return_deleted_setting() {
    let mut doc = Toml::parse(CONFIG).unwrap();
    assert_eq!(RepoConfig.remove(&mut doc, "vim").unwrap(), vim());
    assert!(!doc.to_string().contains("[repos.vim]"));

    let mut doc = Toml::parse(CONFIG).unwrap();
    assert_eq!(CmdHookConfig.remove(&mut doc, "bootstrap").unwrap(), bootstrap_hooks());
    assert!(CmdHookConfig.get(&doc, "bootstrap").is_err());
}

#[test]
fn config_file_remove_return_err_toml() {
    let mut doc = Toml::parse(NOT_TABLE).unwrap();
    assert_eq!(
        RepoConfig.remove(&mut doc, "fail").unwrap_err(),
        TomlError::NotTable { table: "repos".into() }
    );
    assert_eq!(
        CmdHookConfig.remove(&mut doc, "fail").unwrap_err(),
        TomlError::NotTable { table: "hooks".into() }
    );
}

#[test]
fn repo_config_get_after_add_law() {
    let mut doc = Toml::new();
    let entry = RepoSettings::new("dots").branch("trunk").remote("mirror");
    RepoConfig.add(&mut doc, entry.clone()).unwrap();
    assert_eq!(RepoConfig.get(&doc, "dots").unwrap(), entry);
}

#[test]
fn readable_rejects_bad_name_lists() {
    let doc = Toml::parse("[repos.x.bootstrap]\nusers = [1]\n").unwrap();
    let entry = doc.get("repos", "x").unwrap();
    assert!(!ricer::config::settings::readable(&entry.item));
    let doc = Toml::parse(CONFIG).unwrap();
    let entry = doc.get("repos", "vim").unwrap();
    assert!(ricer::config::settings::readable(&entry.item));
}

#[test]
fn repo_rename_moves_settings() {
    let mut doc = Toml::parse(CONFIG).unwrap();
    assert_eq!(RepoConfig.rename(&mut doc, "vim", "neovim").unwrap(), vim());
    assert_eq!(
        RepoConfig.get(&doc, "neovim").unwrap(),
        RepoSettings::new("neovim").branch("master").remote("origin").workdir_home(true)
    );
    assert_eq!(
        RepoConfig.get(&doc, "vim").unwrap_err(),
        TomlError::EntryNotFound { table: "repos".into(), key: "vim".into() }
    );
}
