use ricer::config::settings::{BootstrapSettings, CmdHookSettings, HookSettings, OsType, RepoSettings};
use ricer::convert::{from_item, to_item};
use ricer::tree::{TomlEntry, TomlItem};
use toml_edit::{DocumentMut, Key};

const REPO_SETTINGS_DOC: &str = r#"[foo]
branch = "master"
remote = "origin"
workdir_home = true

[bar]
branch = "main"
remote = "origin"
workdir_home = false

[bar.bootstrap]
clone = "https://some/url"
os = "unix"
users = ["awkless", "sedgwick"]
hosts = ["lovelace", "turing"]
"#;

const CMD_HOOK_SETTINGS_DOC: &str = r#"commit = [
    { pre = "hook.sh", post = "hook.sh", workdir = "/some/path" },
    { pre = "hook.sh" },
    { post = "hook.sh" }
]
"#;

fn strings(items: &[&str]) -> Vec<String> {
    items.iter().map(|s| s.to_string()).collect()
}

fn entry_of(doc: &str, name: &str) -> TomlEntry {
    let doc: DocumentMut = doc.parse().unwrap();
    TomlEntry { key: name.to_string(), item: from_item(&doc[name]) }
}

fn render(entry: &TomlEntry) -> String {
    let item = to_item(&entry.item);
    let mut doc = DocumentMut::new();
    let table = doc.as_table_mut();
    table.insert_formatted(&Key::new(&entry.key), item);
    table.set_implicit(true);
    doc.to_string()
}

fn foo_settings() -> RepoSettings {
    RepoSettings::new("foo").branch("master").remote("origin").workdir_home(true)
}

fn bar_settings() -> RepoSettings {
    RepoSettings::new("bar").branch("main").remote("origin").workdir_home(false).bootstrap(
        BootstrapSettings::new()
            .clone("https://some/url")
            .os(OsType::Unix)
            .users(strings(&["awkless", "sedgwick"]))
            .hosts(strings(&["lovelace", "turing"])),
    )
}

fn commit_hooks() -> CmdHookSettings {
    CmdHookSettings::new("commit")
        .add_hook(HookSettings::new().pre("hook.sh").post("hook.sh").workdir("/some/path"))
        .add_hook(HookSettings::new().pre("hook.sh"))
        .add_hook(HookSettings::new().post("hook.sh"))
}

#[test]
fn repo_settings_from_key_item_return_self() {
    for expect in [foo_settings(), bar_settings()] {
        let result = RepoSettings::from_toml(&entry_of(REPO_SETTINGS_DOC, &expect.name));
        assert_eq!(result, expect);
    }
}

#[test]
fn repo_settings_to_toml_return_key_item() {
    let expect = "[foo]\nbranch = \"master\"\nremote = \"origin\"\nworkdir_home = true\n";
    assert_eq!(render(&foo_settings().to_toml()), expect);
    let expect = String::from("[bar]\nbranch = \"main\"\nremote = \"origin\"\nworkdir_home = false\n\n")
        + "[bar.bootstrap]\nclone = \"https://some/url\"\nos = \"unix\"\n"
        + "users = [\"awkless\", \"sedgwick\"]\nhosts = [\"lovelace\", \"turing\"]\n";
    assert_eq!(render(&bar_settings().to_toml()), expect);
}

#[test]
fn cmd_hook_settings_from_key_item_return_self() {
    let result = CmdHookSettings::from_toml(&entry_of(CMD_HOOK_SETTINGS_DOC, "commit"));
    assert_eq!(result, commit_hooks());
}

#[test]
fn cmd_hook_settings_to_toml_return_key_item() {
    assert_eq!(render(&commit_hooks().to_toml()), CMD_HOOK_SETTINGS_DOC);
}

#[test]
fn repo_settings_roundtrip() {
    for settings in [foo_settings(), bar_settings()] {
        assert_eq!(RepoSettings::from_toml(&settings.to_toml()), settings);
    }
}

#[test]
fn cmd_hook_settings_roundtrip() {
    let settings = commit_hooks();
    assert_eq!(CmdHookSettings::from_toml(&settings.to_toml()), settings);
    let empty = CmdHookSettings::new("push");
    assert_eq!(CmdHookSettings::from_toml(&empty.to_toml()), empty);
}

#[test]
fn repo_settings_empty_bootstrap_reads_back_as_none() {
    let settings = RepoSettings::new("x").bootstrap(BootstrapSettings::new());
    let back = RepoSettings::from_toml(&settings.to_toml());
    assert_eq!(back.bootstrap, None);
}

#[test]
fn bootstrap_list_names_trim_quotes() {
    let doc = "[r]\n[r.bootstrap]\nusers = [\"'awkless'\", \"\\\"sed\\\"\"]\nhosts = [\"''\"]\n";
    let settings = RepoSettings::from_toml(&entry_of(doc, "r"));
    let boot = settings.bootstrap.unwrap();
    assert_eq!(boot.users, Some(strings(&["awkless", "sed"])));
    assert_eq!(boot.hosts, Some(strings(&[""])));
}

#[test]
fn repo_settings_defaults_for_wrong_types() {
    let doc = "[r]\nbranch = 1\nremote = true\nworkdir_home = \"yes\"\n";
    let settings = RepoSettings::from_toml(&entry_of(doc, "r"));
    assert_eq!(settings, RepoSettings::new("r"));
}

#[test]
fn repo_settings_read_nested_keys() {
    let doc = "[r]\n[r.deep]\nbranch = \"dev\"\n[r.deep.bootstrap]\nos = \"windows\"\n";
    let settings = RepoSettings::from_toml(&entry_of(doc, "r"));
    assert_eq!(settings.branch, "dev");
    assert_eq!(settings.bootstrap.unwrap().os, Some(OsType::Windows));
}

#[test]
fn os_type_names() {
    for (os, name) in [
        (OsType::Any, "any"),
        (OsType::Unix, "unix"),
        (OsType::MacOs, "macos"),
        (OsType::Windows, "windows"),
    ] {
        assert_eq!(os.to_string(), name);
        assert_eq!(OsType::from(name), os);
    }
    assert_eq!(OsType::from("plan9"), OsType::Any);
    assert_eq!(OsType::default(), OsType::Any);
}

#[test]
fn bootstrap_is_empty() {
    assert!(BootstrapSettings::new().is_empty());
    assert!(!BootstrapSettings::new().os(OsType::Any).is_empty());
}

#[test]
fn cmd_hook_settings_read_every_inline_table() {
    let doc = "commit = [{ pre = 1, post = \"b.sh\", nested = { pre = \"inner.sh\" } }]\n";
    let settings = CmdHookSettings::from_toml(&entry_of(doc, "commit"));
    assert_eq!(
        settings,
        CmdHookSettings::new("commit")
            .add_hook(HookSettings::new().post("b.sh"))
            .add_hook(HookSettings::new().pre("inner.sh"))
    );
}

#[test]
fn cmd_hook_settings_inline_layout() {
    let entry = commit_hooks().to_toml();
    match entry.item {
        TomlItem::Array(v) => {
            assert_eq!(v.len(), 3);
            for (i, item) in v.iter().enumerate() {
                match item {
                    TomlItem::Inline(_, decor) => {
                        assert_eq!(decor.prefix.as_deref(), Some("\n    "));
                        let suffix = if i == 2 { Some("\n") } else { None };
                        assert_eq!(decor.suffix.as_deref(), suffix);
                    }
                    _ => panic!("expected inline table"),
                }
            }
        }
        _ => panic!("expected array"),
    }
}
