use ricer::config::dir::{ConfigDirManager, DefaultConfigDirManager};
use ricer::locate::{join_path, DefaultLocator, DirLayout, Locator, XdgDirLayout};

fn layout() -> XdgDirLayout {
    XdgDirLayout::new("/home/user/.config/ricer", "/home/user/.local/share/ricer")
}

#[test]
fn xdg_dir_layout_dirs() {
    let layout = layout();
    assert_eq!(layout.config_dir(), "/home/user/.config/ricer");
    assert_eq!(layout.repo_dir(), "/home/user/.local/share/ricer");
}

#[test]
fn default_locator_locate_paths() {
    let loc = DefaultLocator::locate(layout());
    assert_eq!(loc.config_dir(), "/home/user/.config/ricer");
    assert_eq!(loc.hooks_dir(), "/home/user/.config/ricer/hooks");
    assert_eq!(loc.hooks_config(), "/home/user/.config/ricer/hooks.toml");
    assert_eq!(loc.repos_dir(), "/home/user/.local/share/ricer");
    assert_eq!(loc.repos_config(), "/home/user/.config/ricer/repos.toml");
}

#[test]
fn join_path_adds_one_separator() {
    assert_eq!(join_path("/a/b", "c"), "/a/b/c");
    assert_eq!(join_path("/a/b/", "c"), "/a/b/c");
    assert_eq!(join_path("", "c"), "c");
    assert_eq!(join_path("/a/b", "c/d.sh"), "/a/b/c/d.sh");
    assert_eq!(join_path("/a/b", "/etc/hook.sh"), "/etc/hook.sh");
    assert_eq!(join_path("/a?b", "c"), "/a?b/c");
}

#[test]
fn config_dir_manager_new_paths() {
    let loc = DefaultLocator::locate(layout());
    let mgr = DefaultConfigDirManager::new(&loc);
    assert_eq!(mgr.root_dir(), "/home/user/.config/ricer");
    assert_eq!(mgr.repos_dir(), "/home/user/.config/ricer/repos");
    assert_eq!(mgr.hooks_dir(), "/home/user/.config/ricer/hooks");
    assert_eq!(mgr.ignores_dir(), "/home/user/.config/ricer/ignores");
}
