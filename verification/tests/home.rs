use meow::home_dir::{default_config_dir, home_dir, set_home_dir, HomeDir};
use std::path::PathBuf;

fn path(text: &str) -> PathBuf {
    PathBuf::from(text)
}

#[test]
fn xdg_config_home_comes_first() {
    let dir = default_config_dir(Some(path("/xdg")), Some(path("/home/u")));
    assert_eq!(dir, path("/xdg/meow"));
    assert_eq!(default_config_dir(Some(path("/xdg")), None), path("/xdg/meow"));
    assert_eq!(default_config_dir(Some(path("")), Some(path("/home/u"))), path("meow"));
}

#[test]
fn home_comes_next() {
    assert_eq!(default_config_dir(None, Some(path("/home/u"))), path("/home/u/.config/meow"));
    assert_eq!(default_config_dir(None, Some(path("/"))), path("/.config/meow"));
}

#[test]
fn the_current_directory_comes_last() {
    assert_eq!(default_config_dir(None, None), path("./meow"));
}

#[test]
fn without_an_override_the_default_holds() {
    let setting = HomeDir::new();
    assert_eq!(
        home_dir(&setting, None, Some(path("/home/u"))),
        default_config_dir(None, Some(path("/home/u")))
    );
}

#[test]
fn the_first_override_stands() {
    let mut setting = HomeDir::new();
    set_home_dir(&mut setting, path("/a/b"));
    set_home_dir(&mut setting, path("/c"));
    set_home_dir(&mut setting, path("/d"));
    assert_eq!(home_dir(&setting, Some(path("/xdg")), None), path("/a/b"));
    assert_eq!(home_dir(&setting, None, None), path("/a/b"));
}

#[test]
fn an_override_keeps_its_spelling() {
    let mut setting = HomeDir::new();
    set_home_dir(&mut setting, path("/a//b/./"));
    let dir = home_dir(&setting, None, None);
    assert_eq!(dir.as_os_str(), "/a//b/./");
}
