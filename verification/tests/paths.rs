use std::path::{Path, PathBuf};
use strand::config::Config;
use strand::expand_path;
use strand::path::begins_with_tilde;

fn get_home_dir() -> PathBuf {
    dirs::home_dir().expect("a home directory")
}

fn expand(path: &Path, home_dir: &Path) -> PathBuf {
    PathBuf::from(expand_path(
        path.to_str().unwrap(),
        home_dir.to_str().unwrap(),
    ))
}

#[test]
fn test_expand_path() {
    let home_dir = get_home_dir();

    assert_eq!(
        expand(Path::new("~/foo.txt"), &home_dir),
        home_dir.join("foo.txt")
    );

    assert_eq!(
        expand(Path::new("/home/person/foo.txt"), &home_dir),
        PathBuf::from("/home/person/foo.txt")
    );

    assert_eq!(
        expand(Path::new("~/bar/baz/quux/foo.txt"), &home_dir),
        home_dir.join("bar/baz/quux/foo.txt")
    );
}

#[test]
fn tilde_alone_is_the_home_directory() {
    assert_eq!(expand_path("~", "/home/person"), "/home/person");
    assert_eq!(expand_path("~/", "/home/person"), "/home/person");
}

#[test]
fn tilde_expansion_writes_exact_text() {
    assert_eq!(
        expand_path("~/foo.txt", "/home/person"),
        "/home/person/foo.txt"
    );
    assert_eq!(
        expand_path("~/bar/baz/quux/foo.txt", "/home/person"),
        "/home/person/bar/baz/quux/foo.txt"
    );
}

#[test]
fn tilde_must_be_a_whole_component() {
    assert_eq!(expand_path("~foo/bar", "/home/person"), "~foo/bar");
    assert_eq!(expand_path("a/~/b", "/home/person"), "a/~/b");
    assert_eq!(expand_path("", "/home/person"), "");
}

#[test]
fn tilde_is_seen_as_a_first_component_only() {
    assert!(begins_with_tilde("~"));
    assert!(begins_with_tilde("~/"));
    assert!(begins_with_tilde("~/a"));
    assert!(!begins_with_tilde("~a"));
    assert!(!begins_with_tilde("a/~"));
    assert!(!begins_with_tilde(""));
    for case in ["~", "~/x", "~x", "./~", "/~", "x", ""] {
        assert_eq!(begins_with_tilde(case), Path::new(case).starts_with("~"));
    }
}

#[test]
fn untouched_paths_keep_their_spelling() {
    assert_eq!(expand_path("/a//b/./c/", "/home/person"), "/a//b/./c/");
    assert_eq!(expand_path("relative/dir", "/home/person"), "relative/dir");
}

#[test]
fn empty_and_dot_pieces_are_dropped() {
    assert_eq!(expand_path("~//a/./b/", "/home/person"), "/home/person/a/b");
    assert_eq!(expand_path("~/.", "/home/person"), "/home/person");
    assert_eq!(expand_path("~/.config", "/home/person"), "/home/person/.config");
}

#[test]
fn parent_pieces_are_kept_as_written() {
    assert_eq!(expand_path("~/../other", "/home/person"), "/home/person/../other");
}

#[test]
fn home_ending_in_a_separator_gets_no_second_one() {
    assert_eq!(expand_path("~/a", "/"), "/a");
    assert_eq!(expand_path("~/a/b", "/home/person/"), "/home/person/a/b");
}

#[test]
fn expanding_twice_changes_nothing_more() {
    for case in ["~", "~/a", "~//a/./b/", "~/~/a", "a/b", "/x/~", ""] {
        for home in ["/home/person", "/", "home", "~x"] {
            let once = expand_path(case, home);
            assert_eq!(expand_path(&once, home), once);
        }
    }
}

#[test]
fn empty_home_gives_a_relative_path() {
    assert_eq!(expand_path("~/a/b", ""), "a/b");
    assert_eq!(expand_path("~", ""), "");
}

#[test]
fn expansion_agrees_with_std_paths() {
    let home = Path::new("/srv/home/user");
    let cases = ["~", "~/", "~/x", "~//x//y/", "~/./x/../y", "~/.hidden/dir"];
    for case in cases {
        let mut expected = PathBuf::new();
        let mut components = Path::new(case).components();
        components.next();
        expected.push(home);
        for component in components {
            expected.push(component);
        }
        assert_eq!(
            expand_path(case, home.to_str().unwrap()),
            expected.to_str().unwrap()
        );
    }
}

#[test]
fn config_expands_its_plugin_dir_only() {
    let plugin = strand::Plugin::from_str("alice/tool").unwrap();
    let mut config = Config {
        plugin_dir: "~/plugins".to_string(),
        plugins: vec![plugin.clone()],
    };
    config.expand_plugin_dir("/home/person");
    assert_eq!(config.plugin_dir, "/home/person/plugins");
    assert_eq!(config.plugins, vec![plugin]);
}
