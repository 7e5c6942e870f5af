use strand::{ArchivePlugin, GitProvider, GitRepo, Plugin};

#[test]
fn github_archive_url() {
    let repo = GitRepo::new(GitProvider::GitHub, "alice", "tool", "v2");
    assert_eq!(
        repo.archive_address(),
        "https://codeload.github.com/alice/tool/tar.gz/v2"
    );
    assert_eq!(
        Plugin::Git(repo).resolve().unwrap(),
        "https://codeload.github.com/alice/tool/tar.gz/v2"
    );
}

#[test]
fn gitlab_archive_url() {
    let repo = GitRepo::new(GitProvider::GitLab, "bob", "lib", "main");
    assert_eq!(
        repo.archive_address(),
        "https://gitlab.com/bob/lib/-/archive/main/bob-main.tar.gz"
    );
    assert_eq!(
        Plugin::Git(repo).resolve().unwrap(),
        "https://gitlab.com/bob/lib/-/archive/main/bob-main.tar.gz"
    );
}

#[test]
fn bitbucket_archive_url() {
    let repo = GitRepo::new(GitProvider::Bitbucket, "carol", "kit", "dev");
    assert_eq!(
        repo.archive_address(),
        "https://bitbucket.org/carol/kit/get/dev.tar.gz"
    );
    assert_eq!(
        repo.resolve().unwrap(),
        "https://bitbucket.org/carol/kit/get/dev.tar.gz"
    );
}

#[test]
fn parsed_shorthand_resolves_on_the_default_ref() {
    let plugin = Plugin::from_str("alice/tool").unwrap();
    assert_eq!(
        plugin.resolve().unwrap(),
        "https://codeload.github.com/alice/tool/tar.gz/master"
    );
}

#[test]
fn archive_resolves_to_its_own_url() {
    let archive = ArchivePlugin::from_str("https://example.com/a/plugin.tar.gz?x=1").unwrap();
    assert_eq!(
        Plugin::Archive(archive).resolve().unwrap(),
        "https://example.com/a/plugin.tar.gz?x=1"
    );
}

#[test]
fn resolving_twice_gives_the_same_url() {
    let plugin = Plugin::from_str("gitlab@bob/lib:main").unwrap();
    let copy = plugin.clone();
    let first = plugin.resolve().unwrap();
    let second = plugin.resolve().unwrap();
    let third = copy.resolve().unwrap();
    assert_eq!(first.as_bytes(), second.as_bytes());
    assert_eq!(first.as_bytes(), third.as_bytes());
}

#[test]
fn the_url_is_the_address_as_the_parser_writes_it() {
    let spaced = GitRepo::new(GitProvider::GitHub, "alice", "my tool", "v2");
    assert_eq!(
        spaced.archive_address(),
        "https://codeload.github.com/alice/my tool/tar.gz/v2"
    );
    assert_eq!(
        spaced.resolve().unwrap(),
        "https://codeload.github.com/alice/my%20tool/tar.gz/v2"
    );
    let dotted = GitRepo::new(GitProvider::Bitbucket, "carol", "..", "dev");
    assert_eq!(
        dotted.resolve().unwrap(),
        "https://bitbucket.org/get/dev.tar.gz"
    );
}

#[test]
fn empty_parts_still_resolve() {
    let repo = GitRepo::new(GitProvider::GitHub, "", "", "");
    assert_eq!(repo.archive_address(), "https://codeload.github.com///tar.gz/");
    assert_eq!(
        repo.resolve().unwrap(),
        "https://codeload.github.com///tar.gz/"
    );
}
