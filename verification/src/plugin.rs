//! Plugins: what a spec string names, and the URL from which it is fetched.

use crate::address::{is_url_text, parse_error_text, parse_url, parsed_url};
use crate::provider::GitProvider;
use crate::repo::{
    archive_address, default_ref, lemma_full_shorthand, lemma_plain_shorthand, parse_shorthand,
    GitRepo, GitRepoParseError, GitRepoParseErrorView, GitRepoView,
};
use crate::text::lacks;
use vstd::prelude::*;
use vstd::string::*;

verus! {

/// An archive that is fetched from the URL it is given by.
#[derive(Debug, PartialEq, Eq)]
pub struct ArchivePlugin {
    url: String,
}

impl View for ArchivePlugin {
    type V = Seq<char>;

    /// The URL, in its serialized form.
    closed spec fn view(&self) -> Seq<char> {
        self.url@
    }
}

impl Clone for ArchivePlugin {
    fn clone(&self) -> (copy: Self)
        ensures
            copy@ == self@,
    {
        proof {
            use_type_invariant(self);
        }
        ArchivePlugin { url: self.url.clone() }
    }
}

impl ArchivePlugin {
    /// The URL is one that the URL parser wrote.
    #[verifier::type_invariant]
    spec fn holds_a_url(self) -> bool {
        is_url_text(self.url@)
    }

    /// Reads an absolute URL.
    pub fn from_str(s: &str) -> (r: Result<ArchivePlugin, url::ParseError>)
        ensures
            match parsed_url(s@) {
                Some(url) => r matches Ok(archive) && archive@ == url,
                None => r is Err,
            },
    {
        match parse_url(s) {
            Ok(url) => {
                assert(is_url_text(url@)) by {
                    assert(parsed_url(s@) == Some(url@));
                }
                Ok(ArchivePlugin { url })
            },
            Err(e) => Err(e),
        }
    }

    /// The URL, in its serialized form.
    pub fn as_str(&self) -> (s: &str)
        ensures
            s@ == self@,
            is_url_text(s@),
    {
        proof {
            use_type_invariant(self);
        }
        self.url.as_str()
    }

    /// The name under which the archive is shown: its URL.
    pub fn to_string(&self) -> (name: String)
        ensures
            name@ == self@,
            is_url_text(name@),
    {
        proof {
            use_type_invariant(self);
        }
        self.url.clone()
    }
}

/// The unit of installation: one plugin, one URL, one tree of files.
#[derive(Clone, Debug, PartialEq, Eq)]
pub enum Plugin {
    Git(GitRepo),
    Archive(ArchivePlugin),
}

/// What a `Plugin` holds, as plain values.
pub enum PluginView {
    Git(GitRepoView),
    Archive(Seq<char>),
}

impl View for Plugin {
    type V = PluginView;

    open spec fn view(&self) -> PluginView {
        match self {
            Plugin::Git(repo) => PluginView::Git(repo@),
            Plugin::Archive(archive) => PluginView::Archive(archive@),
        }
    }
}

/// Why a plugin spec was turned down.
#[derive(Debug, PartialEq, Eq)]
pub enum PluginParseError {
    GitParse(GitRepoParseError),
    ArchiveParse(url::ParseError),
}

/// The reading of a plugin spec, given what the URL parser makes of it: an
/// archive where the spec is an absolute URL, the shorthand of a repository
/// otherwise.
pub open spec fn parse_plugin(url: Option<Seq<char>>, input: Seq<char>) -> Result<
    PluginView,
    GitRepoParseErrorView,
> {
    match url {
        Some(text) => Ok(PluginView::Archive(text)),
        None => match parse_shorthand(input) {
            Ok(repo) => Ok(PluginView::Git(repo)),
            Err(e) => Err(e),
        },
    }
}

/// `r` is the executable form of `expected`.
pub open spec fn plugin_reads_as(
    r: Result<Plugin, PluginParseError>,
    expected: Result<PluginView, GitRepoParseErrorView>,
) -> bool {
    match expected {
        Ok(v) => r matches Ok(plugin) && plugin@ == v,
        Err(e) => r matches Err(PluginParseError::GitParse(x)) && x@ == e,
    }
}

/// The URL from which a plugin is fetched: an archive's own, a repository's
/// archive address as the URL parser writes it back. `None` where the parser
/// turns that address down.
pub open spec fn resolved(plugin: PluginView) -> Option<Seq<char>> {
    match plugin {
        PluginView::Archive(url) => Some(url),
        PluginView::Git(repo) => parsed_url(archive_address(repo)),
    }
}

/// `r` is an outcome of resolving `plugin`: the plugin's URL where it has
/// one, which is then a URL that the parser wrote, and an error where it has
/// none.
pub open spec fn resolves_to(plugin: PluginView, r: Result<String, url::ParseError>) -> bool {
    match resolved(plugin) {
        Some(url) => r matches Ok(text) && text@ == url && is_url_text(url),
        None => r is Err,
    }
}

/// Resolving is a function of what the plugin holds: two outcomes for plugins
/// that hold the same succeed together, and then with the same URL.
pub proof fn lemma_resolve_is_deterministic(
    p: Plugin,
    q: Plugin,
    a: Result<String, url::ParseError>,
    b: Result<String, url::ParseError>,
)
    requires
        p@ == q@,
        resolves_to(p@, a),
        resolves_to(q@, b),
    ensures
        a is Ok <==> b is Ok,
        a matches Ok(x) ==> b matches Ok(y) && x@ == y@,
{
}

/// A spec that the URL parser turns down and that is written `user/repo`,
/// without `@`, with a user free of `/` and a repository name free of `:`,
/// names that repository at GitHub on the default ref.
pub proof fn lemma_plain_shorthand_names_github(user: Seq<char>, repo: Seq<char>)
    requires
        parsed_url(user + seq!['/'] + repo) is None,
        lacks(user, '@'),
        lacks(user, '/'),
        lacks(repo, '@'),
        lacks(repo, ':'),
    ensures
        parse_plugin(
            parsed_url(user + seq!['/'] + repo),
            user + seq!['/'] + repo,
        ) == Ok::<PluginView, GitRepoParseErrorView>(
            PluginView::Git(
                GitRepoView { provider: GitProvider::GitHub, user, repo, git_ref: default_ref() },
            ),
        ),
{
    lemma_plain_shorthand(user, repo);
}

/// A spec that the URL parser turns down and that is written
/// `provider@user/repo:git_ref`, with one of the three provider tokens, a
/// user free of `/` and a repository name free of `:`, names the repository
/// of exactly these four parts.
pub proof fn lemma_full_shorthand_names_its_parts(
    provider: GitProvider,
    user: Seq<char>,
    repo: Seq<char>,
    git_ref: Seq<char>,
)
    requires
        parsed_url(
            provider.token_text() + seq!['@'] + user + seq!['/'] + repo + seq![':'] + git_ref,
        ) is None,
        lacks(user, '/'),
        lacks(repo, ':'),
    ensures
        parse_plugin(
            parsed_url(
                provider.token_text() + seq!['@'] + user + seq!['/'] + repo + seq![':']
                    + git_ref,
            ),
            provider.token_text() + seq!['@'] + user + seq!['/'] + repo + seq![':'] + git_ref,
        ) == Ok::<PluginView, GitRepoParseErrorView>(
            PluginView::Git(GitRepoView { provider, user, repo, git_ref }),
        ),
{
    lemma_full_shorthand(provider, user, repo, git_ref);
}

impl Plugin {
    /// Reads a plugin spec: an absolute URL names an archive, anything else
    /// is taken for the shorthand of a repository.
    pub fn from_str(s: &str) -> (r: Result<Plugin, PluginParseError>)
        ensures
            plugin_reads_as(r, parse_plugin(parsed_url(s@), s@)),
    {
        Plugin::from_readings(ArchivePlugin::from_str(s), s)
    }

    /// Chooses between the two readings of a spec, given what came of
    /// reading it as an archive URL: that archive where there is one, and
    /// the reading as a shorthand where there is none.
    pub fn from_readings(archive: Result<ArchivePlugin, url::ParseError>, s: &str) -> (r: Result<
        Plugin,
        PluginParseError,
    >)
        ensures
            plugin_reads_as(
                r,
                parse_plugin(
                    match archive {
                        Ok(a) => Some(a@),
                        Err(_) => None,
                    },
                    s@,
                ),
            ),
    {
        match archive {
            Ok(archive) => Ok(Plugin::Archive(archive)),
            Err(_) => match GitRepo::from_str(s) {
                Ok(repo) => Ok(Plugin::Git(repo)),
                Err(e) => Err(PluginParseError::GitParse(e)),
            },
        }
    }

    /// The URL from which the plugin is fetched.
    pub fn resolve(&self) -> (r: Result<String, url::ParseError>)
        ensures
            resolves_to(self@, r),
    {
        match self {
            Plugin::Git(repo) => repo.resolve(),
            Plugin::Archive(archive) => Ok(archive.to_string()),
        }
    }

    /// The name under which the plugin is shown.
    pub open spec fn name(self) -> Seq<char> {
        match self@ {
            PluginView::Git(repo) => repo.repo,
            PluginView::Archive(url) => url,
        }
    }

    /// The name under which the plugin is shown: a repository's name, an
    /// archive's URL.
    pub fn to_string(&self) -> (name: String)
        ensures
            name@ == self.name(),
    {
        match self {
            Plugin::Git(repo) => repo.to_string(),
            Plugin::Archive(archive) => archive.to_string(),
        }
    }
}

impl PluginParseError {
    /// What every message for this error starts with.
    pub open spec fn message_head(self) -> Seq<char> {
        match self {
            PluginParseError::GitParse(_) => "failed to parse Git repo: "@,
            PluginParseError::ArchiveParse(_) => "failed to parse archive plugin: "@,
        }
    }

    /// The message shown for this error: its head, then the message of the
    /// error it holds.
    pub fn to_string(&self) -> (text: String)
        ensures
            self.message_head().is_prefix_of(text@),
            self matches PluginParseError::GitParse(e) ==> text@ == self.message_head()
                + e.message(),
    {
        match self {
            PluginParseError::GitParse(e) => {
                let mut text = String::from_str("failed to parse Git repo: ");
                let detail = e.to_string();
                text.append(detail.as_str());
                text
            },
            PluginParseError::ArchiveParse(e) => {
                let mut text = String::from_str("failed to parse archive plugin: ");
                let detail = parse_error_text(e);
                text.append(detail.as_str());
                text
            },
        }
    }
}

} // verus!
