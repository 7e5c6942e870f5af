//! Git repositories named by a shorthand, and where their archives are served.

use crate::address::{parse_url, parsed_url};
use crate::provider::{GitProvider, GitProviderParseError};
use crate::provider::lemma_tokens;
use crate::text::{
    cut, first_occurrence, lacks, lemma_cut, lemma_cut_absent, lemma_cut_written,
    lemma_encode_concat, lemma_first_occurrence, split_on_pattern, tail_at, utf8_len,
};
use vstd::prelude::*;
use vstd::string::*;

verus! {

/// A snapshot of a repository at a provider. `git_ref` is a branch name, a
/// tag name or a commit hash.
#[derive(Clone, Debug, PartialEq, Eq)]
pub struct GitRepo {
    provider: GitProvider,
    user: String,
    repo: String,
    git_ref: String,
}

/// What a `GitRepo` holds, as plain values.
pub struct GitRepoView {
    pub provider: GitProvider,
    pub user: Seq<char>,
    pub repo: Seq<char>,
    pub git_ref: Seq<char>,
}

impl View for GitRepo {
    type V = GitRepoView;

    closed spec fn view(&self) -> GitRepoView {
        GitRepoView {
            provider: self.provider,
            user: self.user@,
            repo: self.repo@,
            git_ref: self.git_ref@,
        }
    }
}

/// Why a shorthand was turned down.
#[derive(Clone, Debug, PartialEq, Eq)]
pub enum GitRepoParseError {
    /// No `/` ends a user segment.
    MissingUser,
    /// The part before `@` names no known provider.
    ProviderParse(GitProviderParseError),
}

/// What a `GitRepoParseError` holds, as plain values.
pub enum GitRepoParseErrorView {
    MissingUser,
    UnknownProvider(Seq<char>),
}

impl View for GitRepoParseError {
    type V = GitRepoParseErrorView;

    open spec fn view(&self) -> GitRepoParseErrorView {
        match self {
            GitRepoParseError::MissingUser => GitRepoParseErrorView::MissingUser,
            GitRepoParseError::ProviderParse(e) => GitRepoParseErrorView::UnknownProvider(e@),
        }
    }
}

/// The ref of a shorthand that names none.
pub open spec fn default_ref() -> Seq<char> {
    "master"@
}

/// The reading of `user/repo[:git_ref]` at a provider that is already known.
pub open spec fn parse_path(provider: GitProvider, s: Seq<char>) -> Result<
    GitRepoView,
    GitRepoParseErrorView,
> {
    match cut(s, '/') {
        None => Err(GitRepoParseErrorView::MissingUser),
        Some((user, tail)) => Ok(
            match cut(tail, ':') {
                Some((repo, git_ref)) => GitRepoView { provider, user, repo, git_ref },
                None => GitRepoView { provider, user, repo: tail, git_ref: default_ref() },
            },
        ),
    }
}

/// The reading of a shorthand `[provider@]user/repo[:git_ref]`.
///
/// Whatever stands before the first `@` must name a provider; without an `@`
/// the provider is GitHub. The user ends at the first `/` after that, the
/// repository name at the first `:` after the user, and the rest is the ref,
/// which is `master` where no `:` follows.
pub open spec fn parse_shorthand(input: Seq<char>) -> Result<GitRepoView, GitRepoParseErrorView> {
    match cut(input, '@') {
        Some((token, rest)) => match GitProvider::of_token(token) {
            Some(provider) => parse_path(provider, rest),
            None => Err(GitRepoParseErrorView::UnknownProvider(token)),
        },
        None => parse_path(GitProvider::GitHub, input),
    }
}

/// `r` is the executable form of `expected`.
pub open spec fn reads_as(
    r: Result<GitRepo, GitRepoParseError>,
    expected: Result<GitRepoView, GitRepoParseErrorView>,
) -> bool {
    match expected {
        Ok(v) => r matches Ok(repo) && repo@ == v,
        Err(e) => r matches Err(x) && x@ == e,
    }
}

/// The address at which `repo`'s provider serves the archive of its snapshot.
pub open spec fn archive_address(repo: GitRepoView) -> Seq<char> {
    match repo.provider {
        GitProvider::GitHub => "https://codeload.github.com/"@ + repo.user + "/"@ + repo.repo
            + "/tar.gz/"@ + repo.git_ref,
        GitProvider::GitLab => "https://gitlab.com/"@ + repo.user + "/"@ + repo.repo
            + "/-/archive/"@ + repo.git_ref + "/"@ + repo.user + "-"@ + repo.git_ref
            + ".tar.gz"@,
        GitProvider::Bitbucket => "https://bitbucket.org/"@ + repo.user + "/"@ + repo.repo
            + "/get/"@ + repo.git_ref + ".tar.gz"@,
    }
}

/// A shorthand `user/repo`, written without `@` and without `:`, and with a
/// user free of `/`, is read as that repository at GitHub on the default ref.
pub proof fn lemma_plain_shorthand(user: Seq<char>, repo: Seq<char>)
    requires
        lacks(user, '@'),
        lacks(user, '/'),
        lacks(repo, '@'),
        lacks(repo, ':'),
    ensures
        parse_shorthand(user + seq!['/'] + repo) == Ok::<GitRepoView, GitRepoParseErrorView>(
            GitRepoView { provider: GitProvider::GitHub, user, repo, git_ref: default_ref() },
        ),
{
    let input = user + seq!['/'] + repo;
    lemma_cut_absent(input, '@');
    lemma_cut_written(user, '/', repo);
    lemma_cut_absent(repo, ':');
}

/// A shorthand `provider@user/repo:git_ref`, whose provider is one of the
/// three tokens, whose user is free of `/` and whose repository name is free
/// of `:`, is read as exactly these four parts.
pub proof fn lemma_full_shorthand(
    provider: GitProvider,
    user: Seq<char>,
    repo: Seq<char>,
    git_ref: Seq<char>,
)
    requires
        lacks(user, '/'),
        lacks(repo, ':'),
    ensures
        parse_shorthand(
            provider.token_text() + seq!['@'] + user + seq!['/'] + repo + seq![':'] + git_ref,
        ) == Ok::<GitRepoView, GitRepoParseErrorView>(
            GitRepoView { provider, user, repo, git_ref },
        ),
{
    let token = provider.token_text();
    let tail = repo + seq![':'] + git_ref;
    let path = user + seq!['/'] + tail;
    let input = token + seq!['@'] + user + seq!['/'] + repo + seq![':'] + git_ref;
    lemma_tokens();
    provider.lemma_token_round_trip();
    assert(input =~= token + seq!['@'] + path);
    lemma_cut_written(token, '@', path);
    lemma_cut_written(user, '/', tail);
    lemma_cut_written(repo, ':', git_ref);
}

/// A shorthand that is read and holds no `:` gets the default ref.
pub proof fn lemma_ref_defaults(input: Seq<char>)
    requires
        lacks(input, ':'),
    ensures
        parse_shorthand(input) matches Ok(repo) ==> repo.git_ref == default_ref(),
{
    let path = match cut(input, '@') {
        Some((_, rest)) => rest,
        None => input,
    };
    lemma_cut(input, '@');
    lemma_cut(path, '/');
    if let Some((_, tail)) = cut(path, '/') {
        assert(lacks(tail, ':')) by {
            assert forall|j: int| 0 <= j < tail.len() implies tail[j] != ':' by {
                let shift = input.len() - tail.len();
                assert(input[j + shift] == tail[j]);
            }
        }
        lemma_cut_absent(tail, ':');
    }
}

/// The ref of a shorthand that is read is empty only where the shorthand
/// ends in `:`.
pub proof fn lemma_empty_ref_is_written(input: Seq<char>)
    ensures
        parse_shorthand(input) matches Ok(repo) ==> (repo.git_ref.len() == 0 ==> input.len() > 0
            && input.last() == ':'),
{
    reveal_strlit("master");
    let path = match cut(input, '@') {
        Some((_, rest)) => rest,
        None => input,
    };
    lemma_cut(input, '@');
    lemma_cut(path, '/');
    if let Some((_, tail)) = cut(path, '/') {
        lemma_cut(tail, ':');
    }
}

/// Splits what is left of `input` from byte offset `i` on, which is where
/// character `k` starts, at the first occurrence of the one-character
/// `pattern`, and moves `i` behind that occurrence.
fn split_rest<'a>(input: &'a str, pattern: &str, i: &mut usize, Ghost(k): Ghost<int>) -> (head:
    Option<&'a str>)
    requires
        0 <= k <= input@.len(),
        *old(i) == utf8_len(input@.take(k)),
        utf8_len(input@) <= usize::MAX,
        pattern@.len() == 1,
    ensures
        match cut(input@.skip(k), pattern@[0]) {
            Some((before, after)) => {
                &&& head matches Some(h)
                &&& h@ == before
                &&& k + before.len() + 1 <= input@.len()
                &&& after == input@.skip(k + before.len() + 1)
                &&& *final(i) == utf8_len(input@.take(k + before.len() + 1))
            },
            None => head is None && *final(i) == *old(i),
        },
{
    let rest = tail_at(input, *i, Ghost(k));
    proof {
        assert(pattern@ =~= seq![pattern@[0]]);
        assert(input@ =~= input@.take(k) + rest@);
        lemma_encode_concat(input@.take(k), rest@);
        lemma_first_occurrence(rest@, pattern@);
        if let Some(at) = first_occurrence(rest@, pattern@) {
            let upto = k + at + 1;
            assert(input@.take(upto) =~= input@.take(k) + rest@.take(at) + pattern@);
            assert(input@.skip(upto) =~= rest@.skip(at + 1));
            lemma_encode_concat(input@.take(k) + rest@.take(at), pattern@);
            lemma_encode_concat(input@.take(k), rest@.take(at));
            assert(input@ =~= input@.take(upto) + input@.skip(upto));
            lemma_encode_concat(input@.take(upto), input@.skip(upto));
        }
    }
    split_on_pattern(rest, pattern, i)
}

impl GitRepo {
    /// A repository snapshot from its four parts.
    pub fn new(provider: GitProvider, user: &str, repo: &str, git_ref: &str) -> (r: GitRepo)
        ensures
            r@ == (GitRepoView { provider, user: user@, repo: repo@, git_ref: git_ref@ }),
    {
        GitRepo {
            provider,
            user: String::from_str(user),
            repo: String::from_str(repo),
            git_ref: String::from_str(git_ref),
        }
    }

    /// Reads a shorthand `[provider@]user/repo[:git_ref]`.
    pub fn from_str(input: &str) -> (r: Result<GitRepo, GitRepoParseError>)
        ensures
            reads_as(r, parse_shorthand(input@)),
    {
        // The length of a slice is known to fit `usize`; that of a string is not.
        let whole: usize = input.as_bytes().len();
        assert(whole == utf8_len(input@));
        proof {
            reveal_strlit("@");
            reveal_strlit("/");
            reveal_strlit(":");
            assert(input@.take(0) =~= Seq::<char>::empty());
            assert(input@.skip(0) =~= input@);
        }
        // How far the input has been read: `i` in bytes, `k` in characters.
        let mut i: usize = 0;
        let ghost mut k: int = 0;

        // Without a provider the repository is at GitHub.
        let provider = match split_rest(input, "@", &mut i, Ghost(k)) {
            Some(token) => {
                proof {
                    k = token@.len() as int + 1;
                }
                match GitProvider::from_str(token) {
                    Ok(provider) => provider,
                    Err(e) => {
                        return Err(GitRepoParseError::ProviderParse(e));
                    },
                }
            },
            None => GitProvider::GitHub,
        };
        assert(parse_shorthand(input@) == parse_path(provider, input@.skip(k)));

        let user = match split_rest(input, "/", &mut i, Ghost(k)) {
            Some(user) => user,
            None => {
                return Err(GitRepoParseError::MissingUser);
            },
        };
        proof {
            k = k + user@.len() + 1;
        }

        // With a `:` the name ends there and the ref follows; without one the
        // rest is the name and the ref is the default one.
        let ghost name_at = k;
        let (repo, git_ref) = match split_rest(input, ":", &mut i, Ghost(k)) {
            Some(repo) => {
                proof {
                    k = k + repo@.len() + 1;
                }
                (repo, tail_at(input, i, Ghost(k)))
            },
            None => (tail_at(input, i, Ghost(name_at)), "master"),
        };

        Ok(GitRepo::new(provider, user, repo, git_ref))
    }

    /// The provider that hosts the repository.
    pub fn provider(&self) -> (p: GitProvider)
        ensures
            p == self@.provider,
    {
        self.provider
    }

    /// The user or organisation that owns the repository.
    pub fn user(&self) -> (s: &str)
        ensures
            s@ == self@.user,
    {
        self.user.as_str()
    }

    /// The repository's name.
    pub fn repo(&self) -> (s: &str)
        ensures
            s@ == self@.repo,
    {
        self.repo.as_str()
    }

    /// The branch, tag or commit of the snapshot.
    pub fn git_ref(&self) -> (s: &str)
        ensures
            s@ == self@.git_ref,
    {
        self.git_ref.as_str()
    }

    /// The name under which the repository is shown: its own name.
    pub fn to_string(&self) -> (name: String)
        ensures
            name@ == self@.repo,
    {
        self.repo.clone()
    }

    /// The text of the address at which the provider serves the archive of
    /// this snapshot, before any URL parser has seen it.
    pub fn archive_address(&self) -> (text: String)
        ensures
            text@ == archive_address(self@),
    {
        let user = self.user.as_str();
        let repo = self.repo.as_str();
        let git_ref = self.git_ref.as_str();
        match self.provider {
            GitProvider::GitHub => {
                let mut text = String::from_str("https://codeload.github.com/");
                text.append(user);
                text.append("/");
                text.append(repo);
                text.append("/tar.gz/");
                text.append(git_ref);
                text
            },
            GitProvider::GitLab => {
                let mut text = String::from_str("https://gitlab.com/");
                text.append(user);
                text.append("/");
                text.append(repo);
                text.append("/-/archive/");
                text.append(git_ref);
                text.append("/");
                text.append(user);
                text.append("-");
                text.append(git_ref);
                text.append(".tar.gz");
                text
            },
            GitProvider::Bitbucket => {
                let mut text = String::from_str("https://bitbucket.org/");
                text.append(user);
                text.append("/");
                text.append(repo);
                text.append("/get/");
                text.append(git_ref);
                text.append(".tar.gz");
                text
            },
        }
    }

    /// The URL of the archive: the address of `archive_address`, as the URL
    /// parser writes it back, or the parser's error where it turns the
    /// address down.
    pub fn resolve(&self) -> (r: Result<String, url::ParseError>)
        ensures
            match parsed_url(archive_address(self@)) {
                Some(url) => r matches Ok(text) && text@ == url,
                None => r is Err,
            },
    {
        let address = self.archive_address();
        parse_url(address.as_str())
    }
}

impl GitRepoParseError {
    /// The message shown for this error.
    pub open spec fn message(self) -> Seq<char> {
        match self {
            GitRepoParseError::MissingUser => "no user was found"@,
            GitRepoParseError::ProviderParse(_) => "failed to parse Git provider"@,
        }
    }

    /// The message shown for this error.
    pub fn to_string(&self) -> (text: String)
        ensures
            text@ == self.message(),
    {
        match self {
            GitRepoParseError::MissingUser => String::from_str("no user was found"),
            GitRepoParseError::ProviderParse(_) => String::from_str("failed to parse Git provider"),
        }
    }
}

} // verus!
