//! Git hosting providers and the tokens that name them in a plugin spec.

use crate::text::str_eq;
use vstd::prelude::*;
use vstd::string::*;

verus! {

/// A Git hosting service that serves tarballs of repository snapshots.
#[derive(Clone, Copy, Debug, PartialEq, Eq, Structural)]
pub enum GitProvider {
    GitHub,
    GitLab,
    Bitbucket,
}

/// Why a provider token was turned down.
#[derive(Clone, Debug, PartialEq, Eq)]
pub enum GitProviderParseError {
    /// The token names none of the known providers; it is kept as written.
    UnknownProvider(String),
}

impl View for GitProviderParseError {
    type V = Seq<char>;

    /// The token that was turned down.
    open spec fn view(&self) -> Seq<char> {
        match self {
            GitProviderParseError::UnknownProvider(token) => token@,
        }
    }
}

impl GitProvider {
    /// The token that names this provider.
    pub open spec fn token_text(self) -> Seq<char> {
        match self {
            GitProvider::GitHub => "github"@,
            GitProvider::GitLab => "gitlab"@,
            GitProvider::Bitbucket => "bitbucket"@,
        }
    }

    /// The provider that `token` names: an exact, case-sensitive match.
    pub open spec fn of_token(token: Seq<char>) -> Option<GitProvider> {
        if token == "github"@ {
            Some(GitProvider::GitHub)
        } else if token == "gitlab"@ {
            Some(GitProvider::GitLab)
        } else if token == "bitbucket"@ {
            Some(GitProvider::Bitbucket)
        } else {
            None
        }
    }

    /// Reads a provider token.
    pub fn from_str(s: &str) -> (r: Result<GitProvider, GitProviderParseError>)
        ensures
            match GitProvider::of_token(s@) {
                Some(provider) => r == Ok::<GitProvider, GitProviderParseError>(provider),
                None => r matches Err(e) && e@ == s@,
            },
    {
        if str_eq(s, "github") {
            Ok(GitProvider::GitHub)
        } else if str_eq(s, "gitlab") {
            Ok(GitProvider::GitLab)
        } else if str_eq(s, "bitbucket") {
            Ok(GitProvider::Bitbucket)
        } else {
            Err(GitProviderParseError::UnknownProvider(String::from_str(s)))
        }
    }

    /// The token that names this provider.
    pub fn token(&self) -> (t: &'static str)
        ensures
            t@ == self.token_text(),
    {
        match self {
            GitProvider::GitHub => "github",
            GitProvider::GitLab => "gitlab",
            GitProvider::Bitbucket => "bitbucket",
        }
    }

    /// Every provider is read back from its own token.
    pub proof fn lemma_token_round_trip(self)
        ensures
            GitProvider::of_token(self.token_text()) == Some(self),
    {
        lemma_tokens();
    }
}

/// The three tokens, character by character.
pub proof fn lemma_tokens()
    ensures
        "github"@ == seq!['g', 'i', 't', 'h', 'u', 'b'],
        "gitlab"@ == seq!['g', 'i', 't', 'l', 'a', 'b'],
        "bitbucket"@ == seq!['b', 'i', 't', 'b', 'u', 'c', 'k', 'e', 't'],
{
    reveal_strlit("github");
    reveal_strlit("gitlab");
    reveal_strlit("bitbucket");
    assert("github"@ =~= seq!['g', 'i', 't', 'h', 'u', 'b']);
    assert("gitlab"@ =~= seq!['g', 'i', 't', 'l', 'a', 'b']);
    assert("bitbucket"@ =~= seq!['b', 'i', 't', 'b', 'u', 'c', 'k', 'e', 't']);
}

impl GitProviderParseError {
    /// The message shown for this error.
    pub open spec fn message(self) -> Seq<char> {
        "Git provider "@ + self@
            + " not recognised -- try ‘github’, ‘gitlab’ or ‘bitbucket’ instead"@
    }

    /// The message shown for this error.
    pub fn to_string(&self) -> (text: String)
        ensures
            text@ == self.message(),
    {
        let mut text = String::from_str("Git provider ");
        match self {
            GitProviderParseError::UnknownProvider(token) => text.append(token.as_str()),
        }
        text.append(" not recognised -- try ‘github’, ‘gitlab’ or ‘bitbucket’ instead");
        text
    }
}

} // verus!
