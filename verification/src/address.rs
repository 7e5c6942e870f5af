//! Absolute URLs, as the `url` crate reads and writes them.

use vstd::prelude::*;

verus! {

/// `url::ParseError`, the reason for which the parser turns an input down.
/// It is carried along as it comes; nothing is read from it.
#[verifier::external_type_specification]
#[verifier::external_body]
pub struct ExParseError(url::ParseError);

/// What `url::Url::parse` makes of `input`: the serialized form of the URL it
/// reads, or `None` where it does not accept `input` as an absolute URL.
pub uninterp spec fn parsed_url(input: Seq<char>) -> Option<Seq<char>>;

/// `text` is the serialized form of some URL that the parser accepted.
pub open spec fn is_url_text(text: Seq<char>) -> bool {
    exists|input: Seq<char>| parsed_url(input) == Some(text)
}

/// Calls `url::Url::parse` and hands the URL back in its serialized form
/// (`String::from`, the text that `Url::as_str` shows). The contract claims
/// that this outcome is the one that `parsed_url` names for the same input:
/// the parser reads nothing but its argument.
#[verifier::external_body]
pub(crate) fn parse_url(input: &str) -> (r: Result<String, url::ParseError>)
    ensures
        match r {
            Ok(text) => parsed_url(input@) == Some(text@),
            Err(_) => parsed_url(input@) is None,
        },
{
    url::Url::parse(input).map(String::from)
}

/// What `url::ParseError` displays for `e`, by `to_string`. Nothing is
/// claimed of the text.
#[verifier::external_body]
pub(crate) fn parse_error_text(e: &url::ParseError) -> String {
    e.to_string()
}

} // verus!
