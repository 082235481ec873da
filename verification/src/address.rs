//! URLs as text. Parsing and joining are the work of the `url` crate; this
//! module gives their results names that contracts can speak of.

use vstd::prelude::*;

verus! {

/// What `url::Url::parse` makes of `input`: the serialization of the URL it
/// reads, or the error it reports.
pub uninterp spec fn url_parse(input: Seq<char>) -> Result<Seq<char>, url::ParseError>;

/// What `url::Url::join` makes of `reference` against the URL that
/// `url::Url::parse` reads from `base`: the serialization of the resolved URL,
/// or the error that parsing `base` or joining reports.
pub uninterp spec fn url_join(base: Seq<char>, reference: Seq<char>) -> Result<
    Seq<char>,
    url::ParseError,
>;

/// Calls `url::Url::parse` and hands back the serialization of the URL it
/// read, or its error. Trusted: the result is what `url_parse` names;
/// nothing more is claimed of it.
#[verifier::external_body]
pub(crate) fn parse_url(input: &str) -> (r: Result<String, url::ParseError>)
    ensures
        match r {
            Ok(text) => url_parse(input@) == Ok::<Seq<char>, url::ParseError>(text@),
            Err(e) => url_parse(input@) == Err::<Seq<char>, url::ParseError>(e),
        },
{
    match url::Url::parse(input) {
        Ok(url) => Ok(String::from(url)),
        Err(e) => Err(e),
    }
}

/// Turns `base` into a URL with `url::Url::parse`, calls `url::Url::join` on
/// it with `reference`, and hands back the serialization of the resolved URL,
/// or the error of whichever of the two failed. Trusted: the result is what
/// `url_join` names; nothing more is claimed of it.
#[verifier::external_body]
pub(crate) fn join_url(base: &str, reference: &str) -> (r: Result<String, url::ParseError>)
    ensures
        match r {
            Ok(text) => url_join(base@, reference@) == Ok::<Seq<char>, url::ParseError>(text@),
            Err(e) => url_join(base@, reference@) == Err::<Seq<char>, url::ParseError>(e),
        },
{
    match url::Url::parse(base) {
        Ok(base) => match base.join(reference) {
            Ok(url) => Ok(String::from(url)),
            Err(e) => Err(e),
        },
        Err(e) => Err(e),
    }
}

} // verus!
