//! The URL validator: confirms a string is a well-formed absolute URL before
//! any network call is issued.

use vstd::prelude::*;

use crate::error::{FlomError, FlomErrorView, FlomResult};

verus! {

/// What `url::Url::parse` answers for a string: nothing when the string
/// parses as an absolute URL, and the parser's diagnostic text when it does
/// not.
pub uninterp spec fn url_parse_diag(s: Seq<char>) -> Option<Seq<char>>;

/// Relies on `url::Url::parse`: parsing is a pure function of the input
/// string, it succeeds exactly on absolute URLs, and each failure carries a
/// fixed diagnostic text determined by the input alone.
#[verifier::external_body]
fn parse_url_diag(input: &str) -> (r: Option<String>)
    ensures
        crate::text::opt_view(r) == url_parse_diag(input@),
{
    match url::Url::parse(input) {
        Ok(_) => None,
        Err(err) => Some(err.to_string()),
    }
}

/// Accepts only strings parseable as an absolute URL; any other input fails
/// with the invalid-input error carrying the parser's diagnostic. No side
/// effects; this must run before any network call.
pub fn validate_url(url: &str) -> (r: FlomResult<()>)
    ensures
        r is Ok <==> url_parse_diag(url@) is None,
        match r {
            Ok(u) => u == (),
            Err(e) => url_parse_diag(url@) matches Some(diag) && e@ == FlomErrorView::InvalidInput(
                "invalid url: "@ + diag,
            ),
        },
{
    match parse_url_diag(url) {
        None => Ok(()),
        Some(diag) => {
            let mut message = "invalid url: ".to_owned();
            message.append(diag.as_str());
            Err(FlomError::InvalidInput(message))
        },
    }
}

} // verus!
