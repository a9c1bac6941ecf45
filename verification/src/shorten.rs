//! The decisions of the link-shortening client. The HTTP exchange lives
//! outside the library; verified here are the request parameters, the
//! validation that precedes any request, and how a response payload becomes
//! a short URL or a failure.

use vstd::prelude::*;

use crate::error::{FlomError, FlomErrorView, FlomResult};

verus! {

/// What the shortening service answered: a short URL, an error message, or
/// (malformed) neither.
#[derive(Debug, Clone, PartialEq, Eq)]
pub struct ShortenPayload {
    pub shorturl: Option<String>,
    pub errormessage: Option<String>,
}

/// The query parameters of a shortening request for `url`.
pub open spec fn spec_shorten_params(url: Seq<char>) -> Seq<(Seq<char>, Seq<char>)> {
    seq![("format"@, "json"@), ("url"@, url)]
}

/// The (name, value) query parameters of a shortening request for `url`,
/// validated first: only a well-formed absolute URL yields parameters.
pub fn shorten_request_params(url: &str) -> (r: FlomResult<Vec<(String, String)>>)
    ensures
        r is Ok <==> crate::validate::url_parse_diag(url@) is None,
        match r {
            Ok(params) => params@.map_values(|p: (String, String)| (p.0@, p.1@))
                == spec_shorten_params(url@),
            Err(e) => crate::validate::url_parse_diag(url@) matches Some(diag) && e@
                == FlomErrorView::InvalidInput("invalid url: "@ + diag),
        },
{
    match crate::validate::validate_url(url) {
        Ok(_) => {
            let mut params: Vec<(String, String)> = Vec::new();
            params.push(("format".to_owned(), "json".to_owned()));
            params.push(("url".to_owned(), url.to_owned()));
            proof {
                assert(params@.map_values(|p: (String, String)| (p.0@, p.1@))
                    =~= spec_shorten_params(url@));
            }
            Ok(params)
        },
        Err(e) => Err(e),
    }
}

/// What a shortening payload yields: the service's own error message when it
/// reports one, else the short URL, else the fixed complaint that the
/// response carried neither.
pub open spec fn spec_shorten_outcome(payload: ShortenPayload) -> Result<Seq<char>, FlomErrorView> {
    match payload.errormessage {
        Some(m) => Err(FlomErrorView::Api(m@)),
        None => match payload.shorturl {
            Some(u) => Ok(u@),
            None => Err(FlomErrorView::Api("shorten response missing shorturl"@)),
        },
    }
}

/// Decides what a shortening payload yields.
pub fn shorten_outcome(payload: ShortenPayload) -> (r: FlomResult<String>)
    ensures
        match r {
            Ok(u) => spec_shorten_outcome(payload) == Ok::<Seq<char>, FlomErrorView>(u@),
            Err(e) => spec_shorten_outcome(payload) == Err::<Seq<char>, FlomErrorView>(e@),
        },
{
    match payload.errormessage {
        Some(m) => Err(FlomError::Api(m)),
        None => match payload.shorturl {
            Some(u) => Ok(u),
            None => Err(FlomError::Api("shorten response missing shorturl".to_owned())),
        },
    }
}

/// The failure for a non-success HTTP status of the shortening service.
pub fn shorten_api_error(status_text: &str, body: &str) -> (r: FlomError)
    ensures
        r@ == FlomErrorView::Api("shorten error: status="@ + status_text@ + " body="@ + body@),
{
    let mut message = "shorten error: status=".to_owned();
    message.append(status_text);
    message.append(" body=");
    message.append(body);
    FlomError::Api(message)
}

/// The failure for a transport-level fault of the shortening service.
pub fn shorten_network_error(cause: &str) -> (r: FlomError)
    ensures
        r@ == FlomErrorView::Network("shorten request failed: "@ + cause@),
{
    let mut message = "shorten request failed: ".to_owned();
    message.append(cause);
    FlomError::Network(message)
}

/// The failure for a shortening response that did not match the schema.
pub fn shorten_parse_error(cause: &str) -> (r: FlomError)
    ensures
        r@ == FlomErrorView::Parse("shorten response parse failed: "@ + cause@),
{
    let mut message = "shorten response parse failed: ".to_owned();
    message.append(cause);
    FlomError::Parse(message)
}

} // verus!
