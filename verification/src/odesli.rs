//! The resolution-service schema and the request shape of the resolution
//! client. The client's network transport lives outside the library; what is
//! verified here is everything the client decides: the query parameters a
//! request carries, which HTTP statuses count as success, and the exact
//! diagnostic each failure yields.

use vstd::prelude::*;

use crate::error::{FlomError, FlomResult};
use crate::strmap::StrKeyMap;
use crate::text::trim_ws;

verus! {

/// The endpoint every resolution request is sent to.
pub const API_BASE: &'static str = "https://api.song.link/v1-alpha.1/links";

/// One per-platform link of a resolution response. `entity_unique_id` is a
/// foreign key into the entity graph, never a pointer: lookups must tolerate
/// a missing entry.
#[derive(Debug, Clone, PartialEq, Eq)]
pub struct OdesliLink {
    pub entity_unique_id: String,
    pub url: String,
}

/// One entity of a resolution response. Every field may be absent.
#[derive(Debug, Clone, PartialEq, Eq)]
pub struct OdesliEntity {
    pub id: Option<String>,
    pub title: Option<String>,
    pub artist_name: Option<String>,
    pub album_name: Option<String>,
    pub api_provider: Option<String>,
}

/// A resolution-service response: the service's chosen representative entity
/// for the source link, the generic landing page, the per-platform link map
/// and the entity graph.
pub struct OdesliResponse {
    pub entity_unique_id: String,
    pub page_url: String,
    pub links_by_platform: StrKeyMap<OdesliLink>,
    pub entities_by_unique_id: StrKeyMap<OdesliEntity>,
}

impl OdesliResponse {
    /// Both maps hold their keys in strictly increasing order.
    pub open spec fn wf(&self) -> bool {
        self.links_by_platform.wf() && self.entities_by_unique_id.wf()
    }
}

/// The resolution client's own state: the optional API key and the country
/// context every request carries.
#[derive(Debug, Clone)]
pub struct OdesliClient {
    pub api_key: Option<String>,
    pub user_country: String,
}

/// The query parameters of a resolution request: the source URL and the
/// country always; the API key only when one is configured and non-blank,
/// and never anything else.
pub open spec fn spec_query_params(
    url: Seq<char>,
    user_country: Seq<char>,
    api_key: Option<String>,
) -> Seq<(Seq<char>, Seq<char>)> {
    let base = seq![("url"@, url), ("userCountry"@, user_country)];
    match api_key {
        Some(k) => if trim_ws(k@).len() > 0 {
            base.push(("key"@, k@))
        } else {
            base
        },
        None => base,
    }
}

impl OdesliClient {
    /// A client that will query with the given key and country.
    pub fn new(api_key: Option<String>, user_country: String) -> (r: Self)
        ensures
            r.api_key == api_key,
            r.user_country == user_country,
    {
        OdesliClient { api_key, user_country }
    }

    /// The (name, value) query parameters of a request for `url`.
    pub fn query_params(&self, url: &str) -> (r: Vec<(String, String)>)
        ensures
            r@.map_values(|p: (String, String)| (p.0@, p.1@)) == spec_query_params(
                url@,
                self.user_country@,
                self.api_key,
            ),
    {
        let mut params: Vec<(String, String)> = Vec::new();
        params.push(("url".to_owned(), url.to_owned()));
        params.push(("userCountry".to_owned(), self.user_country.clone()));
        let blank = match &self.api_key {
            Some(k) => crate::text::is_blank(k.as_str()),
            None => true,
        };
        if !blank {
            let key = match &self.api_key {
                Some(k) => k.clone(),
                None => String::new(),
            };
            params.push(("key".to_owned(), key));
        }
        proof {
            assert(params@.map_values(|p: (String, String)| (p.0@, p.1@)) =~= spec_query_params(
                url@,
                self.user_country@,
                self.api_key,
            ));
        }
        params
    }
}

/// Whether an HTTP status code counts as success for the resolution service.
pub fn status_is_success(status: u16) -> (r: bool)
    ensures
        r == (200 <= status < 300),
{
    200 <= status && status < 300
}

/// The failure for a non-success HTTP status: the status text and the raw
/// response body are preserved verbatim for diagnosability.
pub fn api_error(status_text: &str, body: &str) -> (r: FlomError)
    ensures
        r@ == crate::error::FlomErrorView::Api(
            "odesli error: status="@ + status_text@ + " body="@ + body@,
        ),
{
    let mut message = "odesli error: status=".to_owned();
    message.append(status_text);
    message.append(" body=");
    message.append(body);
    FlomError::Api(message)
}

/// The failure for a transport-level fault, carrying the underlying cause.
pub fn network_error(cause: &str) -> (r: FlomError)
    ensures
        r@ == crate::error::FlomErrorView::Network("odesli request failed: "@ + cause@),
{
    let mut message = "odesli request failed: ".to_owned();
    message.append(cause);
    FlomError::Network(message)
}

/// The failure for a success status whose body did not match the expected
/// schema.
pub fn parse_error(cause: &str) -> (r: FlomError)
    ensures
        r@ == crate::error::FlomErrorView::Parse("odesli response parse failed: "@ + cause@),
{
    let mut message = "odesli response parse failed: ".to_owned();
    message.append(cause);
    FlomError::Parse(message)
}

impl OdesliClient {
    /// Everything this client decides about a request for `url`: the URL is
    /// validated first, and only a valid URL yields parameters to send, so a
    /// network call on an unvalidated string cannot be built.
    pub fn request_params(&self, url: &str) -> (r: FlomResult<Vec<(String, String)>>)
        ensures
            r is Ok <==> crate::validate::url_parse_diag(url@) is None,
            match r {
                Ok(params) => params@.map_values(|p: (String, String)| (p.0@, p.1@))
                    == spec_query_params(url@, self.user_country@, self.api_key),
                Err(e) => crate::validate::url_parse_diag(url@) matches Some(diag) && e@
                    == crate::error::FlomErrorView::InvalidInput("invalid url: "@ + diag),
            },
    {
        match crate::validate::validate_url(url) {
            Ok(_) => Ok(self.query_params(url)),
            Err(e) => Err(e),
        }
    }
}

} // verus!
