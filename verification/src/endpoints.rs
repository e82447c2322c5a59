//! The request shapes the client issues: each endpoint yields a
//! relative URI, with an ordered list of query key/value pairs where
//! the request takes parameters (keys may repeat, e.g. multi-valued
//! filters).

use vstd::prelude::*;
use vstd::string::StringExecFns;

verus! {

/// What `application/x-www-form-urlencoded` encoding makes of an
/// ordered list of key/value pairs. The encoding is a fixed function
/// of the pairs alone; its full definition is not restated here.
pub uninterp spec fn url_encoded(params: Seq<(Seq<char>, Seq<char>)>) -> Seq<char>;

/// The view of a list of query parameters.
pub open spec fn params_view(params: Seq<(String, String)>) -> Seq<(Seq<char>, Seq<char>)> {
    params.map_values(|p: (String, String)| (p.0@, p.1@))
}

/// Relies on serde_urlencoded::to_string: encodes an ordered list of
/// string pairs as a query string, a fixed function of the pairs.
/// Pairs of strings always serialize: the serializer's only error
/// paths are unsupported value types and non-UTF-8 byte values.
#[verifier::external_body]
fn encode_query(params: &Vec<(String, String)>) -> (r: String)
    ensures
        r@ == url_encoded(params_view(params@)),
{
    serde_urlencoded::to_string(params).expect("string pairs always serialize")
}

/// A request shape: a relative URI, valid once resolved against the
/// configured base URL.
#[derive(Debug, Clone)]
pub enum Endpoint {
    /// A chapter's info, by the chapter's UUID.
    GetChapter(String),
    /// A chapter's content-delivery (CDN) metadata, by the chapter's
    /// UUID.
    GetChapterCdn(String),
    /// A work's info, by the work's UUID.
    GetManga(String),
    /// One page of a work's chapter feed, by the work's UUID, with
    /// query parameters (pagination, filters).
    GetMangaChapters(String, Vec<(String, String)>),
    /// A catalog search with query parameters.
    SearchManga(Vec<(String, String)>),
}

impl Endpoint {
    /// The relative URI this endpoint denotes.
    pub open spec fn spec_uri(self) -> Seq<char> {
        match self {
            Endpoint::GetChapter(id) => "/chapter/"@ + id@,
            Endpoint::GetChapterCdn(id) => "/at-home/server/"@ + id@,
            Endpoint::GetManga(id) => "/manga/"@ + id@,
            Endpoint::GetMangaChapters(id, params) => "/manga/"@ + id@ + "/feed?"@ + url_encoded(
                params_view(params@),
            ),
            Endpoint::SearchManga(params) => "/manga?"@ + url_encoded(params_view(params@)),
        }
    }

    /// Renders the endpoint as its relative URI.
    pub fn as_string(&self) -> (r: String)
        ensures
            r@ == self.spec_uri(),
    {
        match self {
            Endpoint::GetChapter(id) => {
                let mut r = "/chapter/".to_owned();
                r.append(id.as_str());
                r
            },
            Endpoint::GetChapterCdn(id) => {
                let mut r = "/at-home/server/".to_owned();
                r.append(id.as_str());
                r
            },
            Endpoint::GetManga(id) => {
                let mut r = "/manga/".to_owned();
                r.append(id.as_str());
                r
            },
            Endpoint::GetMangaChapters(id, params) => {
                let mut r = "/manga/".to_owned();
                r.append(id.as_str());
                r.append("/feed?");
                let q = encode_query(params);
                r.append(q.as_str());
                r
            },
            Endpoint::SearchManga(params) => {
                let mut r = "/manga?".to_owned();
                let q = encode_query(params);
                r.append(q.as_str());
                r
            },
        }
    }
}

} // verus!
