//! URLs as plain values.
//!
//! Parsing and reference resolution are done by the `url` crate; the
//! library keeps only the components its logic reads, as plain strings,
//! and names the crate's results so that contracts can speak about them.

use vstd::prelude::*;
use crate::text::{is_sanitized_of, sanitize_url_string};

verus! {

/// The components of a parsed URL, at the specification level.
pub struct UrlModel {
    pub full: Seq<char>,
    pub scheme: Seq<char>,
    pub host: Option<Seq<char>>,
    pub path: Seq<char>,
    pub port: Option<u16>,
}

/// What `url::Url::parse` returns for a string: `None` when the string
/// does not parse, otherwise the serialized form and its components.
pub uninterp spec fn url_parse_of(s: Seq<char>) -> Option<UrlModel>;

/// What parsing `base` and resolving `location` against it returns:
/// `None` when either step fails, otherwise the serialized form of the
/// resolved URL and its components.
pub uninterp spec fn url_join_of(base: Seq<char>, location: Seq<char>) -> Option<UrlModel>;

/// A parsed URL, held as its serialized form and the components the
/// daemon's logic reads.  The serialization is complete: the `url` crate
/// parses it back to the same value, so `full` stands for the URL in
/// every later operation.
pub struct UrlParts {
    pub full: String,
    pub scheme: String,
    pub host: Option<String>,
    pub path: String,
    pub port: Option<u16>,
}

impl UrlParts {
    /// The component view of this URL.
    pub open spec fn model(&self) -> UrlModel {
        UrlModel {
            full: self.full@,
            scheme: self.scheme@,
            host: match self.host {
                Some(h) => Some(h@),
                None => None,
            },
            path: self.path@,
            port: self.port,
        }
    }
}

/// Relies on `url::Url::parse` and the component accessors of the parsed
/// value (`to_string`, `scheme`, `host_str`, `path`,
/// `port_or_known_default`): all are pure functions of the input string.
#[verifier::external_body]
pub fn parse_url(s: &str) -> (r: Result<UrlParts, String>)
    ensures
        match r {
            Ok(u) => url_parse_of(s@) == Some(u.model()),
            Err(_) => url_parse_of(s@) is None,
        },
{
    match url::Url::parse(s) {
        Ok(raw) => {
            let full = raw.to_string();
            let scheme = raw.scheme().to_string();
            let host = raw.host_str().map(|h| h.to_string());
            let path = raw.path().to_string();
            let port = raw.port_or_known_default();
            Ok(UrlParts { full, scheme, host, path, port })
        },
        Err(e) => Err(e.to_string()),
    }
}

/// Relies on `url::Url::parse` and `url::Url::join`: the base string is
/// parsed and the reference resolved against it, both deterministic, so
/// the result is a function of the two strings alone.  Callers hand in a
/// serialized URL, which parses back to the value it came from.
#[verifier::external_body]
pub fn join_url(base: &str, location: &str) -> (r: Option<UrlParts>)
    ensures
        match r {
            Some(u) => url_join_of(base@, location@) == Some(u.model()),
            None => url_join_of(base@, location@) is None,
        },
{
    let raw = url::Url::parse(base).ok()?.join(location).ok()?;
    Some(UrlParts {
        full: raw.to_string(),
        scheme: raw.scheme().to_string(),
        host: raw.host_str().map(|h| h.to_string()),
        path: raw.path().to_string(),
        port: raw.port_or_known_default(),
    })
}

/// The serialized URL with query and fragment dropped, for audit records.
pub fn sanitize_url(u: &UrlParts) -> (r: String)
    ensures
        is_sanitized_of(r@, u.full@),
{
    sanitize_url_string(u.full.as_str())
}

} // verus!
