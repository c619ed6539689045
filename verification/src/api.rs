//! The requests the library makes to Jira, and the API version the
//! configuration selects.

use vstd::prelude::*;
use crate::json::Json;
use crate::text::{decimal, decimal_spec, parse_u32, starts_with, str_eq, u32_text};

verus! {

/// A request's outcome as plain values: the answer, or the error's text.
pub open spec fn json_outcome(r: Result<Json, String>) -> Result<crate::json::JsonV, Seq<char>> {
    match r {
        Ok(v) => Ok(v@),
        Err(e) => Err(e@),
    }
}

/// A request's outcome as plain values: the answer's text, or the error's
/// text.
pub open spec fn text_outcome(r: Result<String, String>) -> Result<Seq<char>, Seq<char>> {
    match r {
        Ok(t) => Ok(t@),
        Err(e) => Err(e@),
    }
}

/// The requests to Jira that the services make. What Jira answers is up
/// to the implementation (the HTTP client, or a fake in tests); each
/// implementation may say, by its `answers_...` relations, which outcomes
/// a request can have (any, unless it says more), and a caller's contract
/// names through them the request it made.
pub trait JiraApi {
    /// Whether `outcome` can come of a `GET` on `endpoint` of this version
    /// of the REST API.
    open spec fn answers_get(&self, endpoint: Seq<char>, version: u8, outcome: Result<crate::json::JsonV, Seq<char>>) -> bool {
        true
    }

    /// Whether `outcome` can come of a `POST` of `body` on `endpoint`.
    open spec fn answers_post(
        &self,
        endpoint: Seq<char>,
        body: crate::json::JsonV,
        version: u8,
        outcome: Result<Seq<char>, Seq<char>>,
    ) -> bool {
        true
    }

    /// Whether `outcome` can come of a `PUT` of `body` on `endpoint`.
    open spec fn answers_put(
        &self,
        endpoint: Seq<char>,
        body: crate::json::JsonV,
        version: u8,
        outcome: Result<Seq<char>, Seq<char>>,
    ) -> bool {
        true
    }

    /// Whether `outcome` can come of a `GET` on `endpoint` of the agile API.
    open spec fn answers_agile(&self, endpoint: Seq<char>, outcome: Result<crate::json::JsonV, Seq<char>>) -> bool {
        true
    }

    /// `GET` on the REST API of this version.
    fn get(&self, endpoint: &str, version: u8) -> (r: Result<Json, String>)
        ensures
            self.answers_get(endpoint@, version, json_outcome(r)),
    ;

    /// `POST` of a JSON body on the REST API of this version.
    fn post(&self, endpoint: &str, body: Json, version: u8) -> (r: Result<String, String>)
        ensures
            self.answers_post(endpoint@, body@, version, text_outcome(r)),
    ;

    /// `PUT` of a JSON body on the REST API of this version.
    fn put(&self, endpoint: &str, body: Json, version: u8) -> (r: Result<String, String>)
        ensures
            self.answers_put(endpoint@, body@, version, text_outcome(r)),
    ;

    /// `GET` on the agile API.
    fn get_agile(&self, endpoint: &str) -> (r: Result<Json, String>)
        ensures
            self.answers_agile(endpoint@, json_outcome(r)),
    ;

    /// `GET` on version 2 of the REST API.
    fn get_v2(&self, endpoint: &str) -> (r: Result<Json, String>)
        ensures
            self.answers_get(endpoint@, 2, json_outcome(r)),
    {
        self.get(endpoint, 2)
    }
}

/// The API version of the configuration: its `jira-version` setting when that
/// is a number up to 255, else 3.
pub open spec fn version_of(doc: crate::json::JsonV) -> u8 {
    match u32_text(doc.idx("jira-version"@).str_or(""@)) {
        Some(n) => if n <= 255 {
            n as u8
        } else {
            3
        },
        None => 3,
    }
}

/// Reads the API version from the configuration (see [`version_of`]).
pub fn configured_version(doc: &Json) -> (r: u8)
    ensures
        r == version_of(doc@),
{
    let v = crate::config::get_config(doc, "jira-version");
    match parse_u32(v.as_str()) {
        Some(n) => if n <= 255 {
            n as u8
        } else {
            3
        },
        None => 3,
    }
}

/// The site address of a namespace: as it is when it names its scheme,
/// else over `https`.
pub open spec fn base_url_spec(namespace: Seq<char>) -> Seq<char> {
    if "http://"@.is_prefix_of(namespace) || "https://"@.is_prefix_of(namespace) {
        namespace
    } else {
        "https://"@ + namespace
    }
}

/// Whether `t` starts `s`.
fn has_prefix(s: &str, t: &str) -> (r: bool)
    ensures
        r == t@.is_prefix_of(s@),
{
    let b = starts_with(s, t);
    proof {
        if b {
            assert(s@.subrange(0, t@.len() as int) =~= s@.take(t@.len() as int));
        } else if t@.is_prefix_of(s@) {
            assert(s@.take(t@.len() as int) =~= s@.subrange(0, t@.len() as int));
        }
    }
    b
}

/// The site address of a namespace (see [`base_url_spec`]).
pub fn base_url(namespace: &str) -> (r: String)
    ensures
        r@ == base_url_spec(namespace@),
{
    proof {
        reveal_strlit("http://");
        reveal_strlit("https://");
    }
    if has_prefix(namespace, "http://") || has_prefix(namespace, "https://") {
        namespace.to_owned()
    } else {
        let mut s = String::from_str("https://");
        s.append(namespace);
        s
    }
}

/// The address of an endpoint of version `version` of the REST API.
pub fn api_url(namespace: &str, version: u8, endpoint: &str) -> (r: String)
    ensures
        r@ == base_url_spec(namespace@) + "/rest/api/"@ + decimal_spec(version as nat) + "/"@ + endpoint@,
{
    let mut s = base_url(namespace);
    s.append("/rest/api/");
    let v = decimal(version as u64);
    s.append(v.as_str());
    s.append("/");
    s.append(endpoint);
    s
}

/// The address of an endpoint of the agile API.
pub fn agile_url(namespace: &str, endpoint: &str) -> (r: String)
    ensures
        r@ == base_url_spec(namespace@) + "/rest/agile/1.0/"@ + endpoint@,
{
    let mut s = base_url(namespace);
    s.append("/rest/agile/1.0/");
    s.append(endpoint);
    s
}

/// The `Authorization` header: the token as a bearer token in `Bearer`
/// mode, else as basic credentials (the stored token already holds them
/// encoded).
pub fn auth_header(auth_mode: &str, token: &str) -> (r: String)
    ensures
        auth_mode@ == "Bearer"@ ==> r@ == "Bearer "@ + token@,
        auth_mode@ != "Bearer"@ ==> r@ == "Basic "@ + token@,
{
    proof {
        reveal_strlit("Bearer");
    }
    let mut s = if str_eq(auth_mode, "Bearer") {
        String::from_str("Bearer ")
    } else {
        String::from_str("Basic ")
    };
    s.append(token);
    proof {
        reveal_strlit("Bearer ");
        reveal_strlit("Basic ");
    }
    s
}

} // verus!
