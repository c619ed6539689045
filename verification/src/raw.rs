//! The raw JSON of an issue.

use vstd::prelude::*;
use crate::api::JiraApi;
use crate::json::{Json, dump, json_dump_text, json_pretty_text, stringify_pretty};

verus! {

/// The endpoint of an issue with its changelog and rendered fields.
pub fn raw_issue_endpoint(key: &str) -> (r: String)
    ensures
        r@ == "issue/"@ + key@ + "?expand=changelog,renderedFields"@,
{
    let mut s = String::from_str("issue/");
    s.append(key);
    s.append("?expand=changelog,renderedFields");
    s
}

/// How an issue's JSON is printed: indented by two spaces, or compact.
pub fn raw_text(value: &Json, pretty: bool) -> (r: String)
    ensures
        pretty ==> r@ == json_pretty_text(value@, 2),
        !pretty ==> r@ == json_dump_text(value@),
{
    if pretty {
        stringify_pretty(value, 2)
    } else {
        dump(value)
    }
}

/// Reads raw issues with a [`JiraApi`].
pub struct DefaultRawService<A> {
    pub jira_api: A,
}

impl<A: JiraApi> DefaultRawService<A> {
    pub fn new(jira_api: A) -> (r: Self)
        ensures
            r.jira_api == jira_api,
    {
        DefaultRawService { jira_api }
    }

    /// The JSON of issue `key`: what a `GET` on its raw endpoint of version
    /// 2 of the API gave.
    pub fn fetch_raw_issue(&self, key: &str) -> (r: Result<Json, String>)
        ensures
            self.jira_api.answers_get("issue/"@ + key@ + "?expand=changelog,renderedFields"@, 2, crate::api::json_outcome(r)),
    {
        let endpoint = raw_issue_endpoint(key);
        self.jira_api.get_v2(endpoint.as_str())
    }

    /// The text printed for `ticket`, or the message of a failed request
    /// (after which the command exits with status 1).
    pub fn print_raw(&self, ticket: &str, pretty: bool) -> (r: Result<String, String>)
        ensures
            r matches Ok(t) ==> exists|v: crate::json::JsonV|
                #![trigger json_pretty_text(v, 2)]
                #![trigger json_dump_text(v)]
                t@ == (if pretty {
                    json_pretty_text(v, 2)
                } else {
                    json_dump_text(v)
                }),
            r matches Err(m) ==> exists|e: Seq<char>| m@ == "Error fetching "@ + ticket@ + ": "@ + e,
            exists|outcome: Result<crate::json::JsonV, Seq<char>>|
                #[trigger] self.jira_api.answers_get("issue/"@ + ticket@ + "?expand=changelog,renderedFields"@, 2, outcome)
                    && match outcome {
                    Ok(v) => r matches Ok(t) && t@ == (if pretty {
                        json_pretty_text(v, 2)
                    } else {
                        json_dump_text(v)
                    }),
                    Err(e) => r matches Err(m) && m@ == "Error fetching "@ + ticket@ + ": "@ + e,
                },
    {
        let answer = self.fetch_raw_issue(ticket);
        let ghost outcome = crate::api::json_outcome(answer);
        assert(self.jira_api.answers_get("issue/"@ + ticket@ + "?expand=changelog,renderedFields"@, 2, outcome));
        match answer {
            Ok(value) => {
                let t = raw_text(&value, pretty);
                assert(t@ == (if pretty {
                    json_pretty_text(value@, 2)
                } else {
                    json_dump_text(value@)
                }));
                Ok(t)
            },
            Err(e) => {
                let mut m = String::from_str("Error fetching ");
                m.append(ticket);
                m.append(": ");
                let ghost before = m@;
                m.append(e.as_str());
                proof {
                    reveal_strlit("Error fetching ");
                    reveal_strlit(": ");
                    assert(m@ == "Error fetching "@ + ticket@ + ": "@ + e@);
                }
                Err(m)
            },
        }
    }
}

} // verus!
