//! Finding the account of the user the credentials belong to.

use vstd::prelude::*;
use crate::api::{JiraApi, configured_version};
use crate::json::{Json, JsonV};

verus! {

/// The search for one issue whose `field` is the current user.
pub fn user_search_endpoint(field: &str) -> (r: String)
    ensures
        r@ == "search?maxResults=1&jql="@ + field@ + "+in+(currentUser())"@,
{
    let mut s = String::from_str("search?maxResults=1&jql=");
    s.append(field);
    s.append("+in+(currentUser())");
    s
}

/// The user key in `field` of the first issue of a search answer.
pub open spec fn user_key_in(response: JsonV, field: Seq<char>) -> Option<Seq<char>> {
    response.idx("issues"@).nth(0).idx("fields"@).idx(field).idx("key"@).str_of()
}

/// Reads the user key in `field` of the first issue of a search answer.
pub fn user_key(response: &Json, field: &str) -> (r: Option<String>)
    ensures
        crate::json::opt_view(r) == user_key_in(response@, field@),
{
    let null = Json::Null;
    response.at("issues", &null).at_index(0, &null).at("fields", &null).at(field, &null).at("key", &null).as_string()
}

/// The user fields tried, in order, to find the current account.
pub open spec fn account_fields() -> Seq<Seq<char>> {
    seq!["assignee"@, "reporter"@, "creator"@]
}

/// The user key a search answer gives for `field`; none for a failed
/// search.
pub open spec fn key_of_outcome(outcome: Result<JsonV, Seq<char>>, field: Seq<char>) -> Option<Seq<char>> {
    match outcome {
        Ok(response) => user_key_in(response, field),
        Err(_) => None,
    }
}

/// Whether `key` is what a search for the issues whose `field` is the
/// current user can give, on the API version of the configuration.
pub open spec fn user_lookup<A: JiraApi>(api: A, field: Seq<char>, doc: JsonV, key: Option<Seq<char>>) -> bool {
    exists|outcome: Result<JsonV, Seq<char>>|
        #[trigger] api.answers_get(
            "search?maxResults=1&jql="@ + field + "+in+(currentUser())"@,
            crate::api::version_of(doc),
            outcome,
        ) && key == key_of_outcome(outcome, field)
}

/// Whether `key` is what looking up the current user can give: the
/// assignee search's key, else the reporter search's, else the creator
/// search's.
pub open spec fn current_account_lookup<A: JiraApi>(api: A, doc: JsonV, key: Option<Seq<char>>) -> bool {
    exists|a: Option<Seq<char>>|
        #[trigger] user_lookup(api, "assignee"@, doc, a) && match a {
            Some(_) => key == a,
            None => exists|b: Option<Seq<char>>|
                #[trigger] user_lookup(api, "reporter"@, doc, b) && match b {
                    Some(_) => key == b,
                    None => user_lookup(api, "creator"@, doc, key),
                },
        }
}

/// Finds the current user with a [`JiraApi`].
pub struct DefaultCurrentUserService<A> {
    pub jira_api: A,
}

impl<A: JiraApi> DefaultCurrentUserService<A> {
    pub fn new(jira_api: A) -> (r: Self)
        ensures
            r.jira_api == jira_api,
    {
        DefaultCurrentUserService { jira_api }
    }

    /// The key of the current user, read from an issue where `field` is
    /// that user; `None` when the request fails or no such issue has one.
    pub fn get_user_id_by(&self, field: &str, doc: &Json) -> (r: Option<String>)
        ensures
            r matches Some(k) ==> exists|response: JsonV| #[trigger] user_key_in(response, field@) == Some(k@),
            user_lookup(self.jira_api, field@, doc@, crate::json::opt_view(r)),
    {
        let endpoint = user_search_endpoint(field);
        let version = configured_version(doc);
        let answer = self.jira_api.get(endpoint.as_str(), version);
        assert(self.jira_api.answers_get(endpoint@, version, crate::api::json_outcome(answer)));
        match answer {
            Ok(response) => {
                let k = user_key(&response, field);
                assert(crate::json::opt_view(k) == user_key_in(response@, field@));
                k
            },
            Err(_) => None,
        }
    }

    /// The key of the current user, looked up through the issues it is the
    /// assignee, else the reporter, else the creator of.
    pub fn fetch_current_account_id(&self, doc: &Json) -> (r: Option<String>)
        ensures
            r matches Some(k) ==> exists|response: JsonV, i: int|
                0 <= i < 3 && #[trigger] user_key_in(response, account_fields()[i]) == Some(k@),
            current_account_lookup(self.jira_api, doc@, crate::json::opt_view(r)),
    {
        proof {
            reveal_strlit("assignee");
            reveal_strlit("reporter");
            reveal_strlit("creator");
        }
        let a = self.get_user_id_by("assignee", doc);
        let ghost av = crate::json::opt_view(a);
        assert(user_lookup(self.jira_api, "assignee"@, doc@, av));
        match a {
            Some(k) => {
                assert(account_fields()[0] == "assignee"@);
                return Some(k);
            },
            None => {},
        }
        let b = self.get_user_id_by("reporter", doc);
        let ghost bv = crate::json::opt_view(b);
        assert(user_lookup(self.jira_api, "reporter"@, doc@, bv));
        match b {
            Some(k) => {
                assert(account_fields()[1] == "reporter"@);
                return Some(k);
            },
            None => {},
        }
        let r = self.get_user_id_by("creator", doc);
        assert(account_fields()[2] == "creator"@);
        r
    }
}

/// The warning printed when the account id is unknown and cannot be
/// found.
pub open spec fn account_warning() -> Seq<char> {
    "Warning: account_id is not set and could not be fetched automatically.\nYou can set it manually with: jira config account_id <your-id>"@
}

/// Makes sure the configuration has an account id: when its `account_id`
/// is empty, the current user's key is looked up and stored. Nothing when
/// one was set; else the line announcing the id found (`Ok`), or the
/// warning that none was found (`Err`, the configuration unchanged).
pub fn ensure_account_id<A: JiraApi>(service: &DefaultCurrentUserService<A>, doc: &mut Json) -> (r: Option<Result<String, String>>)
    ensures
        old(doc)@.idx("account_id"@).str_or(""@).len() > 0 ==> r is None && final(doc)@ == old(doc)@,
        old(doc)@.idx("account_id"@).str_or(""@).len() == 0 ==> r is Some,
        r matches Some(Ok(m)) ==> exists|id: Seq<char>|
            m@ == "Fetched account_id automatically: "@ + id && final(doc)@ == old(doc)@.with_member("account_id"@, JsonV::Str(id)),
        r matches Some(Err(m)) ==> m@ == account_warning() && final(doc)@ == old(doc)@,
        r is None ==> final(doc)@ == old(doc)@,
        old(doc)@.idx("account_id"@).str_or(""@).len() == 0 ==> exists|key: Option<Seq<char>>|
            #[trigger] current_account_lookup(service.jira_api, old(doc)@, key) && match key {
                Some(id) => r matches Some(Ok(m)) && m@ == "Fetched account_id automatically: "@ + id && final(doc)@
                    == old(doc)@.with_member("account_id"@, JsonV::Str(id)),
                None => r matches Some(Err(m)) && m@ == account_warning() && final(doc)@ == old(doc)@,
            },
{
    let current = crate::config::get_config(doc, "account_id");
    proof {
        reveal_strlit("");
    }
    if current.unicode_len() > 0 {
        return None;
    }
    let found = service.fetch_current_account_id(doc);
    assert(current_account_lookup(service.jira_api, doc@, crate::json::opt_view(found)));
    match found {
        Some(id) => {
            crate::config::update_config(doc, "account_id", id.as_str());
            let mut m = String::from_str("Fetched account_id automatically: ");
            m.append(id.as_str());
            proof {
                reveal_strlit("Fetched account_id automatically: ");
            }
            Some(Ok(m))
        },
        None => Some(Err(String::from_str(
            "Warning: account_id is not set and could not be fetched automatically.\nYou can set it manually with: jira config account_id <your-id>",
        ))),
    }
}

} // verus!
