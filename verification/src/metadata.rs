//! Looking up accounts and issue types by name.

use vstd::prelude::*;
use crate::api::{JiraApi, configured_version};
use crate::json::{Json, JsonV, display, json_display_text, lemma_view_items, view_items};
use crate::text::{str_eq, to_lowercase, unicode_lowercase};

verus! {

/// The user search for `query`.
pub fn account_search_endpoint(query: &str) -> (r: String)
    ensures
        r@ == "user/search?query="@ + query@,
{
    let mut s = String::from_str("user/search?query=");
    s.append(query);
    s
}

/// The issue-creation metadata of a project.
pub fn createmeta_endpoint(project: &str) -> (r: String)
    ensures
        r@ == "issue/createmeta?projectKeys="@ + project@,
{
    let mut s = String::from_str("issue/createmeta?projectKeys=");
    s.append(project);
    s
}

/// The message for a user search that found nobody.
pub open spec fn no_user_text() -> Seq<char> {
    "Cannot search for provided assignee user. "@
}

/// The account a user search found: the line announcing it and its id;
/// `None` when the answer has no first user or its id is not a string.
pub open spec fn account_in(response: JsonV) -> Option<(Seq<char>, Seq<char>)> {
    let a = response.nth(0);
    if a is Null || !(a.idx("accountId"@) is Str) {
        None
    } else {
        Some(("Selecting user "@ + json_display_text(a.idx("displayName"@)), a.idx("accountId"@).str_or(""@)))
    }
}

/// Reads the account a user search found (see [`account_in`]).
pub fn account_of(response: &Json) -> (r: Option<(String, String)>)
    ensures
        match r {
            Some((line, id)) => account_in(response@) == Some((line@, id@)),
            None => account_in(response@) is None,
        },
{
    let null = Json::Null;
    let a = response.at_index(0, &null);
    if a.is_null() {
        return None;
    }
    let id = match a.at("accountId", &null).as_string() {
        Some(id) => id,
        None => {
            return None;
        },
    };
    let mut line = String::from_str("Selecting user ");
    let name = display(a.at("displayName", &null));
    line.append(name.as_str());
    proof {
        reveal_strlit("Selecting user ");
        reveal_strlit("");
    }
    Some((line, id))
}

/// The id of the first issue type named `lname` (compared in lower case).
pub open spec fn type_named(ts: Seq<JsonV>, lname: Seq<char>) -> Option<Seq<char>>
    decreases ts.len(),
{
    if ts.len() == 0 {
        None
    } else if unicode_lowercase(ts[0].idx("name"@).str_or(""@)) == lname {
        Some(ts[0].idx("id"@).str_or(""@))
    } else {
        type_named(ts.drop_first(), lname)
    }
}

/// The id of the first issue type named `lname` over the projects, in order.
pub open spec fn project_type_named(ps: Seq<JsonV>, lname: Seq<char>) -> Option<Seq<char>>
    decreases ps.len(),
{
    if ps.len() == 0 {
        None
    } else {
        match type_named(ps[0].idx("issuetypes"@).items(), lname) {
            Some(x) => Some(x),
            None => project_type_named(ps.drop_first(), lname),
        }
    }
}

/// The id of the issue type `name` in an issue-creation metadata answer.
pub open spec fn issuetype_id_in(response: JsonV, name: Seq<char>) -> Option<Seq<char>> {
    project_type_named(response.idx("projects"@).items(), unicode_lowercase(name))
}

/// Finds the issue type `name` in an issue-creation metadata answer.
pub fn issuetype_id_of(response: &Json, name: &str) -> (r: Option<String>)
    ensures
        crate::json::opt_view(r) == issuetype_id_in(response@, name@),
{
    let null = Json::Null;
    let lname = to_lowercase(name);
    let ps = response.at("projects", &null).items_of();
    let ghost pv = view_items(ps@);
    proof {
        lemma_view_items(ps@);
        assert(pv.skip(0) =~= pv);
    }
    let mut i: usize = 0;
    while i < ps.len()
        invariant
            null@ is Null,
            i <= ps@.len(),
            pv == view_items(ps@),
            pv.len() == ps@.len(),
            forall|k: int| 0 <= k < ps@.len() ==> #[trigger] pv[k] == ps@[k]@,
            lname@ == unicode_lowercase(name@),
            pv == response@.idx("projects"@).items(),
            issuetype_id_in(response@, name@) == project_type_named(pv.skip(i as int), lname@),
        decreases ps@.len() - i,
    {
        let ts = ps[i].at("issuetypes", &null).items_of();
        let ghost tv = view_items(ts@);
        proof {
            lemma_view_items(ts@);
            assert(tv.skip(0) =~= tv);
            assert(pv.skip(i as int)[0] == pv[i as int]);
            assert(pv.skip(i as int).drop_first() =~= pv.skip(i + 1));
            assert(tv == pv[i as int].idx("issuetypes"@).items());
        }
        let mut j: usize = 0;
        while j < ts.len()
            invariant
                null@ is Null,
                j <= ts@.len(),
                tv == view_items(ts@),
                tv.len() == ts@.len(),
                forall|k: int| 0 <= k < ts@.len() ==> #[trigger] tv[k] == ts@[k]@,
                type_named(tv, lname@) == type_named(tv.skip(j as int), lname@),
                i < pv.len(),
                pv.skip(i as int)[0] == pv[i as int],
                tv == pv[i as int].idx("issuetypes"@).items(),
                lname@ == unicode_lowercase(name@),
                issuetype_id_in(response@, name@) == project_type_named(pv.skip(i as int), lname@),
            decreases ts@.len() - j,
        {
            proof {
                assert(tv.skip(j as int)[0] == tv[j as int]);
                assert(tv.skip(j as int).drop_first() =~= tv.skip(j + 1));
                reveal_strlit("");
            }
            let tname = match ts[j].at("name", &null).as_string() {
                Some(t) => t,
                None => String::new(),
            };
            assert(tname@ == tv[j as int].idx("name"@).str_or(""@));
            let lower = to_lowercase(tname.as_str());
            if str_eq(lower.as_str(), lname.as_str()) {
                let id = match ts[j].at("id", &null).as_string() {
                    Some(t) => t,
                    None => String::new(),
                };
                assert(id@ == tv[j as int].idx("id"@).str_or(""@));
                return Some(id);
            }
            j = j + 1;
        }
        proof {
            assert(tv.skip(ts@.len() as int) =~= Seq::<JsonV>::empty());
        }
        i = i + 1;
    }
    proof {
        assert(pv.skip(ps@.len() as int) =~= Seq::<JsonV>::empty());
    }
    None
}

/// An account search's result as plain values: the line announcing the
/// user found and its id, or the message printed.
pub open spec fn account_result(r: Result<(String, String), String>) -> Result<(Seq<char>, Seq<char>), Seq<char>> {
    match r {
        Ok((l, i)) => Ok((l@, i@)),
        Err(m) => Err(m@),
    }
}

/// Whether `result` is what searching the account for `query` can give
/// on the API version of the configuration `doc`: the user of the answer
/// with its announcing line; the message when the answer has none, or with
/// the request's error appended when the request fails.
pub open spec fn account_lookup<A: JiraApi>(
    api: A,
    query: Seq<char>,
    doc: JsonV,
    result: Result<(Seq<char>, Seq<char>), Seq<char>>,
) -> bool {
    exists|outcome: Result<JsonV, Seq<char>>|
        #[trigger] api.answers_get("user/search?query="@ + query, crate::api::version_of(doc), outcome)
            && result == match outcome {
            Ok(response) => match account_in(response) {
                Some(found) => Ok(found),
                None => Err(no_user_text()),
            },
            Err(e) => Err(no_user_text() + e),
        }
}

/// Looks up accounts and issue types with a [`JiraApi`].
pub struct DefaultMetadataService<A> {
    pub jira_api: A,
}

impl<A: JiraApi> DefaultMetadataService<A> {
    pub fn new(jira_api: A) -> (r: Self)
        ensures
            r.jira_api == jira_api,
    {
        DefaultMetadataService { jira_api }
    }

    /// Searches the account for `query`: the line announcing the user found
    /// and its id, or the message printed when there is none (the id is
    /// then empty).
    pub fn get_account_id(&self, query: &str, doc: &Json) -> (r: Result<(String, String), String>)
        ensures
            r matches Ok((line, id)) ==> exists|response: JsonV| #[trigger] account_in(response) == Some((line@, id@)),
            r matches Err(m) ==> no_user_text().is_prefix_of(m@),
            exists|outcome: Result<JsonV, Seq<char>>|
                #[trigger] self.jira_api.answers_get("user/search?query="@ + query@, crate::api::version_of(doc@), outcome)
                    && match outcome {
                    Ok(response) => match account_in(response) {
                        Some((line, id)) => r matches Ok((l, i)) && l@ == line && i@ == id,
                        None => r matches Err(m) && m@ == no_user_text(),
                    },
                    Err(e) => r matches Err(m) && m@ == no_user_text() + e,
                },
            account_lookup(self.jira_api, query@, doc@, account_result(r)),
    {
        let endpoint = account_search_endpoint(query);
        let version = configured_version(doc);
        proof {
            reveal_strlit("Cannot search for provided assignee user. ");
        }
        let answer = self.jira_api.get(endpoint.as_str(), version);
        assert(self.jira_api.answers_get(endpoint@, version, crate::api::json_outcome(answer)));
        match answer {
            Ok(response) => match account_of(&response) {
                Some(found) => {
                    assert(account_in(response@) == Some((found.0@, found.1@)));
                    Ok(found)
                },
                None => Err(String::from_str("Cannot search for provided assignee user. ")),
            },
            Err(e) => {
                let mut m = String::from_str("Cannot search for provided assignee user. ");
                m.append(e.as_str());
                assert(m@.subrange(0, no_user_text().len() as int) =~= no_user_text());
                Err(m)
            },
        }
    }

    /// The id of issue type `entry` in `project`; nothing without a name or
    /// when the project has no such type, and the message of a failed
    /// request.
    pub fn get_issuetype_id(&self, project: &str, entry: Option<&str>, doc: &Json) -> (r: Result<Option<String>, String>)
        ensures
            entry is None ==> r == Ok::<Option<String>, String>(None),
            r matches Ok(Some(id)) ==> exists|response: JsonV|
                #[trigger] issuetype_id_in(response, entry->0@) == Some(id@),
            r matches Err(m) ==> "Error while verifying issue type: "@.is_prefix_of(m@),
            entry matches Some(n) ==> exists|outcome: Result<JsonV, Seq<char>>|
                #[trigger] self.jira_api.answers_get(
                    "issue/createmeta?projectKeys="@ + project@,
                    crate::api::version_of(doc@),
                    outcome,
                ) && match outcome {
                    Ok(response) => r matches Ok(found) && crate::json::opt_view(found) == issuetype_id_in(response, n@),
                    Err(e) => r matches Err(m) && m@ == "Error while verifying issue type: "@ + e,
                },
    {
        let name = match entry {
            Some(n) => n,
            None => {
                return Ok(None);
            },
        };
        let endpoint = createmeta_endpoint(project);
        let version = configured_version(doc);
        let answer = self.jira_api.get(endpoint.as_str(), version);
        assert(self.jira_api.answers_get(endpoint@, version, crate::api::json_outcome(answer)));
        match answer {
            Ok(response) => {
                let found = issuetype_id_of(&response, name);
                assert(found matches Some(id) ==> issuetype_id_in(response@, name@) == Some(id@));
                Ok(found)
            },
            Err(e) => {
                let mut m = String::from_str("Error while verifying issue type: ");
                m.append(e.as_str());
                proof {
                    reveal_strlit("Error while verifying issue type: ");
                    assert(m@.subrange(0, "Error while verifying issue type: "@.len() as int) =~= "Error while verifying issue type: "@);
                }
                Err(m)
            },
        }
    }
}

} // verus!
