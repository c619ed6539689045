//! Assigning an issue to an account.

use vstd::prelude::*;
use crate::api::{JiraApi, configured_version};
use crate::json::{Json, JsonV};

verus! {

/// The endpoint of an issue's assignee.
pub fn assignee_endpoint(ticket: &str) -> (r: String)
    ensures
        r@ == "issue/"@ + ticket@ + "/assignee"@,
{
    let mut s = String::from_str("issue/");
    s.append(ticket);
    s.append("/assignee");
    s
}

/// The body that names the new assignee.
pub open spec fn assignee_body_spec(account_id: Seq<char>) -> JsonV {
    JsonV::Object(seq![("name"@, JsonV::Str(account_id))])
}

/// The body that names the new assignee.
pub fn assignee_body(account_id: &str) -> (r: Json)
    ensures
        r@ == assignee_body_spec(account_id@),
{
    let mut members: Vec<(String, Json)> = Vec::new();
    members.push((String::from_str("name"), Json::Str(account_id.to_owned())));
    proof {
        crate::json::lemma_view_members(members@);
        reveal_strlit("name");
        assert(crate::json::view_members(members@) =~= seq![("name"@, JsonV::Str(account_id@))]);
    }
    Json::Object(members)
}

/// Assigns issues with a [`JiraApi`].
pub struct DefaultAssignService<A> {
    pub jira_api: A,
}

impl<A: JiraApi> DefaultAssignService<A> {
    pub fn new(jira_api: A) -> (r: Self)
        ensures
            r.jira_api == jira_api,
    {
        DefaultAssignService { jira_api }
    }

    /// Asks Jira to assign `ticket_id` to `account_id`, on the API version
    /// of the configuration: a `PUT` of the assignee body on the issue's
    /// assignee endpoint, whose error is handed back.
    pub fn assign_ticket_to_account(&self, ticket_id: &str, account_id: &str, doc: &Json) -> (r: Result<(), String>)
        ensures
            exists|outcome: Result<Seq<char>, Seq<char>>|
                #[trigger] self.jira_api.answers_put(
                    "issue/"@ + ticket_id@ + "/assignee"@,
                    assignee_body_spec(account_id@),
                    crate::api::version_of(doc@),
                    outcome,
                ) && match outcome {
                    Ok(_) => r is Ok,
                    Err(e) => r matches Err(m) && m@ == e,
                },
    {
        let endpoint = assignee_endpoint(ticket_id);
        let body = assignee_body(account_id);
        let version = configured_version(doc);
        let answer = self.jira_api.put(endpoint.as_str(), body, version);
        assert(self.jira_api.answers_put(endpoint@, assignee_body_spec(account_id@), version, crate::api::text_outcome(answer)));
        match answer {
            Ok(_) => Ok(()),
            Err(e) => Err(e),
        }
    }

    /// Assigns `ticket` to `account_id`: the message for success, or the
    /// one for a failure (after which the command exits with status 1).
    pub fn assign_task(&self, ticket: &str, account_id: &str, doc: &Json) -> (r: Result<String, String>)
        ensures
            r matches Ok(m) ==> m@ == "Successfully Assigned"@,
            r matches Err(m) ==> m@ == "Error occurred While assigning the ticket."@,
            exists|outcome: Result<Seq<char>, Seq<char>>|
                #[trigger] self.jira_api.answers_put(
                    "issue/"@ + ticket@ + "/assignee"@,
                    assignee_body_spec(account_id@),
                    crate::api::version_of(doc@),
                    outcome,
                ) && (outcome is Ok <==> r is Ok),
    {
        match self.assign_ticket_to_account(ticket, account_id, doc) {
            Ok(()) => Ok(String::from_str("Successfully Assigned")),
            Err(_) => Err(String::from_str("Error occurred While assigning the ticket.")),
        }
    }
}

} // verus!
