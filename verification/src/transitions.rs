//! Moving an issue through its workflow: the transitions Jira offers for
//! an issue, the table of transition ids kept per project in the
//! configuration, and the request that moves the issue.

use vstd::prelude::*;
use crate::api::{JiraApi, configured_version, text_outcome, version_of};
use crate::config::{alias_or, alias_readable, get_alias_or, get_transitions, set_transitions, transition_exists, with_transitions};
use crate::json::{Json, JsonNumber, JsonV, lemma_view_items};
use crate::text::{parse_u32, split_char, split_from, split_spec, strs, to_lowercase, u32_text, unicode_lowercase};

verus! {

/// The project of an issue key: the text before its first `-`.
pub open spec fn project_code_spec(ticket: Seq<char>) -> Seq<char> {
    split_spec(ticket, '-')[0]
}

proof fn lemma_split_nonempty(s: Seq<char>, c: char, cur: Seq<char>)
    ensures
        split_from(s, c, cur).len() >= 1,
    decreases s.len(),
{
    if s.len() > 0 {
        if s[0] == c {
            lemma_split_nonempty(s.drop_first(), c, Seq::empty());
        } else {
            lemma_split_nonempty(s.drop_first(), c, cur.push(s[0]));
        }
    }
}

/// The project of an issue key (see [`project_code_spec`]).
pub fn project_code(ticket: &str) -> (r: String)
    ensures
        r@ == project_code_spec(ticket@),
{
    let pieces = split_char(ticket, '-');
    proof {
        lemma_split_nonempty(ticket@, '-', Seq::empty());
        assert(pieces@.map_values(|x: String| x@)[0] == pieces@[0]@);
    }
    pieces[0].clone()
}

/// What `str::parse::<u16>` accepts: an optional `+`, then decimal digits
/// whose value fits in a `u16`.
pub open spec fn u16_text(s: Seq<char>) -> Option<u16> {
    match u32_text(s) {
        Some(n) => if n <= 65535 {
            Some(n as u16)
        } else {
            None
        },
        None => None,
    }
}

/// Whether a transition of Jira's answer can be stored: its name is a
/// string and its id a string holding a `u16`.
pub open spec fn transition_ok(t: JsonV) -> bool {
    &&& t.idx("name"@) is Str
    &&& t.idx("id"@) is Str
    &&& u16_text(t.idx("id"@).str_or(""@)) is Some
}

/// Whether every transition of a list can be stored.
pub open spec fn transitions_ok(items: Seq<JsonV>) -> bool {
    forall|i: int| 0 <= i < items.len() ==> transition_ok(#[trigger] items[i])
}

/// A transition id as the JSON number stored for it.
pub open spec fn id_number(id: u16) -> JsonV {
    JsonV::Number(JsonNumber { positive: true, mantissa: id as u64, exponent: 0 })
}

/// The table stored for a list of transitions: each lowercased name mapped
/// to its id, a later transition of the same name replacing an earlier.
pub open spec fn transition_table_spec(items: Seq<JsonV>) -> JsonV
    decreases items.len(),
{
    if items.len() == 0 {
        JsonV::Object(Seq::empty())
    } else {
        let t = items.last();
        transition_table_spec(items.drop_last()).with_member(
            unicode_lowercase(t.idx("name"@).str_or(""@)),
            id_number(u16_text(t.idx("id"@).str_or(""@)).unwrap()),
        )
    }
}

/// Reads a transition id, as `str::parse::<u16>` does.
pub fn parse_u16(s: &str) -> (r: Option<u16>)
    ensures
        r == u16_text(s@),
{
    match parse_u32(s) {
        Some(n) => if n <= 65535 {
            Some(n as u16)
        } else {
            None
        },
        None => None,
    }
}

/// Checks [`transitions_ok`] on the transitions of an answer.
pub fn check_transitions(items: &[Json]) -> (r: bool)
    ensures
        r == transitions_ok(crate::json::view_items(items@)),
{
    proof {
        lemma_view_items(items@);
    }
    let null = Json::Null;
    let mut i: usize = 0;
    while i < items.len()
        invariant
            null@ is Null,
            i <= items@.len(),
            crate::json::view_items(items@).len() == items@.len(),
            forall|j: int| 0 <= j < items@.len() ==> #[trigger] crate::json::view_items(items@)[j] == items@[j]@,
            forall|j: int| 0 <= j < i ==> transition_ok(#[trigger] crate::json::view_items(items@)[j]),
        decreases items@.len() - i,
    {
        let name = items[i].at("name", &null);
        let id = items[i].at("id", &null);
        if !name.is_string() {
            assert(!transition_ok(crate::json::view_items(items@)[i as int]));
            return false;
        }
        match id.as_string() {
            Some(t) => {
                if parse_u16(t.as_str()).is_none() {
                    assert(!transition_ok(crate::json::view_items(items@)[i as int]));
                    return false;
                }
            },
            None => {
                assert(!transition_ok(crate::json::view_items(items@)[i as int]));
                return false;
            },
        }
        i = i + 1;
    }
    true
}

/// The table of transition ids for a list of transitions (see
/// [`transition_table_spec`]).
pub fn transition_table(items: &[Json]) -> (r: Json)
    requires
        transitions_ok(crate::json::view_items(items@)),
    ensures
        r@ == transition_table_spec(crate::json::view_items(items@)),
{
    proof {
        lemma_view_items(items@);
    }
    let ghost vs = crate::json::view_items(items@);
    let null = Json::Null;
    let mut table = Json::Object(Vec::new());
    let mut i: usize = 0;
    proof {
        assert(table@ == JsonV::Object(Seq::empty())) by {
            assert(crate::json::view_members(Seq::<(String, Json)>::empty()) =~= Seq::empty());
        }
        assert(vs.subrange(0, 0) =~= Seq::<JsonV>::empty());
    }
    while i < items.len()
        invariant
            null@ is Null,
            i <= items@.len(),
            vs == crate::json::view_items(items@),
            vs.len() == items@.len(),
            forall|j: int| 0 <= j < items@.len() ==> #[trigger] vs[j] == items@[j]@,
            transitions_ok(vs),
            table@ == transition_table_spec(vs.subrange(0, i as int)),
        decreases items@.len() - i,
    {
        assert(transition_ok(vs[i as int]));
        let name = match items[i].at("name", &null).as_string() {
            Some(n) => n,
            None => String::new(),
        };
        let id_text = match items[i].at("id", &null).as_string() {
            Some(t) => t,
            None => String::new(),
        };
        let id = match parse_u16(id_text.as_str()) {
            Some(n) => n,
            None => 0,
        };
        let key = to_lowercase(name.as_str());
        table.set(key.as_str(), Json::Number(JsonNumber { positive: true, mantissa: id as u64, exponent: 0 }));
        proof {
            let next = vs.subrange(0, i + 1);
            assert(next.drop_last() =~= vs.subrange(0, i as int));
            assert(next.last() == vs[i as int]);
        }
        i = i + 1;
    }
    proof {
        assert(vs.subrange(0, vs.len() as int) =~= vs);
    }
    table
}

/// The endpoint of the transitions of an issue.
pub fn transitions_endpoint(ticket: &str) -> (r: String)
    ensures
        r@ == "issue/"@ + ticket@ + "/transitions"@,
{
    let mut s = String::from_str("issue/");
    s.append(ticket);
    s.append("/transitions");
    s
}

/// The body that moves an issue along the transition `id`.
pub open spec fn transition_body_spec(id: u16) -> JsonV {
    JsonV::Object(seq![("transition"@, JsonV::Object(seq![("id"@, id_number(id))]))])
}

/// The body that moves an issue along the transition `id`.
pub fn transition_body(id: u16) -> (r: Json)
    ensures
        r@ == transition_body_spec(id),
{
    let mut inner: Vec<(String, Json)> = Vec::new();
    inner.push((String::from_str("id"), Json::Number(JsonNumber { positive: true, mantissa: id as u64, exponent: 0 })));
    let mut outer: Vec<(String, Json)> = Vec::new();
    outer.push((String::from_str("transition"), Json::Object(inner)));
    let r = Json::Object(outer);
    proof {
        crate::json::lemma_view_members(inner@);
        reveal_strlit("id");
        reveal_strlit("transition");
        assert(crate::json::view_members(inner@) =~= seq![("id"@, id_number(id))]);
        crate::json::lemma_view_members(outer@);
        assert(crate::json::view_members(outer@) =~= seq![("transition"@, JsonV::Object(seq![("id"@, id_number(id))]))]);
    }
    r
}

/// The configuration after the transitions of `ticket`'s project were
/// stored from a list Jira gave.
pub open spec fn stored_transitions(doc: JsonV, ticket: Seq<char>, items: Seq<JsonV>) -> JsonV {
    with_transitions(doc, project_code_spec(ticket), transition_table_spec(items))
}

/// The name a transition is looked up under: the lowercased value of the
/// lowercased name's alias (or that name itself).
pub open spec fn transition_key(doc: JsonV, name: Seq<char>) -> Seq<char> {
    unicode_lowercase(alias_or(doc, unicode_lowercase(name)))
}

/// The transition list of an answer to the request for an issue's
/// transitions, where it is a usable one.
pub open spec fn usable_transitions(outcome: Result<JsonV, Seq<char>>) -> Option<Seq<JsonV>> {
    match outcome {
        Ok(response) => if response.idx("transitions"@) is Array && transitions_ok(response.idx("transitions"@).items()) {
            Some(response.idx("transitions"@).items())
        } else {
            None
        },
        Err(_) => None,
    }
}

/// The configuration after the request for the transitions of `ticket`
/// came back as `outcome`: a usable list is stored, else nothing changes.
pub open spec fn after_transitions(doc: JsonV, ticket: Seq<char>, outcome: Result<JsonV, Seq<char>>) -> JsonV {
    match usable_transitions(outcome) {
        Some(items) => stored_transitions(doc, ticket, items),
        None => doc,
    }
}

/// The stored id of the transition `name` of `ticket` in the configuration
/// `after`, the name's alias read in `doc`.
pub open spec fn code_in(after: JsonV, doc: JsonV, ticket: Seq<char>, name: Seq<char>) -> Option<u16> {
    after.idx("transitions"@).idx(project_code_spec(ticket)).idx(transition_key(doc, name)).u16_of()
}

/// Whether `after` is the configuration once the id of the transition
/// `name` of `ticket` was looked up in `doc`: unchanged when it was
/// stored; else the outcome of asking Jira for the ticket's transitions.
pub open spec fn code_lookup<A: JiraApi>(api: A, doc: JsonV, ticket: Seq<char>, name: Seq<char>, after: JsonV) -> bool {
    if !(doc.idx("transitions"@).idx(project_code_spec(ticket)).idx(transition_key(doc, name)) is Null) {
        after == doc
    } else {
        exists|outcome: Result<JsonV, Seq<char>>|
            #[trigger] api.answers_get("issue/"@ + ticket + "/transitions"@, version_of(doc), outcome) && after
                == after_transitions(doc, ticket, outcome)
    }
}

/// Whether `r` is what moving `ticket` along the transition `code` gives:
/// the message for an unknown status; else Jira's answer to the `POST` of
/// the transition, reported, or the message of a failed request.
pub open spec fn move_outcome<A: JiraApi>(api: A, ticket: Seq<char>, code: Option<u16>, r: Result<Seq<char>, Seq<char>>) -> bool {
    match code {
        None => r == Err::<Seq<char>, Seq<char>>("Invalid status..."@),
        Some(id) => exists|o: Result<Seq<char>, Seq<char>>|
            #[trigger] api.answers_post("issue/"@ + ticket + "/transitions"@, transition_body_spec(id), 3, o) && r
                == match o {
                Ok(a) => Ok::<Seq<char>, Seq<char>>("Successfully Completed "@ + a),
                Err(_) => Err::<Seq<char>, Seq<char>>("Unable to perform transition."@),
            },
    }
}

/// The lines that list transitions `items` of `ticket`.
pub open spec fn transition_lines_spec(ticket: Seq<char>, items: Seq<JsonV>) -> Seq<Seq<char>> {
    seq!["Allowed transitions for "@ + ticket + " are as below: "@] + items.map_values(
        |it: JsonV| "- "@ + it.idx("name"@).str_or(""@),
    )
}

/// Moves issues through their workflow with a [`JiraApi`].
pub struct DefaultTransitionService<A> {
    pub jira_api: A,
}

impl<A: JiraApi> DefaultTransitionService<A> {
    pub fn new(jira_api: A) -> (r: Self)
        ensures
            r.jira_api == jira_api,
    {
        DefaultTransitionService { jira_api }
    }

    /// The project of an issue key.
    pub fn get_project_code(&self, ticket: &str) -> (r: String)
        ensures
            r@ == project_code_spec(ticket@),
    {
        project_code(ticket)
    }

    /// Asks Jira for the transitions of `ticket` and stores their table for
    /// its project in the configuration. `None`, with the configuration
    /// unchanged, when the request fails or the answer has no usable list.
    pub fn get_transitions(&self, ticket: &str, doc: &mut Json) -> (r: Option<Json>)
        ensures
            r is None ==> final(doc)@ == old(doc)@,
            r matches Some(t) ==> t@ is Array && transitions_ok(t@.items()) && final(doc)@ == stored_transitions(
                old(doc)@,
                ticket@,
                t@.items(),
            ),
            exists|outcome: Result<JsonV, Seq<char>>|
                #[trigger] self.jira_api.answers_get(
                    "issue/"@ + ticket@ + "/transitions"@,
                    crate::api::version_of(old(doc)@),
                    outcome,
                ) && final(doc)@ == after_transitions(old(doc)@, ticket@, outcome) && match outcome {
                    Ok(response) => if response.idx("transitions"@) is Array && transitions_ok(
                        response.idx("transitions"@).items(),
                    ) {
                        r matches Some(t) && t@ == response.idx("transitions"@)
                    } else {
                        r is None
                    },
                    Err(_) => r is None,
                },
    {
        let endpoint = transitions_endpoint(ticket);
        let version = configured_version(doc);
        let answer = self.jira_api.get(endpoint.as_str(), version);
        assert(self.jira_api.answers_get(endpoint@, version, crate::api::json_outcome(answer)));
        let response = match answer {
            Ok(v) => v,
            Err(_) => {
                return None;
            },
        };
        let null = Json::Null;
        let transitions = response.at("transitions", &null);
        if !transitions.is_array() {
            return None;
        }
        let items = transitions.items_of();
        if !check_transitions(items) {
            return None;
        }
        let table = transition_table(items);
        let code = project_code(ticket);
        set_transitions(doc, code.as_str(), table);
        Some(transitions.deep_clone())
    }

    /// The id of the transition `transition_name` (through its alias) for
    /// `ticket`: read from the stored table, which is first refreshed from
    /// Jira when it has no entry for the name.
    pub fn get_transition_code(&self, ticket: &str, transition_name: &str, doc: &mut Json) -> (r: Option<u16>)
        requires
            alias_readable(old(doc)@, unicode_lowercase(transition_name@)),
        ensures
            !(old(doc)@.idx("transitions"@).idx(project_code_spec(ticket@)).idx(
                transition_key(old(doc)@, transition_name@),
            ) is Null) ==> final(doc)@ == old(doc)@,
            final(doc)@ == old(doc)@ || exists|items: Seq<JsonV>|
                transitions_ok(items) && final(doc)@ == #[trigger] stored_transitions(old(doc)@, ticket@, items),
            r == final(doc)@.idx("transitions"@).idx(project_code_spec(ticket@)).idx(
                transition_key(old(doc)@, transition_name@),
            ).u16_of(),
            code_lookup(self.jira_api, old(doc)@, ticket@, transition_name@, final(doc)@),
    {
        let code = project_code(ticket);
        let lowered = to_lowercase(transition_name);
        let aliased = get_alias_or(doc, lowered.as_str());
        let key = to_lowercase(aliased.as_str());
        if !transition_exists(doc, code.as_str(), key.as_str()) {
            let fetched = self.get_transitions(ticket, doc);
            proof {
                if let Some(t) = fetched {
                    assert(stored_transitions(old(doc)@, ticket@, t@.items()) == final(doc)@);
                }
            }
        }
        let table = get_transitions(doc, code.as_str());
        match table.get(key.as_str()) {
            Some(v) => {
                if v.is_number() {
                    v.as_u16()
                } else {
                    None
                }
            },
            None => None,
        }
    }

    /// Moves `ticket` along the transition named `status`: the message
    /// Jira's answer is reported with, or why it could not be done.
    pub fn move_ticket_status(&self, ticket: &str, status: &str, doc: &mut Json) -> (r: Result<String, String>)
        requires
            alias_readable(old(doc)@, unicode_lowercase(status@)),
        ensures
            match r {
                Ok(m) => exists|answer: Seq<char>| m@ == "Successfully Completed "@ + answer,
                Err(e) => e@ == "Invalid status..."@ || e@ == "Unable to perform transition."@,
            },
            code_lookup(self.jira_api, old(doc)@, ticket@, status@, final(doc)@),
            move_outcome(self.jira_api, ticket@, code_in(final(doc)@, old(doc)@, ticket@, status@), text_outcome(r)),
    {
        let id = match self.get_transition_code(ticket, status, doc) {
            Some(id) => id,
            None => {
                proof {
                    reveal_strlit("Invalid status...");
                }
                return Err(String::from_str("Invalid status..."));
            },
        };
        let endpoint = transitions_endpoint(ticket);
        let body = transition_body(id);
        let sent = self.jira_api.post(endpoint.as_str(), body, 3);
        assert(self.jira_api.answers_post(
            "issue/"@ + ticket@ + "/transitions"@,
            transition_body_spec(id),
            3,
            text_outcome(sent),
        ));
        proof {
            reveal_strlit("Unable to perform transition.");
        }
        match sent {
            Ok(answer) => {
                let mut m = String::from_str("Successfully Completed ");
                m.append(answer.as_str());
                proof {
                    reveal_strlit("Successfully Completed ");
                    assert(m@ == "Successfully Completed "@ + answer@);
                }
                Ok(m)
            },
            Err(_) => Err(String::from_str("Unable to perform transition.")),
        }
    }

    /// Moves `ticket` along the transition named `status` when the alias
    /// of the name can be read (see [`move_ticket_status`]); `None`, with
    /// the configuration unchanged, when it cannot.
    pub fn try_move_ticket_status(&self, ticket: &str, status: &str, doc: &mut Json) -> (r: Option<Result<String, String>>)
        ensures
            r is None <==> !alias_readable(old(doc)@, unicode_lowercase(status@)),
            r is None ==> final(doc)@ == old(doc)@,
            r matches Some(Ok(m)) ==> exists|answer: Seq<char>| m@ == "Successfully Completed "@ + answer,
            r matches Some(Err(e)) ==> e@ == "Invalid status..."@ || e@ == "Unable to perform transition."@,
            r matches Some(m) ==> code_lookup(self.jira_api, old(doc)@, ticket@, status@, final(doc)@) && move_outcome(
                self.jira_api,
                ticket@,
                code_in(final(doc)@, old(doc)@, ticket@, status@),
                text_outcome(m),
            ),
    {
        let lowered = to_lowercase(status);
        if !crate::config::can_read_alias(doc, lowered.as_str()) {
            return None;
        }
        Some(self.move_ticket_status(ticket, status, doc))
    }

    /// The lines that list the transitions of `ticket` (storing their
    /// table), or the message when there are none.
    pub fn transition_lines(&self, ticket: &str, doc: &mut Json) -> (r: Result<Vec<String>, String>)
        ensures
            match r {
                Ok(lines) => exists|items: Seq<JsonV>|
                    transitions_ok(items) && final(doc)@ == #[trigger] stored_transitions(old(doc)@, ticket@, items)
                        && lines@.len() == items.len() + 1 && lines@[0]@ == "Allowed transitions for "@ + ticket@
                        + " are as below: "@ && forall|i: int|
                        0 <= i < items.len() ==> (#[trigger] lines@[i + 1])@ == "- "@ + items[i].idx("name"@).str_or(
                            ""@,
                        ),
                Err(e) => final(doc)@ == old(doc)@ && e@ == "Cannot find transitions for "@ + ticket@,
            },
            exists|outcome: Result<JsonV, Seq<char>>|
                #[trigger] self.jira_api.answers_get(
                    "issue/"@ + ticket@ + "/transitions"@,
                    version_of(old(doc)@),
                    outcome,
                ) && final(doc)@ == after_transitions(old(doc)@, ticket@, outcome) && match usable_transitions(outcome) {
                    Some(items) => r matches Ok(lines) && strs(lines@) == transition_lines_spec(ticket@, items),
                    None => r is Err,
                },
    {
        let transitions = match self.get_transitions(ticket, doc) {
            Some(t) => t,
            None => {
                let mut e = String::from_str("Cannot find transitions for ");
                e.append(ticket);
                proof {
                    reveal_strlit("Cannot find transitions for ");
                }
                return Err(e);
            },
        };
        let ghost items = transitions@.items();
        let mut lines: Vec<String> = Vec::new();
        let mut head = String::from_str("Allowed transitions for ");
        head.append(ticket);
        head.append(" are as below: ");
        lines.push(head);
        let list = transitions.items_of();
        proof {
            lemma_view_items(list@);
            reveal_strlit("Allowed transitions for ");
            reveal_strlit(" are as below: ");
            reveal_strlit("- ");
            reveal_strlit("");
        }
        let null = Json::Null;
        let mut i: usize = 0;
        while i < list.len()
            invariant
                null@ is Null,
                i <= list@.len(),
                crate::json::view_items(list@) == items,
                items.len() == list@.len(),
                forall|j: int| 0 <= j < list@.len() ==> #[trigger] items[j] == list@[j]@,
                lines@.len() == i + 1,
                lines@[0]@ == "Allowed transitions for "@ + ticket@ + " are as below: "@,
                forall|j: int| 0 <= j < i ==> (#[trigger] lines@[j + 1])@ == "- "@ + items[j].idx("name"@).str_or(""@),
            decreases list@.len() - i,
        {
            let nv = list[i].at("name", &null);
            let name = match nv.as_string() {
                Some(n) => n,
                None => String::new(),
            };
            proof {
                reveal_strlit("");
            }
            assert(name@ == nv@.str_or(""@));
            assert(nv@ == items[i as int].idx("name"@));
            let mut line = String::from_str("- ");
            line.append(name.as_str());
            lines.push(line);
            proof {
                assert(lines@[i + 1]@ == "- "@ + items[i as int].idx("name"@).str_or(""@));
                assert forall|j: int| 0 <= j < i + 1 implies (#[trigger] lines@[j + 1])@ == "- "@ + items[j].idx(
                    "name"@,
                ).str_or(""@) by {
                }
            }
            i = i + 1;
        }
        proof {
            let want = transition_lines_spec(ticket@, items);
            assert(strs(lines@).len() == want.len());
            assert forall|j: int| 0 <= j < want.len() implies strs(lines@)[j] == want[j] by {
                if j > 0 {
                    let k = j - 1;
                    assert(lines@[k + 1]@ == "- "@ + items[k].idx("name"@).str_or(""@));
                }
            }
            assert(strs(lines@) =~= want);
        }
        Ok(lines)
    }
}

} // verus!
