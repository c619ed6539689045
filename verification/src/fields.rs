//! The fields of an issue, listed with their names.

use vstd::prelude::*;
use crate::api::JiraApi;
use crate::json::{Json, JsonV, display, json_display_text, lemma_view_members, view_members};
use crate::text::{pad, pad_right, repeat_char};

verus! {

/// The endpoint of an issue's edit metadata.
pub fn editmeta_endpoint(ticket: &str) -> (r: String)
    ensures
        r@ == "issue/"@ + ticket@ + "/editmeta"@,
{
    let mut s = String::from_str("issue/");
    s.append(ticket);
    s.append("/editmeta");
    s
}

/// The note printed after the field list.
pub open spec fn alias_note() -> Seq<char> {
    "\n\nNote: If you want to use custom fields as alias, you can add an alias as\njira alias --add \"customfield_XXXXX\" new_field\n\nAfter that, you can pass new_field as options for field in details.\n        "@
}

/// The line of a field: its key padded to 35 characters, then its name.
pub open spec fn field_line(member: (Seq<char>, JsonV)) -> Seq<char> {
    pad_right(member.0, 35) + ": "@ + json_display_text(member.1.idx("name"@))
}

/// The lines that list the fields of an edit metadata answer: a header, a
/// rule, one line per field, a closing rule and the alias note.
pub open spec fn field_lines_spec(fields: JsonV) -> Seq<Seq<char>> {
    seq![pad_right("Key"@, 35) + ": Field Header"@, Seq::new(65, |i: int| '-')] + fields.members().map_values(
        |m: (Seq<char>, JsonV)| field_line(m),
    ) + seq![Seq::new(65, |i: int| '='), alias_note()]
}

/// The lines that list the fields (see [`field_lines_spec`]).
pub fn field_lines(fields: &Json) -> (r: Vec<String>)
    ensures
        r@.map_values(|l: String| l@) == field_lines_spec(fields@),
{
    let mut lines: Vec<String> = Vec::new();
    let key = pad("Key", 35);
    let mut head = key;
    head.append(": Field Header");
    lines.push(head);
    lines.push(repeat_char('-', 65));
    let m = fields.members_of();
    let ghost mv = view_members(m@);
    proof {
        lemma_view_members(m@);
    }
    let null = Json::Null;
    let mut i: usize = 0;
    while i < m.len()
        invariant
            null@ is Null,
            i <= m@.len(),
            mv == view_members(m@),
            mv == fields@.members(),
            mv.len() == m@.len(),
            forall|k: int| 0 <= k < m@.len() ==> #[trigger] mv[k] == (m@[k].0@, m@[k].1@),
            lines@.len() == i + 2,
            lines@[0]@ == pad_right("Key"@, 35) + ": Field Header"@,
            lines@[1]@ == Seq::new(65, |k: int| '-'),
            forall|k: int| 0 <= k < i ==> (#[trigger] lines@[k + 2])@ == field_line(mv[k]),
        decreases m@.len() - i,
    {
        let mut line = pad(m[i].0.as_str(), 35);
        line.append(": ");
        let name = display(m[i].1.at("name", &null));
        line.append(name.as_str());
        lines.push(line);
        proof {
            reveal_strlit(": ");
            assert(lines@[i + 2]@ == field_line(mv[i as int]));
            assert forall|k: int| 0 <= k < i + 1 implies (#[trigger] lines@[k + 2])@ == field_line(mv[k]) by {}
        }
        i = i + 1;
    }
    lines.push(repeat_char('=', 65));
    lines.push(String::from_str(
        "\n\nNote: If you want to use custom fields as alias, you can add an alias as\njira alias --add \"customfield_XXXXX\" new_field\n\nAfter that, you can pass new_field as options for field in details.\n        ",
    ));
    proof {
        reveal_strlit(": Field Header");
        let spec = field_lines_spec(fields@);
        let mid = mv.map_values(|mm: (Seq<char>, JsonV)| field_line(mm));
        assert(spec.len() == lines@.len());
        let lv = lines@.map_values(|l: String| l@);
        assert forall|k: int| 0 <= k < lines@.len() implies #[trigger] lv[k] == spec[k] by {
            if k >= 2 && k < mv.len() + 2 {
                assert(lines@[(k - 2) + 2]@ == field_line(mv[k - 2]));
                assert(spec[k] == mid[k - 2]);
            }
        }
        assert(lv =~= spec);
    }
    lines
}

/// Lists issue fields with a [`JiraApi`].
pub struct DefaultFieldsService<A> {
    pub jira_api: A,
}

impl<A: JiraApi> DefaultFieldsService<A> {
    pub fn new(jira_api: A) -> (r: Self)
        ensures
            r.jira_api == jira_api,
    {
        DefaultFieldsService { jira_api }
    }

    /// The lines that list the fields of `ticket`, or the message of a
    /// failure (after which the command exits with status 1).
    pub fn display_all_fields(&self, ticket: &str) -> (r: Result<Vec<String>, String>)
        ensures
            r matches Ok(lines) ==> exists|response: JsonV|
                !(response.idx("fields"@) is Null) && lines@.map_values(|l: String| l@) == #[trigger] field_lines_spec(
                    response.idx("fields"@),
                ),
            r matches Err(m) ==> m@ == "Cannot fetch fields"@ || "Error occurred in API Call: "@.is_prefix_of(m@),
            exists|outcome: Result<JsonV, Seq<char>>|
                #[trigger] self.jira_api.answers_get("issue/"@ + ticket@ + "/editmeta"@, 2, outcome) && match outcome {
                    Ok(response) => if response.idx("fields"@) is Null {
                        r matches Err(m) && m@ == "Cannot fetch fields"@
                    } else {
                        r matches Ok(lines) && lines@.map_values(|l: String| l@) == field_lines_spec(
                            response.idx("fields"@),
                        )
                    },
                    Err(e) => r matches Err(m) && m@ == "Error occurred in API Call: "@ + e,
                },
    {
        let endpoint = editmeta_endpoint(ticket);
        let answer = self.jira_api.get_v2(endpoint.as_str());
        let ghost outcome = crate::api::json_outcome(answer);
        assert(self.jira_api.answers_get("issue/"@ + ticket@ + "/editmeta"@, 2, outcome));
        proof {
            reveal_strlit("Cannot fetch fields");
        }
        let response = match answer {
            Ok(v) => v,
            Err(e) => {
                let mut m = String::from_str("Error occurred in API Call: ");
                m.append(e.as_str());
                proof {
                    reveal_strlit("Error occurred in API Call: ");
                    assert(m@.subrange(0, "Error occurred in API Call: "@.len() as int) =~= "Error occurred in API Call: "@);
                }
                return Err(m);
            },
        };
        let null = Json::Null;
        let fields = response.at("fields", &null);
        if fields.is_null() {
            return Err(String::from_str("Cannot fetch fields"));
        }
        let lines = field_lines(fields);
        assert(lines@.map_values(|l: String| l@) == field_lines_spec(response@.idx("fields"@)));
        Ok(lines)
    }
}

} // verus!
