//! Issue list filters: the values given on the command line or in the
//! filter editor, and the JQL query they make.

use vstd::prelude::*;
use crate::config::{alias_or, alias_readable, can_read_alias, get_alias_or};
use crate::json::{Json, JsonV, opt_view};
use crate::text::{
    is_trimmed, join, join_spec, lemma_split_concat, lemma_split_none, lemma_trim_space_prefix, split_char, split_spec, strs,
    trim, trim_spec,
};

verus! {

/// A filter over issues. Each list holds accepted values for one field
/// (an empty list does not restrict it).
pub struct ListFilter {
    pub sprint: Vec<String>,
    pub project: Vec<String>,
    pub status: Vec<String>,
    pub assignee: Vec<String>,
    pub component: Vec<String>,
    pub labels: Vec<String>,
    pub priority: Vec<String>,
    pub reporter: Vec<String>,
    pub issue_type: Vec<String>,
    pub epic: Vec<String>,
    pub text: Option<String>,
    pub jql: Option<String>,
    pub me: bool,
    pub count: u32,
    pub offset: u32,
}

/// The value of a filter.
pub struct ListFilterV {
    pub sprint: Seq<Seq<char>>,
    pub project: Seq<Seq<char>>,
    pub status: Seq<Seq<char>>,
    pub assignee: Seq<Seq<char>>,
    pub component: Seq<Seq<char>>,
    pub labels: Seq<Seq<char>>,
    pub priority: Seq<Seq<char>>,
    pub reporter: Seq<Seq<char>>,
    pub issue_type: Seq<Seq<char>>,
    pub epic: Seq<Seq<char>>,
    pub text: Option<Seq<char>>,
    pub jql: Option<Seq<char>>,
    pub me: bool,
    pub count: u32,
    pub offset: u32,
}

impl View for ListFilter {
    type V = ListFilterV;

    open spec fn view(&self) -> ListFilterV {
        ListFilterV {
            sprint: strs(self.sprint@),
            project: strs(self.project@),
            status: strs(self.status@),
            assignee: strs(self.assignee@),
            component: strs(self.component@),
            labels: strs(self.labels@),
            priority: strs(self.priority@),
            reporter: strs(self.reporter@),
            issue_type: strs(self.issue_type@),
            epic: strs(self.epic@),
            text: opt_view(self.text),
            jql: opt_view(self.jql),
            me: self.me,
            count: self.count,
            offset: self.offset,
        }
    }
}

/// The values a comma-separated text gives: each piece trimmed, empty
/// pieces left out.
pub open spec fn split_values(value: Seq<char>) -> Seq<Seq<char>> {
    split_spec(value, ',').map_values(|p: Seq<char>| trim_spec(p)).filter(|p: Seq<char>| p.len() > 0)
}

/// The value a single-valued field takes from a text: the trimmed text, or
/// none when that is empty.
pub open spec fn single_value(value: Seq<char>) -> Option<Seq<char>> {
    if trim_spec(value).len() > 0 {
        Some(trim_spec(value))
    } else {
        None
    }
}

/// `"value"` with the alias resolved.
pub open spec fn quoted_alias(doc: JsonV, v: Seq<char>) -> Seq<char> {
    "\""@ + alias_or(doc, v) + "\""@
}

/// The `field in ("a","b")` clause for a list of values; nothing for an
/// empty list.
pub open spec fn in_clause(field: Seq<char>, vals: Seq<Seq<char>>, doc: JsonV) -> Seq<Seq<char>> {
    if vals.len() == 0 {
        Seq::empty()
    } else {
        seq![field + " in ("@ + join_spec(vals.map_values(|v: Seq<char>| quoted_alias(doc, v)), ","@) + ")"@]
    }
}

/// Whether every value can be looked up as an alias.
pub open spec fn all_readable(doc: JsonV, vals: Seq<Seq<char>>) -> bool {
    forall|i: int| 0 <= i < vals.len() ==> alias_readable(doc, #[trigger] vals[i])
}

impl ListFilterV {
    /// The value for the list field `key`, if `key` names one.
    pub open spec fn multi_field(self, key: Seq<char>) -> Option<Seq<Seq<char>>> {
        if key == "sprint"@ {
            Some(self.sprint)
        } else if key == "project"@ {
            Some(self.project)
        } else if key == "status"@ {
            Some(self.status)
        } else if key == "assignee"@ {
            Some(self.assignee)
        } else if key == "component"@ {
            Some(self.component)
        } else if key == "labels"@ {
            Some(self.labels)
        } else if key == "priority"@ {
            Some(self.priority)
        } else if key == "reporter"@ {
            Some(self.reporter)
        } else if key == "type"@ {
            Some(self.issue_type)
        } else if key == "epic"@ {
            Some(self.epic)
        } else {
            None
        }
    }

    /// The value for the single-valued field `key` (`text` or `jql`).
    pub open spec fn single_field(self, key: Seq<char>) -> Option<Option<Seq<char>>> {
        if key == "text"@ {
            Some(self.text)
        } else if key == "jql"@ {
            Some(self.jql)
        } else {
            None
        }
    }

    /// How the filter editor shows the field `key`: list values joined with
    /// `, `, a single value as it is, nothing for an unknown field.
    pub open spec fn display(self, key: Seq<char>) -> Seq<char> {
        match self.multi_field(key) {
            Some(vals) => join_spec(vals, ", "@),
            None => match self.single_field(key) {
                Some(Some(v)) => v,
                _ => Seq::empty(),
            },
        }
    }

    /// The filter with the field `key` set to `vals` (a single-valued field
    /// takes the first value, or none); an unknown key changes nothing.
    pub open spec fn with_field(self, key: Seq<char>, vals: Seq<Seq<char>>) -> ListFilterV {
        let first = if vals.len() > 0 {
            Some(vals[0])
        } else {
            None
        };
        if key == "sprint"@ {
            ListFilterV { sprint: vals, ..self }
        } else if key == "project"@ {
            ListFilterV { project: vals, ..self }
        } else if key == "status"@ {
            ListFilterV { status: vals, ..self }
        } else if key == "assignee"@ {
            ListFilterV { assignee: vals, ..self }
        } else if key == "component"@ {
            ListFilterV { component: vals, ..self }
        } else if key == "labels"@ {
            ListFilterV { labels: vals, ..self }
        } else if key == "priority"@ {
            ListFilterV { priority: vals, ..self }
        } else if key == "reporter"@ {
            ListFilterV { reporter: vals, ..self }
        } else if key == "type"@ {
            ListFilterV { issue_type: vals, ..self }
        } else if key == "epic"@ {
            ListFilterV { epic: vals, ..self }
        } else if key == "text"@ {
            ListFilterV { text: first, ..self }
        } else if key == "jql"@ {
            ListFilterV { jql: first, ..self }
        } else {
            self
        }
    }

    /// The filter with the field `key` set from the text `value`: a list
    /// field takes the comma-separated values (see [`split_values`]), `text`
    /// and `jql` take the whole trimmed text (see [`single_value`]); an
    /// unknown key changes nothing.
    pub open spec fn set_text(self, key: Seq<char>, value: Seq<char>) -> ListFilterV {
        if key == "text"@ {
            ListFilterV { text: single_value(value), ..self }
        } else if key == "jql"@ {
            ListFilterV { jql: single_value(value), ..self }
        } else {
            self.with_field(key, split_values(value))
        }
    }

    /// Whether the field `key` reads back from its display: each list value
    /// non-empty, trimmed and without commas; a single value non-empty and
    /// trimmed.
    pub open spec fn field_clean(self, key: Seq<char>) -> bool {
        match self.multi_field(key) {
            Some(vals) => forall|i: int| 0 <= i < vals.len() ==> clean_value(#[trigger] vals[i]),
            None => match self.single_field(key) {
                Some(Some(t)) => t.len() > 0 && is_trimmed(t),
                _ => true,
            },
        }
    }

    /// Whether every value the query uses can be looked up as an alias.
    pub open spec fn readable_in(self, doc: JsonV) -> bool {
        &&& all_readable(doc, self.sprint)
        &&& all_readable(doc, self.project)
        &&& all_readable(doc, self.status)
        &&& all_readable(doc, self.assignee)
        &&& all_readable(doc, self.component)
        &&& all_readable(doc, self.labels)
        &&& all_readable(doc, self.priority)
        &&& all_readable(doc, self.reporter)
        &&& all_readable(doc, self.issue_type)
        &&& all_readable(doc, self.epic)
        &&& (self.text matches Some(t) ==> alias_readable(doc, t))
        &&& (self.jql matches Some(j) ==> alias_readable(doc, j))
    }

    /// The clauses of the query, in order, each value with its alias
    /// resolved.
    pub open spec fn jql_parts(self, doc: JsonV) -> Seq<Seq<char>> {
        (if self.me {
            seq!["assignee = currentUser()"@]
        } else {
            Seq::empty()
        }) + in_clause("sprint"@, self.sprint, doc) + in_clause("project"@, self.project, doc) + in_clause(
            "status"@,
            self.status,
            doc,
        ) + in_clause("assignee"@, self.assignee, doc) + in_clause("component"@, self.component, doc)
            + in_clause("labels"@, self.labels, doc) + in_clause("priority"@, self.priority, doc)
            + in_clause("reporter"@, self.reporter, doc) + in_clause("issuetype"@, self.issue_type, doc)
            + in_clause("\"epic link\""@, self.epic, doc) + (match self.text {
            Some(t) => seq!["text ~ \""@ + alias_or(doc, t) + "\""@],
            None => Seq::empty(),
        }) + (match self.jql {
            Some(j) => seq![alias_or(doc, j)],
            None => Seq::empty(),
        })
    }

    /// The JQL query: the clauses joined with ` AND `.
    pub open spec fn jql(self, doc: JsonV) -> Seq<char> {
        join_spec(self.jql_parts(doc), " AND "@)
    }
}

/// `"value"` with the alias resolved.
fn quote_alias(doc: &Json, v: &str) -> (r: String)
    requires
        alias_readable(doc@, v@),
    ensures
        r@ == quoted_alias(doc@, v@),
{
    let mut r = "\"".to_owned();
    let a = get_alias_or(doc, v);
    r.append(a.as_str());
    r.append("\"");
    r
}

/// Appends the `field in (...)` clause for `values`, if there are any.
fn push_jql_in(parts: &mut Vec<String>, field: &str, values: &[String], doc: &Json)
    requires
        all_readable(doc@, strs(values@)),
    ensures
        strs(final(parts)@) == strs(old(parts)@) + in_clause(field@, strs(values@), doc@),
{
    if values.len() == 0 {
        assert(strs(old(parts)@) + in_clause(field@, strs(values@), doc@) =~= strs(old(parts)@));
        return;
    }
    let ghost vals = strs(values@);
    let ghost target = vals.map_values(|v: Seq<char>| quoted_alias(doc@, v));
    let mut quoted: Vec<String> = Vec::new();
    let mut i: usize = 0;
    while i < values.len()
        invariant
            vals == strs(values@),
            target == vals.map_values(|v: Seq<char>| quoted_alias(doc@, v)),
            all_readable(doc@, vals),
            i <= values@.len(),
            quoted@.len() == i,
            forall|j: int| 0 <= j < i ==> #[trigger] quoted@[j]@ == target[j],
        decreases values@.len() - i,
    {
        assert(vals[i as int] == values@[i as int]@);
        let q = quote_alias(doc, values[i].as_str());
        quoted.push(q);
        i = i + 1;
    }
    assert(quoted@.map_values(|x: String| x@) =~= target);
    let inner = join(quoted.as_slice(), ",");
    let mut clause = field.to_owned();
    clause.append(" in (");
    clause.append(inner.as_str());
    clause.append(")");
    let ghost before = parts@;
    parts.push(clause);
    assert(strs(parts@) =~= strs(before) + in_clause(field@, vals, doc@));
}

impl ListFilter {
    /// The JQL query for the filter, each value with its alias resolved
    /// from the configuration document `doc`.
    pub fn to_jql(&self, doc: &Json) -> (r: String)
        requires
            self@.readable_in(doc@),
        ensures
            r@ == self@.jql(doc@),
            forall|key: Seq<char>|
                #[trigger] self@.multi_field(key) is Some && self@.multi_field(key)->0.len() > 0 ==> text_contains(
                    r@,
                    value_clause(jql_field(key), self@.multi_field(key)->0, doc@),
                ),
    {
        proof {
            assert forall|key: Seq<char>|
                #[trigger] self@.multi_field(key) is Some && self@.multi_field(key)->0.len() > 0 implies text_contains(
                    self@.jql(doc@),
                    value_clause(jql_field(key), self@.multi_field(key)->0, doc@),
                ) by {
                law_list_fields_restrict_the_query(self@, doc@, key);
            }
        }
        let mut parts: Vec<String> = Vec::new();
        if self.me {
            parts.push("assignee = currentUser()".to_owned());
        }
        assert(strs(parts@) =~= (if self.me {
            seq!["assignee = currentUser()"@]
        } else {
            Seq::<Seq<char>>::empty()
        }));
        push_jql_in(&mut parts, "sprint", self.sprint.as_slice(), doc);
        push_jql_in(&mut parts, "project", self.project.as_slice(), doc);
        push_jql_in(&mut parts, "status", self.status.as_slice(), doc);
        push_jql_in(&mut parts, "assignee", self.assignee.as_slice(), doc);
        push_jql_in(&mut parts, "component", self.component.as_slice(), doc);
        push_jql_in(&mut parts, "labels", self.labels.as_slice(), doc);
        push_jql_in(&mut parts, "priority", self.priority.as_slice(), doc);
        push_jql_in(&mut parts, "reporter", self.reporter.as_slice(), doc);
        push_jql_in(&mut parts, "issuetype", self.issue_type.as_slice(), doc);
        push_jql_in(&mut parts, "\"epic link\"", self.epic.as_slice(), doc);
        let ghost before_text = strs(parts@);
        match &self.text {
            Some(text) => {
                let mut clause = "text ~ \"".to_owned();
                let a = get_alias_or(doc, text.as_str());
                clause.append(a.as_str());
                clause.append("\"");
                parts.push(clause);
            },
            None => {},
        }
        assert(strs(parts@) =~= before_text + (match self@.text {
            Some(t) => seq!["text ~ \""@ + alias_or(doc@, t) + "\""@],
            None => Seq::<Seq<char>>::empty(),
        }));
        let ghost before_jql = strs(parts@);
        match &self.jql {
            Some(q) => {
                let a = get_alias_or(doc, q.as_str());
                parts.push(a);
            },
            None => {},
        }
        assert(strs(parts@) =~= before_jql + (match self@.jql {
            Some(j) => seq![alias_or(doc@, j)],
            None => Seq::<Seq<char>>::empty(),
        }));
        assert(strs(parts@) =~= self@.jql_parts(doc@));
        assert(parts@.map_values(|x: String| x@) =~= strs(parts@));
        join(parts.as_slice(), " AND ")
    }
}

/// Whether every value can be looked up as an alias.
fn all_can_read(doc: &Json, values: &[String]) -> (r: bool)
    ensures
        r == all_readable(doc@, strs(values@)),
{
    let mut i: usize = 0;
    while i < values.len()
        invariant
            i <= values@.len(),
            forall|j: int| 0 <= j < i ==> alias_readable(doc@, #[trigger] strs(values@)[j]),
        decreases values@.len() - i,
    {
        if !can_read_alias(doc, values[i].as_str()) {
            assert(strs(values@)[i as int] == values@[i as int]@);
            return false;
        }
        assert(strs(values@)[i as int] == values@[i as int]@);
        i = i + 1;
    }
    true
}

/// Whether an optional value can be looked up as an alias.
fn opt_can_read(doc: &Json, v: &Option<String>) -> (r: bool)
    ensures
        r == (opt_view(*v) matches Some(t) ==> alias_readable(doc@, t)),
{
    match v {
        Some(t) => can_read_alias(doc, t.as_str()),
        None => true,
    }
}

/// The values of a comma-separated text: each piece trimmed, empty pieces
/// left out.
fn values_of(value: &str) -> (r: Vec<String>)
    ensures
        strs(r@) == split_values(value@),
{
    let pieces = split_char(value, ',');
    let ghost ps = split_spec(value@, ',');
    let ghost trimmed = ps.map_values(|p: Seq<char>| trim_spec(p));
    let mut vals: Vec<String> = Vec::new();
    let mut i: usize = 0;
    proof {
        reveal(Seq::filter);
        assert(trimmed.take(0) =~= Seq::<Seq<char>>::empty());
        assert(trimmed.take(0).filter(|p: Seq<char>| p.len() > 0) =~= Seq::<Seq<char>>::empty());
    }
    while i < pieces.len()
        invariant
            pieces@.map_values(|x: String| x@) == ps,
            ps == split_spec(value@, ','),
            trimmed == ps.map_values(|p: Seq<char>| trim_spec(p)),
            i <= pieces@.len(),
            strs(vals@) == trimmed.take(i as int).filter(|p: Seq<char>| p.len() > 0),
        decreases pieces@.len() - i,
    {
        let t = trim(pieces[i].as_str());
        assert(ps[i as int] == pieces@[i as int]@);
        let ghost before = strs(vals@);
        proof {
            reveal(Seq::filter);
            assert(trimmed.take(i + 1).drop_last() =~= trimmed.take(i as int));
            assert(trimmed.take(i + 1).last() == t@);
        }
        if t.as_str().unicode_len() > 0 {
            vals.push(t);
            assert(strs(vals@) =~= before.push(t@));
        }
        i = i + 1;
    }
    assert(trimmed.take(pieces@.len() as int) =~= trimmed);
    vals
}

/// The values of an empty text: none.
pub proof fn lemma_split_values_empty()
    ensures
        split_values(Seq::empty()) == Seq::<Seq<char>>::empty(),
{
    reveal(Seq::filter);
    let ps = split_spec(Seq::<char>::empty(), ',');
    assert(ps =~= seq![Seq::<char>::empty()]);
    let t = ps.map_values(|p: Seq<char>| trim_spec(p));
    assert(trim_spec(Seq::<char>::empty()) =~= Seq::<char>::empty());
    assert(t =~= seq![Seq::<char>::empty()]);
    assert(t.drop_last() =~= Seq::<Seq<char>>::empty());
    assert(t.drop_last().filter(|p: Seq<char>| p.len() > 0) =~= Seq::<Seq<char>>::empty());
    assert(t.last().len() == 0);
    assert(t.filter(|p: Seq<char>| p.len() > 0) =~= Seq::<Seq<char>>::empty());
}

/// The arguments of `jira list`, as given on the command line.
pub struct ListArgs {
    pub sprint: Vec<String>,
    pub project: Vec<String>,
    pub status: Vec<String>,
    pub assignee: Vec<String>,
    pub component: Vec<String>,
    pub labels: Vec<String>,
    pub priority: Vec<String>,
    pub reporter: Vec<String>,
    pub issue_type: Vec<String>,
    pub epic: Vec<String>,
    pub text: Option<String>,
    pub jql: Option<String>,
    pub me: bool,
    pub count: Option<String>,
    pub offset: Option<String>,
}

/// A number argument: its value if it reads as a `u32`, the default when
/// it is missing or does not read.
pub open spec fn number_or(arg: Option<Seq<char>>, default: u32) -> u32 {
    match arg {
        Some(t) => match crate::text::u32_text(t) {
            Some(n) => n,
            None => default,
        },
        None => default,
    }
}

/// A copy of a list of strings.
fn copy_strings(v: &Vec<String>) -> (r: Vec<String>)
    ensures
        strs(r@) == strs(v@),
{
    let mut out: Vec<String> = Vec::new();
    let mut i: usize = 0;
    while i < v.len()
        invariant
            i <= v@.len(),
            out@.len() == i,
            forall|j: int| 0 <= j < i ==> #[trigger] out@[j]@ == v@[j]@,
        decreases v@.len() - i,
    {
        out.push(v[i].clone());
        i = i + 1;
    }
    assert(strs(out@) =~= strs(v@));
    out
}

/// A number argument, or its default.
fn number_arg(arg: &Option<String>, default: u32) -> (r: u32)
    ensures
        r == number_or(opt_view(*arg), default),
{
    match arg {
        Some(t) => match crate::text::parse_u32(t.as_str()) {
            Some(n) => n,
            None => default,
        },
        None => default,
    }
}

/// The filter that the command-line arguments give: the lists and texts
/// as given, at most 50 results (`--count`) from the first (`--offset`).
pub open spec fn args_filter(matches: ListArgs) -> ListFilterV {
    ListFilterV {
        sprint: strs(matches.sprint@),
        project: strs(matches.project@),
        status: strs(matches.status@),
        assignee: strs(matches.assignee@),
        component: strs(matches.component@),
        labels: strs(matches.labels@),
        priority: strs(matches.priority@),
        reporter: strs(matches.reporter@),
        issue_type: strs(matches.issue_type@),
        epic: strs(matches.epic@),
        text: opt_view(matches.text),
        jql: opt_view(matches.jql),
        me: matches.me,
        count: number_or(opt_view(matches.count), 50),
        offset: number_or(opt_view(matches.offset), 0),
    }
}

impl ListFilter {
    /// The filter that the command-line arguments give: the lists and texts
    /// as given, at most 50 results (`--count`) from the first (`--offset`).
    pub fn from_matches(matches: &ListArgs) -> (r: ListFilter)
        ensures
            r@ == args_filter(*matches),
            r.count == (match matches.count {
                Some(t) => match crate::text::u32_text(t@) {
                    Some(n) => n,
                    None => 50u32,
                },
                None => 50u32,
            }),
            r.offset == (match matches.offset {
                Some(t) => match crate::text::u32_text(t@) {
                    Some(n) => n,
                    None => 0u32,
                },
                None => 0u32,
            }),
    {
        proof {
            law_arguments_make_the_filter(*matches);
        }
        ListFilter {
            sprint: copy_strings(&matches.sprint),
            project: copy_strings(&matches.project),
            status: copy_strings(&matches.status),
            assignee: copy_strings(&matches.assignee),
            component: copy_strings(&matches.component),
            labels: copy_strings(&matches.labels),
            priority: copy_strings(&matches.priority),
            reporter: copy_strings(&matches.reporter),
            issue_type: copy_strings(&matches.issue_type),
            epic: copy_strings(&matches.epic),
            text: match &matches.text {
                Some(t) => Some(t.clone()),
                None => None,
            },
            jql: match &matches.jql {
                Some(t) => Some(t.clone()),
                None => None,
            },
            me: matches.me,
            count: number_arg(&matches.count, 50),
            offset: number_arg(&matches.offset, 0),
        }
    }

    /// The query for the filter when every value can be looked up as an
    /// alias; `None` when one cannot (its stored member is not a string).
    pub fn try_to_jql(&self, doc: &Json) -> (r: Option<String>)
        ensures
            match r {
                Some(q) => self@.readable_in(doc@) && q@ == self@.jql(doc@),
                None => !self@.readable_in(doc@),
            },
    {
        let ok = all_can_read(doc, self.sprint.as_slice()) && all_can_read(doc, self.project.as_slice())
            && all_can_read(doc, self.status.as_slice()) && all_can_read(doc, self.assignee.as_slice())
            && all_can_read(doc, self.component.as_slice()) && all_can_read(doc, self.labels.as_slice())
            && all_can_read(doc, self.priority.as_slice()) && all_can_read(doc, self.reporter.as_slice())
            && all_can_read(doc, self.issue_type.as_slice()) && all_can_read(doc, self.epic.as_slice())
            && opt_can_read(doc, &self.text) && opt_can_read(doc, &self.jql);
        if ok {
            Some(self.to_jql(doc))
        } else {
            None
        }
    }

    /// The field `key` as the filter editor shows it: list values joined
    /// with `, `, a single value as it is, empty for an unknown field.
    pub fn get_display(&self, key: &str) -> (r: String)
        ensures
            r@ == self@.display(key@),
    {
        let list: Option<&Vec<String>> = if crate::text::str_eq(key, "sprint") {
            Some(&self.sprint)
        } else if crate::text::str_eq(key, "project") {
            Some(&self.project)
        } else if crate::text::str_eq(key, "status") {
            Some(&self.status)
        } else if crate::text::str_eq(key, "assignee") {
            Some(&self.assignee)
        } else if crate::text::str_eq(key, "component") {
            Some(&self.component)
        } else if crate::text::str_eq(key, "labels") {
            Some(&self.labels)
        } else if crate::text::str_eq(key, "priority") {
            Some(&self.priority)
        } else if crate::text::str_eq(key, "reporter") {
            Some(&self.reporter)
        } else if crate::text::str_eq(key, "type") {
            Some(&self.issue_type)
        } else if crate::text::str_eq(key, "epic") {
            Some(&self.epic)
        } else {
            None
        };
        match list {
            Some(v) => {
                assert(v@.map_values(|x: String| x@) =~= strs(v@));
                join(v.as_slice(), ", ")
            },
            None => {
                let single: Option<&Option<String>> = if crate::text::str_eq(key, "text") {
                    Some(&self.text)
                } else if crate::text::str_eq(key, "jql") {
                    Some(&self.jql)
                } else {
                    None
                };
                match single {
                    Some(Some(t)) => t.clone(),
                    _ => String::new(),
                }
            },
        }
    }

    /// Sets the field `key` from a text (see [`ListFilterV::set_text`]): a
    /// list field takes the trimmed, non-empty comma-separated pieces,
    /// `text` and `jql` the whole trimmed text. An empty text clears the
    /// field; an unknown key changes nothing.
    pub fn set_from_str(&mut self, key: &str, value: &str)
        ensures
            final(self)@ == old(self)@.set_text(key@, value@),
    {
        proof {
            reveal_strlit("text");
            reveal_strlit("jql");
        }
        if crate::text::str_eq(key, "text") || crate::text::str_eq(key, "jql") {
            let t = trim(value);
            let single = if t.unicode_len() > 0 {
                Some(t)
            } else {
                None
            };
            assert(opt_view(single) == single_value(value@));
            if crate::text::str_eq(key, "text") {
                self.text = single;
            } else {
                self.jql = single;
            }
            return;
        }
        let vals = values_of(value);
        if crate::text::str_eq(key, "sprint") {
            self.sprint = vals;
        } else if crate::text::str_eq(key, "project") {
            self.project = vals;
        } else if crate::text::str_eq(key, "status") {
            self.status = vals;
        } else if crate::text::str_eq(key, "assignee") {
            self.assignee = vals;
        } else if crate::text::str_eq(key, "component") {
            self.component = vals;
        } else if crate::text::str_eq(key, "labels") {
            self.labels = vals;
        } else if crate::text::str_eq(key, "priority") {
            self.priority = vals;
        } else if crate::text::str_eq(key, "reporter") {
            self.reporter = vals;
        } else if crate::text::str_eq(key, "type") {
            self.issue_type = vals;
        } else if crate::text::str_eq(key, "epic") {
            self.epic = vals;
        }
    }

    /// Clears the field `key`.
    pub fn clear_field(&mut self, key: &str)
        ensures
            final(self)@ == old(self)@.with_field(key@, Seq::empty()),
    {
        proof {
            lemma_split_values_empty();
            lemma_trim_empty();
            lemma_field_names_distinct();
            reveal_strlit("");
        }
        self.set_from_str(key, "");
    }
}

impl Default for ListFilter {
    /// No restriction, at most 0 results from offset 0 (as `derive` makes it).
    fn default() -> (r: ListFilter)
        ensures
            r@ == (ListFilterV {
                sprint: Seq::empty(),
                project: Seq::empty(),
                status: Seq::empty(),
                assignee: Seq::empty(),
                component: Seq::empty(),
                labels: Seq::empty(),
                priority: Seq::empty(),
                reporter: Seq::empty(),
                issue_type: Seq::empty(),
                epic: Seq::empty(),
                text: None,
                jql: None,
                me: false,
                count: 0,
                offset: 0,
            }),
    {
        let r = ListFilter {
            sprint: Vec::new(),
            project: Vec::new(),
            status: Vec::new(),
            assignee: Vec::new(),
            component: Vec::new(),
            labels: Vec::new(),
            priority: Vec::new(),
            reporter: Vec::new(),
            issue_type: Vec::new(),
            epic: Vec::new(),
            text: None,
            jql: None,
            me: false,
            count: 0,
            offset: 0,
        };
        assert(r@.sprint =~= Seq::<Seq<char>>::empty());
        assert(r@.project =~= Seq::<Seq<char>>::empty());
        assert(r@.status =~= Seq::<Seq<char>>::empty());
        assert(r@.assignee =~= Seq::<Seq<char>>::empty());
        assert(r@.component =~= Seq::<Seq<char>>::empty());
        assert(r@.labels =~= Seq::<Seq<char>>::empty());
        assert(r@.priority =~= Seq::<Seq<char>>::empty());
        assert(r@.reporter =~= Seq::<Seq<char>>::empty());
        assert(r@.issue_type =~= Seq::<Seq<char>>::empty());
        assert(r@.epic =~= Seq::<Seq<char>>::empty());
        r
    }
}

/// The number of filterable fields.
pub const FILTER_FIELD_COUNT: usize = 12;

/// The filterable fields in display order: (key, label).
pub open spec fn filter_fields_spec() -> Seq<(Seq<char>, Seq<char>)> {
    seq![
        ("sprint"@, "Sprint"@),
        ("project"@, "Project"@),
        ("status"@, "Status"@),
        ("assignee"@, "Assignee"@),
        ("component"@, "Component"@),
        ("labels"@, "Labels"@),
        ("priority"@, "Priority"@),
        ("reporter"@, "Reporter"@),
        ("type"@, "Issue Type"@),
        ("epic"@, "Epic"@),
        ("text"@, "Text Search"@),
        ("jql"@, "JQL Query"@),
    ]
}

/// The key of the filterable field at `idx`.
pub fn field_key(idx: usize) -> (r: &'static str)
    requires
        idx < FILTER_FIELD_COUNT,
    ensures
        r@ == filter_fields_spec()[idx as int].0,
{
    match idx {
        0 => "sprint",
        1 => "project",
        2 => "status",
        3 => "assignee",
        4 => "component",
        5 => "labels",
        6 => "priority",
        7 => "reporter",
        8 => "type",
        9 => "epic",
        10 => "text",
        _ => "jql",
    }
}

/// The label of the filterable field at `idx`.
pub fn field_label(idx: usize) -> (r: &'static str)
    requires
        idx < FILTER_FIELD_COUNT,
    ensures
        r@ == filter_fields_spec()[idx as int].1,
{
    match idx {
        0 => "Sprint",
        1 => "Project",
        2 => "Status",
        3 => "Assignee",
        4 => "Component",
        5 => "Labels",
        6 => "Priority",
        7 => "Reporter",
        8 => "Issue Type",
        9 => "Epic",
        10 => "Text Search",
        _ => "JQL Query",
    }
}

/// The filterable fields in display order: (key, label).
pub fn filter_fields() -> (r: Vec<(&'static str, &'static str)>)
    ensures
        r@.len() == FILTER_FIELD_COUNT,
        forall|i: int| 0 <= i < FILTER_FIELD_COUNT ==> (#[trigger] r@[i]).0@ == filter_fields_spec()[i].0
            && r@[i].1@ == filter_fields_spec()[i].1,
{
    let mut v: Vec<(&'static str, &'static str)> = Vec::new();
    let mut i: usize = 0;
    while i < FILTER_FIELD_COUNT
        invariant
            i <= FILTER_FIELD_COUNT,
            v@.len() == i,
            forall|j: int| 0 <= j < i ==> (#[trigger] v@[j]).0@ == filter_fields_spec()[j].0 && v@[j].1@
                == filter_fields_spec()[j].1,
        decreases FILTER_FIELD_COUNT - i,
    {
        v.push((field_key(i), field_label(i)));
        i = i + 1;
    }
    v
}

impl ListFilter {
    /// A copy of the filter.
    pub fn copy(&self) -> (r: ListFilter)
        ensures
            r@ == self@,
    {
        ListFilter {
            sprint: copy_strings(&self.sprint),
            project: copy_strings(&self.project),
            status: copy_strings(&self.status),
            assignee: copy_strings(&self.assignee),
            component: copy_strings(&self.component),
            labels: copy_strings(&self.labels),
            priority: copy_strings(&self.priority),
            reporter: copy_strings(&self.reporter),
            issue_type: copy_strings(&self.issue_type),
            epic: copy_strings(&self.epic),
            text: match &self.text {
                Some(t) => Some(t.clone()),
                None => None,
            },
            jql: match &self.jql {
                Some(t) => Some(t.clone()),
                None => None,
            },
            me: self.me,
            count: self.count,
            offset: self.offset,
        }
    }
}

/// A value that the filter editor shows and reads back unchanged: not
/// empty, without surrounding white space and without commas.
pub open spec fn clean_value(v: Seq<char>) -> bool {
    v.len() > 0 && is_trimmed(v) && !v.contains(',')
}

proof fn lemma_split_join(vals: Seq<Seq<char>>)
    requires
        vals.len() >= 1,
        forall|i: int| 0 <= i < vals.len() ==> clean_value(#[trigger] vals[i]),
    ensures
        split_spec(join_spec(vals, ", "@), ',') == seq![vals[0]] + vals.drop_first().map_values(
            |v: Seq<char>| seq![' '] + v,
        ),
    decreases vals.len(),
{
    reveal_strlit(", ");
    assert(", "@ =~= seq![',', ' ']);
    if vals.len() == 1 {
        assert(clean_value(vals[0]));
        lemma_split_none(vals[0], ',', Seq::empty());
        assert(Seq::<char>::empty() + vals[0] =~= vals[0]);
        assert(vals.drop_first().map_values(|v: Seq<char>| seq![' '] + v) =~= Seq::<Seq<char>>::empty());
        assert(seq![vals[0]] + Seq::<Seq<char>>::empty() =~= seq![vals[0]]);
    } else {
        let init = vals.drop_last();
        let last = vals.last();
        assert forall|i: int| 0 <= i < init.len() implies clean_value(#[trigger] init[i]) by {
            assert(init[i] == vals[i]);
        }
        lemma_split_join(init);
        assert(clean_value(vals[vals.len() - 1]));
        let tail = seq![' '] + last;
        assert(join_spec(vals, ", "@) =~= join_spec(init, ", "@) + seq![','] + tail);
        lemma_split_concat(join_spec(init, ", "@), ',', tail, Seq::empty());
        assert(!tail.contains(',')) by {
            if tail.contains(',') {
                let k = choose|k: int| 0 <= k < tail.len() && tail[k] == ',';
                assert(k > 0);
                assert(last[k - 1] == ',');
                assert(last.contains(','));
            }
        }
        lemma_split_none(tail, ',', Seq::empty());
        assert(Seq::<char>::empty() + tail =~= tail);
        assert(init[0] == vals[0]);
        assert(vals.drop_first().map_values(|v: Seq<char>| seq![' '] + v) =~= init.drop_first().map_values(
            |v: Seq<char>| seq![' '] + v,
        ).push(tail));
        assert((seq![vals[0]] + init.drop_first().map_values(|v: Seq<char>| seq![' '] + v)) + seq![tail] =~= seq![
            vals[0],
        ] + vals.drop_first().map_values(|v: Seq<char>| seq![' '] + v));
    }
}

proof fn lemma_filter_nonempty_all(s: Seq<Seq<char>>)
    requires
        forall|i: int| 0 <= i < s.len() ==> (#[trigger] s[i]).len() > 0,
    ensures
        s.filter(|p: Seq<char>| p.len() > 0) == s,
    decreases s.len(),
{
    reveal(Seq::filter);
    if s.len() > 0 {
        assert forall|i: int| 0 <= i < s.drop_last().len() implies (#[trigger] s.drop_last()[i]).len() > 0 by {
            assert(s.drop_last()[i] == s[i]);
        }
        lemma_filter_nonempty_all(s.drop_last());
        assert(s.last().len() > 0);
        assert(s.drop_last().push(s.last()) =~= s);
    }
}

/// Showing list values in the editor and reading the shown text back gives
/// the same values, when each is non-empty, trimmed and without commas.
pub proof fn law_display_round_trip(vals: Seq<Seq<char>>)
    requires
        forall|i: int| 0 <= i < vals.len() ==> clean_value(#[trigger] vals[i]),
    ensures
        split_values(join_spec(vals, ", "@)) == vals,
{
    if vals.len() == 0 {
        assert(join_spec(vals, ", "@) =~= Seq::<char>::empty());
        lemma_split_values_empty();
    } else {
        lemma_split_join(vals);
        let pieces = split_spec(join_spec(vals, ", "@), ',');
        let trimmed = pieces.map_values(|p: Seq<char>| trim_spec(p));
        assert forall|i: int| 0 <= i < vals.len() implies #[trigger] trimmed[i] == vals[i] by {
            assert(clean_value(vals[i]));
            if i == 0 {
                assert(pieces[0] == vals[0]);
            } else {
                assert(pieces[i] == seq![' '] + vals[i]);
                lemma_trim_space_prefix(vals[i]);
            }
        }
        assert(trimmed =~= vals);
        assert forall|i: int| 0 <= i < vals.len() implies (#[trigger] vals[i]).len() > 0 by {
            assert(clean_value(vals[i]));
        }
        lemma_filter_nonempty_all(vals);
    }
}

/// The search for the issues of a query, `count` at a time from `offset`,
/// with their changelog.
pub fn search_endpoint(count: u32, offset: u32, jql: &str) -> (r: String)
    ensures
        r@ == "search?maxResults="@ + crate::text::decimal_spec(count as nat) + "&startAt="@
            + crate::text::decimal_spec(offset as nat) + "&expand=changelog&jql="@ + jql@,
{
    let mut s = String::from_str("search?maxResults=");
    let c = crate::text::decimal(count as u64);
    s.append(c.as_str());
    s.append("&startAt=");
    let o = crate::text::decimal(offset as u64);
    s.append(o.as_str());
    s.append("&expand=changelog&jql=");
    s.append(jql);
    s
}

/// The search for the issues of a query, `count` at a time from `offset`.
pub open spec fn search_endpoint_spec(count: u32, offset: u32, jql: Seq<char>) -> Seq<char> {
    "search?maxResults="@ + crate::text::decimal_spec(count as nat) + "&startAt="@ + crate::text::decimal_spec(
        offset as nat,
    ) + "&expand=changelog&jql="@ + jql
}

/// The issues of a search answer; none when it has no issue list.
pub open spec fn found_pbis(response: JsonV) -> Seq<crate::pbi::PbiV> {
    let issues = response.idx("issues"@);
    if issues is Array {
        issues.items().map_values(|i: JsonV| crate::pbi::issue_pbi(i))
    } else {
        Seq::empty()
    }
}

/// Reads the issues of a search answer (see [`found_pbis`]).
pub fn pbis_of_search(response: &Json) -> (r: Vec<crate::pbi::Pbi>)
    ensures
        crate::pbi::pbi_views(r@) == found_pbis(response@),
{
    let null = Json::Null;
    let issues = response.at("issues", &null);
    let mut out: Vec<crate::pbi::Pbi> = Vec::new();
    if !issues.is_array() {
        assert(crate::pbi::pbi_views(out@) =~= found_pbis(response@));
        return out;
    }
    let items = issues.items_of();
    let ghost iv = crate::json::view_items(items@);
    proof {
        crate::json::lemma_view_items(items@);
    }
    let mut i: usize = 0;
    while i < items.len()
        invariant
            i <= items@.len(),
            iv == crate::json::view_items(items@),
            iv == response@.idx("issues"@).items(),
            iv.len() == items@.len(),
            forall|k: int| 0 <= k < items@.len() ==> #[trigger] iv[k] == items@[k]@,
            out@.len() == i,
            forall|k: int| 0 <= k < i ==> (#[trigger] out@[k])@ == crate::pbi::issue_pbi(iv[k]),
        decreases items@.len() - i,
    {
        out.push(crate::pbi::pbi_from_json(&items[i]));
        i = i + 1;
    }
    assert(crate::pbi::pbi_views(out@) =~= found_pbis(response@));
    out
}

/// Searches issues with a [`JiraApi`](crate::api::JiraApi).
pub struct DefaultListService<A> {
    pub jira_api: A,
}

impl<A: crate::api::JiraApi> DefaultListService<A> {
    pub fn new(jira_api: A) -> (r: Self)
        ensures
            r.jira_api == jira_api,
    {
        DefaultListService { jira_api }
    }

    /// The issues of the filter's query (its page of `count` from
    /// `offset`), on the API version of the configuration.
    pub fn fetch_with_filter(&self, filter: &ListFilter, doc: &Json) -> (r: Result<Vec<crate::pbi::Pbi>, String>)
        requires
            filter@.readable_in(doc@),
        ensures
            r matches Ok(v) ==> exists|response: JsonV| crate::pbi::pbi_views(v@) == #[trigger] found_pbis(response),
            exists|outcome: Result<JsonV, Seq<char>>|
                #[trigger] self.jira_api.answers_get(
                    search_endpoint_spec(filter@.count, filter@.offset, filter@.jql(doc@)),
                    crate::api::version_of(doc@),
                    outcome,
                ) && match outcome {
                    Ok(response) => r matches Ok(v) && crate::pbi::pbi_views(v@) == found_pbis(response),
                    Err(e) => r matches Err(m) && m@ == e,
                },
    {
        let jql = filter.to_jql(doc);
        let endpoint = search_endpoint(filter.count, filter.offset, jql.as_str());
        let version = crate::api::configured_version(doc);
        let answer = self.jira_api.get(endpoint.as_str(), version);
        assert(endpoint@ == search_endpoint_spec(filter@.count, filter@.offset, filter@.jql(doc@)));
        assert(self.jira_api.answers_get(endpoint@, version, crate::api::json_outcome(answer)));
        match answer {
            Ok(response) => {
                let v = pbis_of_search(&response);
                assert(crate::pbi::pbi_views(v@) == found_pbis(response@));
                Ok(v)
            },
            Err(e) => Err(e),
        }
    }

    /// The issues for the arguments of `jira list`, or the message printed
    /// when the search fails (the command then exits with status 1).
    pub fn list_issues(&self, matches: &ListArgs, doc: &Json) -> (r: Result<Vec<crate::pbi::Pbi>, String>)
        requires
            args_filter(*matches).readable_in(doc@),
        ensures
            r matches Ok(v) ==> exists|response: JsonV| crate::pbi::pbi_views(v@) == #[trigger] found_pbis(response),
            r matches Err(m) ==> "Error searching tickets: "@.is_prefix_of(m@),
            exists|outcome: Result<JsonV, Seq<char>>|
                #[trigger] self.jira_api.answers_get(
                    search_endpoint_spec(args_filter(*matches).count, args_filter(*matches).offset, args_filter(*matches).jql(doc@)),
                    crate::api::version_of(doc@),
                    outcome,
                ) && match outcome {
                    Ok(response) => r matches Ok(v) && crate::pbi::pbi_views(v@) == found_pbis(response),
                    Err(e) => r matches Err(m) && m@ == "Error searching tickets: "@ + e,
                },
    {
        let filter = ListFilter::from_matches(matches);
        let fetched = self.fetch_with_filter(&filter, doc);
        let ghost outcome = choose|outcome: Result<JsonV, Seq<char>>|
            #[trigger] self.jira_api.answers_get(
                search_endpoint_spec(filter@.count, filter@.offset, filter@.jql(doc@)),
                crate::api::version_of(doc@),
                outcome,
            ) && match outcome {
                Ok(response) => fetched matches Ok(v) && crate::pbi::pbi_views(v@) == found_pbis(response),
                Err(e) => fetched matches Err(m) && m@ == e,
            };
        match fetched {
            Ok(v) => Ok(v),
            Err(e) => {
                let mut m = String::from_str("Error searching tickets: ");
                m.append(e.as_str());
                proof {
                    reveal_strlit("Error searching tickets: ");
                    assert(m@.subrange(0, "Error searching tickets: "@.len() as int) =~= "Error searching tickets: "@);
                }
                Err(m)
            },
        }
    }
}

/// Saves the query of `filter` as the alias `alias_name`; the lines that
/// announce it.
pub fn save_filter_alias(doc: &mut Json, alias_name: &str, filter: &ListFilter) -> (r: Vec<String>)
    requires
        filter@.readable_in(old(doc)@),
    ensures
        final(doc)@ == crate::config::with_alias(old(doc)@, alias_name@, filter@.jql(old(doc)@)),
        strs(r@) == seq![
            "Current filter is now set with value "@ + alias_name@,
            "You can use jira list --jql \""@ + alias_name@ + "\" to reuse this filter."@,
        ],
{
    let jql = filter.to_jql(doc);
    crate::config::set_alias(doc, alias_name, jql.as_str());
    let mut a = String::from_str("Current filter is now set with value ");
    a.append(alias_name);
    let mut b = String::from_str("You can use jira list --jql \"");
    b.append(alias_name);
    b.append("\" to reuse this filter.");
    let mut lines: Vec<String> = Vec::new();
    lines.push(a);
    lines.push(b);
    proof {
        reveal_strlit("Current filter is now set with value ");
        reveal_strlit("You can use jira list --jql \"");
        reveal_strlit("\" to reuse this filter.");
        assert(strs(lines@) =~= seq![
            "Current filter is now set with value "@ + alias_name@,
            "You can use jira list --jql \""@ + alias_name@ + "\" to reuse this filter."@,
        ]);
    }
    lines
}

/// A filter that holds only a JQL query (or the alias of one), as
/// `jira list --jql <query>` makes it.
pub open spec fn jql_only(query: Seq<char>, count: u32, offset: u32) -> ListFilterV {
    ListFilterV {
        sprint: Seq::empty(),
        project: Seq::empty(),
        status: Seq::empty(),
        assignee: Seq::empty(),
        component: Seq::empty(),
        labels: Seq::empty(),
        priority: Seq::empty(),
        reporter: Seq::empty(),
        issue_type: Seq::empty(),
        epic: Seq::empty(),
        text: None,
        jql: Some(query),
        me: false,
        count,
        offset,
    }
}

/// A filter saved under an alias is reused by `--jql` with that alias:
/// after the query of `filter` is stored as `alias_name`, the filter that
/// holds only `alias_name` as its query can be read and asks the same
/// query.
pub proof fn law_saved_filter_is_reused(doc: JsonV, alias_name: Seq<char>, filter: ListFilterV, count: u32, offset: u32)
    ensures
        ({
            let saved = crate::config::with_alias(doc, alias_name, filter.jql(doc));
            &&& jql_only(alias_name, count, offset).readable_in(saved)
            &&& jql_only(alias_name, count, offset).jql(saved) == filter.jql(doc)
        }),
{
    let saved = crate::config::with_alias(doc, alias_name, filter.jql(doc));
    crate::config::law_set_alias_then_get(doc, alias_name, filter.jql(doc), alias_name);
    let g = jql_only(alias_name, count, offset);
    assert(g.jql_parts(saved) =~= seq![filter.jql(doc)]);
}

/// An empty text trims to nothing.
proof fn lemma_trim_empty()
    ensures
        trim_spec(Seq::<char>::empty()) == Seq::<char>::empty(),
{
    assert(trim_spec(Seq::<char>::empty()).len() == 0);
}

/// The names of the filter's fields are different from each other.
pub proof fn lemma_field_names_distinct()
    ensures
        "sprint"@ != "project"@,
        "sprint"@ != "status"@,
        "sprint"@ != "assignee"@,
        "sprint"@ != "component"@,
        "sprint"@ != "labels"@,
        "sprint"@ != "priority"@,
        "sprint"@ != "reporter"@,
        "sprint"@ != "type"@,
        "sprint"@ != "epic"@,
        "sprint"@ != "text"@,
        "sprint"@ != "jql"@,
        "project"@ != "status"@,
        "project"@ != "assignee"@,
        "project"@ != "component"@,
        "project"@ != "labels"@,
        "project"@ != "priority"@,
        "project"@ != "reporter"@,
        "project"@ != "type"@,
        "project"@ != "epic"@,
        "project"@ != "text"@,
        "project"@ != "jql"@,
        "status"@ != "assignee"@,
        "status"@ != "component"@,
        "status"@ != "labels"@,
        "status"@ != "priority"@,
        "status"@ != "reporter"@,
        "status"@ != "type"@,
        "status"@ != "epic"@,
        "status"@ != "text"@,
        "status"@ != "jql"@,
        "assignee"@ != "component"@,
        "assignee"@ != "labels"@,
        "assignee"@ != "priority"@,
        "assignee"@ != "reporter"@,
        "assignee"@ != "type"@,
        "assignee"@ != "epic"@,
        "assignee"@ != "text"@,
        "assignee"@ != "jql"@,
        "component"@ != "labels"@,
        "component"@ != "priority"@,
        "component"@ != "reporter"@,
        "component"@ != "type"@,
        "component"@ != "epic"@,
        "component"@ != "text"@,
        "component"@ != "jql"@,
        "labels"@ != "priority"@,
        "labels"@ != "reporter"@,
        "labels"@ != "type"@,
        "labels"@ != "epic"@,
        "labels"@ != "text"@,
        "labels"@ != "jql"@,
        "priority"@ != "reporter"@,
        "priority"@ != "type"@,
        "priority"@ != "epic"@,
        "priority"@ != "text"@,
        "priority"@ != "jql"@,
        "reporter"@ != "type"@,
        "reporter"@ != "epic"@,
        "reporter"@ != "text"@,
        "reporter"@ != "jql"@,
        "type"@ != "epic"@,
        "type"@ != "text"@,
        "type"@ != "jql"@,
        "epic"@ != "text"@,
        "epic"@ != "jql"@,
        "text"@ != "jql"@,
{
    reveal_strlit("sprint");
    assert("sprint"@.len() == 6);
    reveal_strlit("project");
    assert("project"@.len() == 7);
    reveal_strlit("status");
    assert("status"@.len() == 6);
    reveal_strlit("assignee");
    assert("assignee"@.len() == 8);
    reveal_strlit("component");
    assert("component"@.len() == 9);
    reveal_strlit("labels");
    assert("labels"@.len() == 6);
    reveal_strlit("priority");
    assert("priority"@.len() == 8);
    reveal_strlit("reporter");
    assert("reporter"@.len() == 8);
    reveal_strlit("type");
    assert("type"@.len() == 4);
    reveal_strlit("epic");
    assert("epic"@.len() == 4);
    reveal_strlit("text");
    assert("text"@.len() == 4);
    reveal_strlit("jql");
    assert("jql"@.len() == 3);
    assert("sprint"@[1] != "status"@[1]);
    assert("sprint"@[0] != "labels"@[0]);
    assert("status"@[0] != "labels"@[0]);
    assert("assignee"@[0] != "priority"@[0]);
    assert("assignee"@[0] != "reporter"@[0]);
    assert("priority"@[0] != "reporter"@[0]);
    assert("type"@[0] != "epic"@[0]);
    assert("type"@[1] != "text"@[1]);
    assert("epic"@[0] != "text"@[0]);
}

/// Setting a field from the text the editor shows for it leaves the filter
/// as it was, where the field reads back from its display (see
/// [`ListFilterV::field_clean`]).
pub proof fn law_set_display_keeps_filter(f: ListFilterV, key: Seq<char>)
    requires
        f.field_clean(key),
    ensures
        f.set_text(key, f.display(key)) == f,
{
    lemma_field_names_distinct();
    lemma_split_values_empty();
    lemma_trim_empty();
    match f.multi_field(key) {
        Some(vals) => {
            law_display_round_trip(vals);
        },
        None => {
            match f.single_field(key) {
                Some(Some(t)) => {},
                _ => {},
            }
        },
    }
}

/// Whether `needle` occurs in `hay`.
pub open spec fn text_contains(hay: Seq<char>, needle: Seq<char>) -> bool {
    exists|k: int| 0 <= k && k + needle.len() <= hay.len() && #[trigger] hay.subrange(k, k + needle.len()) == needle
}

/// The JQL name of a list field of the filter.
pub open spec fn jql_field(key: Seq<char>) -> Seq<char> {
    if key == "type"@ {
        "issuetype"@
    } else if key == "epic"@ {
        "\"epic link\""@
    } else {
        key
    }
}

/// The clause `name in ("v1",...,"vn")` that accepts the values `vals`,
/// each alias resolved.
pub open spec fn value_clause(name: Seq<char>, vals: Seq<Seq<char>>, doc: JsonV) -> Seq<char> {
    name + " in ("@ + join_spec(vals.map_values(|v: Seq<char>| "\""@ + alias_or(doc, v) + "\""@), ","@) + ")"@
}

/// A sequence holds `x` when one of two joined parts does.
proof fn lemma_concat_contains<A>(a: Seq<A>, b: Seq<A>, x: A)
    ensures
        (a + b).contains(x) == (a.contains(x) || b.contains(x)),
{
    if a.contains(x) {
        let i = choose|i: int| 0 <= i < a.len() && a[i] == x;
        assert((a + b)[i] == x);
    }
    if b.contains(x) {
        let i = choose|i: int| 0 <= i < b.len() && b[i] == x;
        assert((a + b)[a.len() + i] == x);
    }
    if (a + b).contains(x) {
        let i = choose|i: int| 0 <= i < (a + b).len() && (a + b)[i] == x;
        if i < a.len() {
            assert(a[i] == x);
        } else {
            assert(b[i - a.len()] == x);
        }
    }
}

/// Each part of a joined text occurs in it.
proof fn lemma_join_contains(parts: Seq<Seq<char>>, sep: Seq<char>, x: Seq<char>)
    requires
        parts.contains(x),
    ensures
        text_contains(join_spec(parts, sep), x),
    decreases parts.len(),
{
    let j = join_spec(parts, sep);
    if parts.len() == 1 {
        let i = choose|i: int| 0 <= i < parts.len() && parts[i] == x;
        assert(i == 0);
        assert(j == x);
        let z: int = 0;
        assert(j.subrange(z, z + x.len()) =~= x);
        assert(text_contains(j, x));
    } else {
        let init = join_spec(parts.drop_last(), sep);
        assert(j == init + sep + parts.last());
        if parts.last() == x {
            let k: int = (init.len() + sep.len()) as int;
            assert(j.subrange(k, k + x.len()) =~= x);
            assert(text_contains(j, x));
        } else {
            let i = choose|i: int| 0 <= i < parts.len() && parts[i] == x;
            assert(parts.drop_last()[i] == x);
            lemma_join_contains(parts.drop_last(), sep, x);
            let k = choose|k: int| 0 <= k && k + x.len() <= init.len() && #[trigger] init.subrange(k, k + x.len()) == x;
            assert(j.subrange(k, k + x.len()) =~= init.subrange(k, k + x.len()));
            assert(text_contains(j, x));
        }
    }
}

/// The clause of a list field as the query writes it is `value_clause`.
proof fn lemma_in_clause_is_value_clause(name: Seq<char>, vals: Seq<Seq<char>>, doc: JsonV)
    requires
        vals.len() > 0,
    ensures
        in_clause(name, vals, doc) == seq![value_clause(name, vals, doc)],
{
    assert(vals.map_values(|v: Seq<char>| quoted_alias(doc, v)) =~= vals.map_values(
        |v: Seq<char>| "\""@ + alias_or(doc, v) + "\""@,
    ));
}

/// Every list field of a filter that holds values restricts the query: it
/// holds the clause `<field> in ("v1",...,"vn")` for those values, each
/// alias resolved (`type` is asked as `issuetype`, `epic` as
/// `"epic link"`).
pub proof fn law_list_fields_restrict_the_query(f: ListFilterV, doc: JsonV, key: Seq<char>)
    requires
        f.multi_field(key) is Some,
        f.multi_field(key)->0.len() > 0,
    ensures
        text_contains(f.jql(doc), value_clause(jql_field(key), f.multi_field(key)->0, doc)),
{
    lemma_field_names_distinct();
    reveal_strlit("issuetype");
    reveal_strlit("\"epic link\"");
    let vs = f.multi_field(key)->0;
    let c = value_clause(jql_field(key), vs, doc);
    lemma_in_clause_is_value_clause(jql_field(key), vs, doc);
    let me_part = if f.me {
        seq!["assignee = currentUser()"@]
    } else {
        Seq::<Seq<char>>::empty()
    };
    let p1 = in_clause("sprint"@, f.sprint, doc);
    let p2 = in_clause("project"@, f.project, doc);
    let p3 = in_clause("status"@, f.status, doc);
    let p4 = in_clause("assignee"@, f.assignee, doc);
    let p5 = in_clause("component"@, f.component, doc);
    let p6 = in_clause("labels"@, f.labels, doc);
    let p7 = in_clause("priority"@, f.priority, doc);
    let p8 = in_clause("reporter"@, f.reporter, doc);
    let p9 = in_clause("issuetype"@, f.issue_type, doc);
    let p10 = in_clause("\"epic link\""@, f.epic, doc);
    let tail = (match f.text {
        Some(t) => seq!["text ~ \""@ + alias_or(doc, t) + "\""@],
        None => Seq::<Seq<char>>::empty(),
    }) + (match f.jql {
        Some(j) => seq![alias_or(doc, j)],
        None => Seq::<Seq<char>>::empty(),
    });
    let parts = f.jql_parts(doc);
    let a1 = me_part + p1;
    let a2 = a1 + p2;
    let a3 = a2 + p3;
    let a4 = a3 + p4;
    let a5 = a4 + p5;
    let a6 = a5 + p6;
    let a7 = a6 + p7;
    let a8 = a7 + p8;
    let a9 = a8 + p9;
    let a10 = a9 + p10;
    assert(parts == a10 + tail);
    let ps = seq![p1, p2, p3, p4, p5, p6, p7, p8, p9, p10];
    let idx: int = if key == "sprint"@ {
        0
    } else if key == "project"@ {
        1
    } else if key == "status"@ {
        2
    } else if key == "assignee"@ {
        3
    } else if key == "component"@ {
        4
    } else if key == "labels"@ {
        5
    } else if key == "priority"@ {
        6
    } else if key == "reporter"@ {
        7
    } else if key == "type"@ {
        8
    } else {
        9
    };
    assert(ps[idx] == seq![c]);
    assert(seq![c].contains(c)) by {
        assert(seq![c][0] == c);
    }
    lemma_concat_contains(me_part, p1, c);
    lemma_concat_contains(a1, p2, c);
    lemma_concat_contains(a2, p3, c);
    lemma_concat_contains(a3, p4, c);
    lemma_concat_contains(a4, p5, c);
    lemma_concat_contains(a5, p6, c);
    lemma_concat_contains(a6, p7, c);
    lemma_concat_contains(a7, p8, c);
    lemma_concat_contains(a8, p9, c);
    lemma_concat_contains(a9, p10, c);
    lemma_concat_contains(a10, tail, c);
    assert(parts.contains(c));
    lemma_join_contains(parts, " AND "@, c);
}

/// A filter whose only restriction is one list field asks exactly that
/// field's clause: with only labels `x`, the query is `labels in ("x")`.
pub proof fn law_one_field_is_the_whole_query(f: ListFilterV, doc: JsonV, key: Seq<char>)
    requires
        f.multi_field(key) is Some,
        f.multi_field(key)->0.len() > 0,
        !f.me,
        f.text is None,
        f.jql is None,
        forall|other: Seq<char>|
            other != key && f.multi_field(other) is Some ==> (#[trigger] f.multi_field(other))->0.len() == 0,
    ensures
        f.jql(doc) == value_clause(jql_field(key), f.multi_field(key)->0, doc),
{
    lemma_field_names_distinct();
    reveal_strlit("issuetype");
    reveal_strlit("\"epic link\"");
    let vs = f.multi_field(key)->0;
    let c = value_clause(jql_field(key), vs, doc);
    lemma_in_clause_is_value_clause(jql_field(key), vs, doc);
    assert(f.multi_field("sprint"@) is Some);
    assert(f.multi_field("project"@) is Some);
    assert(f.multi_field("status"@) is Some);
    assert(f.multi_field("assignee"@) is Some);
    assert(f.multi_field("component"@) is Some);
    assert(f.multi_field("labels"@) is Some);
    assert(f.multi_field("priority"@) is Some);
    assert(f.multi_field("reporter"@) is Some);
    assert(f.multi_field("type"@) is Some);
    assert(f.multi_field("epic"@) is Some);
    assert(f.jql_parts(doc) =~= seq![c]);
}

/// The filter of `jira list` takes each list, text and flag as given, at
/// most `--count` results (50 when it is absent or not a number) from
/// result `--offset` (0 when it is absent or not a number).
pub proof fn law_arguments_make_the_filter(m: ListArgs)
    ensures
        args_filter(m).count == (match m.count {
            Some(t) => match crate::text::u32_text(t@) {
                Some(n) => n,
                None => 50u32,
            },
            None => 50u32,
        }),
        args_filter(m).offset == (match m.offset {
            Some(t) => match crate::text::u32_text(t@) {
                Some(n) => n,
                None => 0u32,
            },
            None => 0u32,
        }),
        args_filter(m).sprint == strs(m.sprint@),
        args_filter(m).project == strs(m.project@),
        args_filter(m).status == strs(m.status@),
        args_filter(m).assignee == strs(m.assignee@),
        args_filter(m).component == strs(m.component@),
        args_filter(m).labels == strs(m.labels@),
        args_filter(m).priority == strs(m.priority@),
        args_filter(m).reporter == strs(m.reporter@),
        args_filter(m).issue_type == strs(m.issue_type@),
        args_filter(m).epic == strs(m.epic@),
        args_filter(m).text == opt_view(m.text),
        args_filter(m).jql == opt_view(m.jql),
        args_filter(m).me == m.me,
{
}

/// The other restrictions of a filter are in its query too: "assigned to
/// me" as `assignee = currentUser()`, a text as `text ~ "<text>"`, and a
/// JQL query (or the query its alias stands for) as it is.
pub proof fn law_other_restrictions_in_the_query(f: ListFilterV, doc: JsonV)
    ensures
        f.me ==> text_contains(f.jql(doc), "assignee = currentUser()"@),
        f.text matches Some(t) ==> text_contains(f.jql(doc), "text ~ \""@ + alias_or(doc, t) + "\""@),
        f.jql matches Some(j) ==> text_contains(f.jql(doc), alias_or(doc, j)),
{
    let me_part = if f.me {
        seq!["assignee = currentUser()"@]
    } else {
        Seq::<Seq<char>>::empty()
    };
    let a10 = me_part + in_clause("sprint"@, f.sprint, doc) + in_clause("project"@, f.project, doc) + in_clause(
        "status"@,
        f.status,
        doc,
    ) + in_clause("assignee"@, f.assignee, doc) + in_clause("component"@, f.component, doc) + in_clause(
        "labels"@,
        f.labels,
        doc,
    ) + in_clause("priority"@, f.priority, doc) + in_clause("reporter"@, f.reporter, doc) + in_clause(
        "issuetype"@,
        f.issue_type,
        doc,
    ) + in_clause("\"epic link\""@, f.epic, doc);
    let tp = match f.text {
        Some(t) => seq!["text ~ \""@ + alias_or(doc, t) + "\""@],
        None => Seq::<Seq<char>>::empty(),
    };
    let jp = match f.jql {
        Some(j) => seq![alias_or(doc, j)],
        None => Seq::<Seq<char>>::empty(),
    };
    let parts = f.jql_parts(doc);
    assert(parts == a10 + tp + jp);
    if f.me {
        let x = "assignee = currentUser()"@;
        assert(me_part[0] == x);
        assert(a10[0] == x);
        lemma_concat_contains(a10, tp, x);
        lemma_concat_contains(a10 + tp, jp, x);
        lemma_join_contains(parts, " AND "@, x);
    }
    if let Some(t) = f.text {
        let x = "text ~ \""@ + alias_or(doc, t) + "\""@;
        assert(tp[0] == x);
        lemma_concat_contains(a10, tp, x);
        lemma_concat_contains(a10 + tp, jp, x);
        lemma_join_contains(parts, " AND "@, x);
    }
    if let Some(j) = f.jql {
        let x = alias_or(doc, j);
        assert(jp[0] == x);
        lemma_concat_contains(a10 + tp, jp, x);
        lemma_join_contains(parts, " AND "@, x);
    }
}

} // verus!
