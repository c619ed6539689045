//! The configuration document: its typed reading, alias lookup and the
//! edits that the `config` and `alias` commands make to it. Reading and
//! writing the file itself happens around these functions.

use vstd::prelude::*;
use crate::json::{Json, JsonV, opt_view, lemma_with_member_idx, lemma_without_member_idx, view_members, lemma_view_members, json_text_value, json_pretty_text, json_display_text, opt_json_view, parse_json_text, stringify_pretty, display};
use crate::text::{to_lowercase, unicode_lowercase, trim, trim_spec};

verus! {

/// The settings of the configuration file, in typed fields.
pub struct JiraConfig {
    pub namespace: String,
    pub email: String,
    pub token: String,
    pub auth_mode: String,
    pub account_id: String,
    pub board_id: Option<String>,
    pub jira_version: Option<String>,
    /// Alias table, short name to full status name; a later pair with the
    /// same name replaces an earlier one.
    pub alias: Vec<(String, String)>,
    /// Transition ids: project code to (transition name to id); a later
    /// pair with the same name replaces an earlier one.
    pub transitions: Vec<(String, Vec<(String, i64)>)>,
}

/// The map that a list of text pairs stands for (later pairs win).
pub open spec fn pairs_map(s: Seq<(String, String)>) -> Map<Seq<char>, Seq<char>>
    decreases s.len(),
{
    if s.len() == 0 {
        Map::empty()
    } else {
        pairs_map(s.drop_last()).insert(s.last().0@, s.last().1@)
    }
}

/// The map that a list of named ids stands for (later pairs win).
pub open spec fn ids_map(s: Seq<(String, i64)>) -> Map<Seq<char>, i64>
    decreases s.len(),
{
    if s.len() == 0 {
        Map::empty()
    } else {
        ids_map(s.drop_last()).insert(s.last().0@, s.last().1)
    }
}

/// The map that a list of per-project id lists stands for.
pub open spec fn transitions_map(s: Seq<(String, Vec<(String, i64)>)>) -> Map<Seq<char>, Map<Seq<char>, i64>>
    decreases s.len(),
{
    if s.len() == 0 {
        Map::empty()
    } else {
        transitions_map(s.drop_last()).insert(s.last().0@, ids_map(s.last().1@))
    }
}

/// The position of the last pair named `key`, if any.
pub open spec fn last_index<V>(s: Seq<(String, V)>, key: Seq<char>) -> Option<int>
    decreases s.len(),
{
    if s.len() == 0 {
        None
    } else if s.last().0@ == key {
        Some(s.len() - 1)
    } else {
        last_index(s.drop_last(), key)
    }
}

/// The names of a list of pairs, in order.
pub open spec fn pair_names<V>(s: Seq<(String, V)>) -> Seq<Seq<char>> {
    s.map_values(|p: (String, V)| p.0@)
}

/// The last pair named `key` is found exactly when some pair has that
/// name, and it has that name.
pub proof fn lemma_last_index<V>(s: Seq<(String, V)>, key: Seq<char>)
    ensures
        last_index(s, key) is Some <==> pair_names(s).contains(key),
        last_index(s, key) matches Some(i) ==> 0 <= i < s.len() && s[i].0@ == key,
    decreases s.len(),
{
    if s.len() > 0 {
        lemma_last_index(s.drop_last(), key);
        if s.last().0@ == key {
            assert(pair_names(s)[s.len() - 1] == key);
        } else {
            if pair_names(s).contains(key) {
                let k = choose|k: int| 0 <= k < pair_names(s).len() && pair_names(s)[k] == key;
                assert(pair_names(s.drop_last())[k] == key);
            }
            if pair_names(s.drop_last()).contains(key) {
                let k = choose|k: int| 0 <= k < pair_names(s.drop_last()).len() && pair_names(s.drop_last())[k] == key;
                assert(pair_names(s)[k] == key);
            }
        }
    }
}

/// A list of text pairs maps each name to the text of its last pair.
pub proof fn lemma_pairs_map_last(s: Seq<(String, String)>, key: Seq<char>)
    ensures
        pairs_map(s).dom().contains(key) <==> last_index(s, key) is Some,
        last_index(s, key) matches Some(i) ==> pairs_map(s)[key] == s[i].1@,
    decreases s.len(),
{
    lemma_last_index(s, key);
    if s.len() > 0 {
        lemma_pairs_map_last(s.drop_last(), key);
        lemma_last_index(s.drop_last(), key);
        if let Some(i) = last_index(s.drop_last(), key) {
            assert(s.drop_last()[i] == s[i]);
        }
    }
}

/// A list of named ids maps each name to the id of its last pair.
pub proof fn lemma_ids_map_last(s: Seq<(String, i64)>, key: Seq<char>)
    ensures
        ids_map(s).dom().contains(key) <==> last_index(s, key) is Some,
        last_index(s, key) matches Some(i) ==> ids_map(s)[key] == s[i].1,
    decreases s.len(),
{
    lemma_last_index(s, key);
    if s.len() > 0 {
        lemma_ids_map_last(s.drop_last(), key);
        lemma_last_index(s.drop_last(), key);
        if let Some(i) = last_index(s.drop_last(), key) {
            assert(s.drop_last()[i] == s[i]);
        }
    }
}

/// A list of per-project tables maps each project to its last table.
pub proof fn lemma_transitions_map_last(s: Seq<(String, Vec<(String, i64)>)>, key: Seq<char>)
    ensures
        transitions_map(s).dom().contains(key) <==> last_index(s, key) is Some,
        last_index(s, key) matches Some(i) ==> transitions_map(s)[key] == ids_map(s[i].1@),
    decreases s.len(),
{
    lemma_last_index(s, key);
    if s.len() > 0 {
        lemma_transitions_map_last(s.drop_last(), key);
        lemma_last_index(s.drop_last(), key);
        if let Some(i) = last_index(s.drop_last(), key) {
            assert(s.drop_last()[i] == s[i]);
        }
    }
}

/// Finds the last pair named `key`.
pub fn find_last<V>(pairs: &[(String, V)], key: &str) -> (r: Option<usize>)
    ensures
        match r {
            Some(i) => last_index(pairs@, key@) == Some(i as int),
            None => last_index(pairs@, key@) is None,
        },
{
    let mut i: usize = pairs.len();
    proof {
        assert(pairs@.take(pairs@.len() as int) =~= pairs@);
    }
    while i > 0
        invariant
            i <= pairs@.len(),
            last_index(pairs@, key@) == last_index(pairs@.take(i as int), key@),
        decreases i,
    {
        proof {
            let t = pairs@.take(i as int);
            assert(t.drop_last() =~= pairs@.take(i - 1));
            assert(t.last() == pairs@[i - 1]);
        }
        if crate::text::str_eq(pairs[i - 1].0.as_str(), key) {
            return Some(i - 1);
        }
        i = i - 1;
    }
    proof {
        assert(pairs@.take(0).len() == 0);
    }
    None
}

/// The names of a list of pairs.
pub fn names_of_pairs<V>(pairs: &[(String, V)]) -> (r: Vec<String>)
    ensures
        crate::text::strs(r@) == pair_names(pairs@),
{
    let mut out: Vec<String> = Vec::new();
    let mut i: usize = 0;
    while i < pairs.len()
        invariant
            i <= pairs@.len(),
            out@.len() == i,
            forall|k: int| 0 <= k < i ==> (#[trigger] out@[k])@ == pairs@[k].0@,
        decreases pairs@.len() - i,
    {
        out.push(pairs[i].0.clone());
        i = i + 1;
    }
    assert(crate::text::strs(out@) =~= pair_names(pairs@));
    out
}

/// The string-valued members of an object, as a map.
pub open spec fn text_entries(m: Seq<(Seq<char>, JsonV)>) -> Map<Seq<char>, Seq<char>>
    decreases m.len(),
{
    if m.len() == 0 {
        Map::empty()
    } else {
        match m.last().1 {
            JsonV::Str(v) => text_entries(m.drop_last()).insert(m.last().0, v),
            _ => text_entries(m.drop_last()),
        }
    }
}

/// The integer-valued members of an object, as a map.
pub open spec fn id_entries(m: Seq<(Seq<char>, JsonV)>) -> Map<Seq<char>, i64>
    decreases m.len(),
{
    if m.len() == 0 {
        Map::empty()
    } else {
        match m.last().1.i64_of() {
            Some(n) => id_entries(m.drop_last()).insert(m.last().0, n),
            None => id_entries(m.drop_last()),
        }
    }
}

/// Every member of an object, read as a table of transition ids.
pub open spec fn transition_entries(m: Seq<(Seq<char>, JsonV)>) -> Map<Seq<char>, Map<Seq<char>, i64>>
    decreases m.len(),
{
    if m.len() == 0 {
        Map::empty()
    } else {
        transition_entries(m.drop_last()).insert(m.last().0, id_entries(m.last().1.members()))
    }
}

/// The string member `key` of `doc`, or `default`.
fn member_str_or(doc: &Json, key: &str, default: &str) -> (r: String)
    ensures
        r@ == doc@.idx(key@).str_or(default@),
{
    match doc.get(key) {
        Some(v) => match v.as_string() {
            Some(s) => s,
            None => default.to_owned(),
        },
        None => default.to_owned(),
    }
}

/// The string member `key` of `doc`, if it is one.
fn member_str(doc: &Json, key: &str) -> (r: Option<String>)
    ensures
        opt_view(r) == doc@.idx(key@).str_of(),
{
    match doc.get(key) {
        Some(v) => v.as_string(),
        None => None,
    }
}

/// The string-valued members of an object value, in order.
fn text_pairs(v: &Json) -> (r: Vec<(String, String)>)
    ensures
        pairs_map(r@) == text_entries(v@.members()),
{
    let m = v.members_of();
    let ghost mv = view_members(m@);
    proof {
        lemma_view_members(m@);
    }
    let mut out: Vec<(String, String)> = Vec::new();
    let mut i: usize = 0;
    while i < m.len()
        invariant
            mv == view_members(m@),
            mv == v@.members(),
            mv.len() == m@.len(),
            forall|j: int| 0 <= j < m@.len() ==> #[trigger] mv[j] == (m@[j].0@, m@[j].1@),
            i <= m@.len(),
            pairs_map(out@) == text_entries(mv.take(i as int)),
        decreases m@.len() - i,
    {
        assert(mv.take(i + 1).drop_last() =~= mv.take(i as int));
        assert(mv.take(i + 1).last() == mv[i as int]);
        match m[i].1.as_string() {
            Some(s) => {
                let ghost before = out@;
                out.push((m[i].0.clone(), s));
                assert(out@.drop_last() =~= before);
            },
            None => {},
        }
        i = i + 1;
    }
    assert(mv.take(m@.len() as int) =~= mv);
    out
}

/// The integer-valued members of an object value, in order.
#[verifier::rlimit(40)]
fn id_pairs(v: &Json) -> (r: Vec<(String, i64)>)
    ensures
        ids_map(r@) == id_entries(v@.members()),
{
    let m = v.members_of();
    let ghost mv = view_members(m@);
    proof {
        lemma_view_members(m@);
    }
    let mut out: Vec<(String, i64)> = Vec::new();
    let mut i: usize = 0;
    while i < m.len()
        invariant
            mv == view_members(m@),
            mv == v@.members(),
            mv.len() == m@.len(),
            forall|j: int| 0 <= j < m@.len() ==> #[trigger] mv[j] == (m@[j].0@, m@[j].1@),
            i <= m@.len(),
            ids_map(out@) == id_entries(mv.take(i as int)),
        decreases m@.len() - i,
    {
        assert(mv.take(i + 1).drop_last() =~= mv.take(i as int));
        assert(mv.take(i + 1).last() == mv[i as int]);
        match m[i].1.as_i64() {
            Some(n) => {
                let ghost before = out@;
                out.push((m[i].0.clone(), n));
                assert(out@.drop_last() =~= before);
            },
            None => {},
        }
        i = i + 1;
    }
    assert(mv.take(m@.len() as int) =~= mv);
    out
}

/// Every member of an object value, read as a table of transition ids.
fn transition_tables(v: &Json) -> (r: Vec<(String, Vec<(String, i64)>)>)
    ensures
        transitions_map(r@) == transition_entries(v@.members()),
{
    let m = v.members_of();
    let ghost mv = view_members(m@);
    proof {
        lemma_view_members(m@);
    }
    let mut out: Vec<(String, Vec<(String, i64)>)> = Vec::new();
    let mut i: usize = 0;
    while i < m.len()
        invariant
            mv == view_members(m@),
            mv == v@.members(),
            mv.len() == m@.len(),
            forall|j: int| 0 <= j < m@.len() ==> #[trigger] mv[j] == (m@[j].0@, m@[j].1@),
            i <= m@.len(),
            transitions_map(out@) == transition_entries(mv.take(i as int)),
        decreases m@.len() - i,
    {
        assert(mv.take(i + 1).drop_last() =~= mv.take(i as int));
        assert(mv.take(i + 1).last() == mv[i as int]);
        let inner = id_pairs(&m[i].1);
        let ghost before = out@;
        out.push((m[i].0.clone(), inner));
        assert(out@.drop_last() =~= before);
        i = i + 1;
    }
    assert(mv.take(m@.len() as int) =~= mv);
    out
}

impl JiraConfig {
    /// Reads the settings from the configuration document. Missing text
    /// settings read as empty (the authentication mode as `Basic`); alias
    /// members that are not strings and transition ids that are not
    /// integers are left out.
    pub fn load(doc: &Json) -> (r: JiraConfig)
        ensures
            r.namespace@ == doc@.idx("namespace"@).str_or(""@),
            r.email@ == doc@.idx("email"@).str_or(""@),
            r.token@ == doc@.idx("token"@).str_or(""@),
            r.auth_mode@ == doc@.idx("auth_mode"@).str_or("Basic"@),
            r.account_id@ == doc@.idx("account_id"@).str_or(""@),
            opt_view(r.board_id) == doc@.idx("board-id"@).str_of(),
            opt_view(r.jira_version) == doc@.idx("jira-version"@).str_of(),
            pairs_map(r.alias@) == text_entries(doc@.idx("alias"@).members()),
            transitions_map(r.transitions@) == transition_entries(doc@.idx("transitions"@).members()),
    {
        let alias = match doc.get("alias") {
            Some(a) => text_pairs(a),
            None => {
                let v: Vec<(String, String)> = Vec::new();
                v
            },
        };
        let transitions = match doc.get("transitions") {
            Some(t) => transition_tables(t),
            None => {
                let v: Vec<(String, Vec<(String, i64)>)> = Vec::new();
                v
            },
        };
        JiraConfig {
            namespace: member_str_or(doc, "namespace", ""),
            email: member_str_or(doc, "email", ""),
            token: member_str_or(doc, "token", ""),
            auth_mode: member_str_or(doc, "auth_mode", "Basic"),
            account_id: member_str_or(doc, "account_id", ""),
            board_id: member_str(doc, "board-id"),
            jira_version: member_str(doc, "jira-version"),
            alias,
            transitions,
        }
    }
}

impl Default for JiraConfig {
    /// Empty settings with `Basic` authentication and no aliases or
    /// transitions.
    fn default() -> (r: JiraConfig)
        ensures
            r.namespace@ == Seq::<char>::empty(),
            r.email@ == Seq::<char>::empty(),
            r.token@ == Seq::<char>::empty(),
            r.auth_mode@ == "Basic"@,
            r.account_id@ == Seq::<char>::empty(),
            r.board_id is None,
            r.jira_version is None,
            r.alias@.len() == 0,
            r.transitions@.len() == 0,
    {
        JiraConfig {
            namespace: String::new(),
            email: String::new(),
            token: String::new(),
            auth_mode: "Basic".to_owned(),
            account_id: String::new(),
            board_id: None,
            jira_version: None,
            alias: Vec::new(),
            transitions: Vec::new(),
        }
    }
}

/// The member stored for an alias: aliases are stored lowercased.
pub open spec fn alias_entry(doc: JsonV, alias: Seq<char>) -> JsonV {
    doc.idx("alias"@).idx(unicode_lowercase(alias))
}

/// Whether an alias can be read: its member is absent, `null` or a string.
pub open spec fn alias_readable(doc: JsonV, alias: Seq<char>) -> bool {
    alias_entry(doc, alias) is Null || alias_entry(doc, alias) is Str
}

/// What an alias stands for: its stored value, or the alias itself.
pub open spec fn alias_or(doc: JsonV, alias: Seq<char>) -> Seq<char> {
    alias_entry(doc, alias).str_or(alias)
}

/// The document after `alias` (lowercased) was set to `value`.
pub open spec fn with_alias(doc: JsonV, alias: Seq<char>, value: Seq<char>) -> JsonV {
    doc.with_member("alias"@, doc.idx("alias"@).with_member(unicode_lowercase(alias), JsonV::Str(value)))
}

/// The document after `alias` (lowercased) was removed.
pub open spec fn without_alias(doc: JsonV, alias: Seq<char>) -> JsonV {
    doc.with_member("alias"@, doc.idx("alias"@).without_member(unicode_lowercase(alias)))
}

/// The document after the transition table of `project` was replaced.
pub open spec fn with_transitions(doc: JsonV, project: Seq<char>, table: JsonV) -> JsonV {
    doc.with_member("transitions"@, doc.idx("transitions"@).with_member(project, table))
}

/// Reads the configuration text (`json::parse`); `None` where it is not
/// valid JSON.
pub fn parse_config(text: &str) -> (r: Option<Json>)
    ensures
        opt_json_view(r) == json_text_value(text@),
{
    parse_json_text(text)
}

/// The text written to the configuration file: the document pretty-printed
/// with four spaces.
pub fn config_text(doc: &Json) -> (r: String)
    ensures
        r@ == json_pretty_text(doc@, 4),
{
    stringify_pretty(doc, 4)
}

/// The setting `key` if it is a string, empty otherwise.
pub fn get_config(doc: &Json, config: &str) -> (r: String)
    ensures
        r@ == doc@.idx(config@).str_or(""@),
{
    member_str_or(doc, config, "")
}

/// The setting `key` if it is a string, `default` otherwise.
pub fn get_config_or(doc: &Json, key: &str, default: &str) -> (r: String)
    ensures
        r@ == doc@.idx(key@).str_or(default@),
{
    member_str_or(doc, key, default)
}

/// Sets the setting `key` to the string `value`.
pub fn update_config(doc: &mut Json, key: &str, value: &str)
    ensures
        final(doc)@ == old(doc)@.with_member(key@, JsonV::Str(value@)),
{
    doc.set(key, Json::Str(value.to_owned()));
}

/// Sets the setting `key` to the value `value`.
pub fn update_config_object(doc: &mut Json, key: &str, value: Json)
    ensures
        final(doc)@ == old(doc)@.with_member(key@, value@),
{
    doc.set(key, value);
}

/// A copy of the member `key` of `doc` (`null` where there is none).
fn member_copy(doc: &Json, key: &str) -> (r: Json)
    ensures
        r@ == doc@.idx(key@),
{
    match doc.get(key) {
        Some(v) => v.deep_clone(),
        None => Json::Null,
    }
}

/// Whether `get_alias` can read `alias`: its stored member is absent,
/// `null` or a string.
pub fn can_read_alias(doc: &Json, alias: &str) -> (r: bool)
    ensures
        r == alias_readable(doc@, alias@),
{
    let key = to_lowercase(alias);
    match doc.get("alias") {
        Some(table) => match table.get(key.as_str()) {
            Some(v) => v.is_null() || v.is_string(),
            None => true,
        },
        None => true,
    }
}

/// The value stored for `alias` (looked up lowercased), if there is one.
pub fn get_alias(doc: &Json, alias: &str) -> (r: Option<String>)
    requires
        alias_readable(doc@, alias@),
    ensures
        opt_view(r) == alias_entry(doc@, alias@).str_of(),
        r is None <==> alias_entry(doc@, alias@) is Null,
{
    let key = to_lowercase(alias);
    match doc.get("alias") {
        Some(table) => match table.get(key.as_str()) {
            Some(v) => v.as_string(),
            None => None,
        },
        None => None,
    }
}

/// The value stored for `alias`, or `alias` itself when there is none.
pub fn get_alias_or(doc: &Json, alias: &str) -> (r: String)
    requires
        alias_readable(doc@, alias@),
    ensures
        r@ == alias_or(doc@, alias@),
{
    match get_alias(doc, alias) {
        Some(x) => x,
        None => alias.to_owned(),
    }
}

/// Stores `value` for `alias` (lowercased).
pub fn set_alias(doc: &mut Json, alias: &str, value: &str)
    ensures
        final(doc)@ == with_alias(old(doc)@, alias@, value@),
{
    let key = to_lowercase(alias);
    let mut table = member_copy(doc, "alias");
    table.set(key.as_str(), Json::Str(value.to_owned()));
    doc.set("alias", table);
}

/// Removes `alias` (lowercased) and returns the line that announces it,
/// which shows the value stored under `alias` as written.
pub fn remove_alias(doc: &mut Json, alias: &str) -> (r: String)
    ensures
        final(doc)@ == without_alias(old(doc)@, alias@),
        r@ == "Removing alias ("@ + alias@ + ") with value: "@ + json_display_text(
            old(doc)@.idx("alias"@).idx(alias@),
        ),
{
    let mut table = member_copy(doc, "alias");
    let shown = member_copy(&table, alias);
    let mut line = "Removing alias (".to_owned();
    line.append(alias);
    line.append(") with value: ");
    let text = display(&shown);
    line.append(text.as_str());
    let key = to_lowercase(alias);
    table.remove(key.as_str());
    doc.set("alias", table);
    line
}

/// Replaces the transition table of `project_code`.
pub fn set_transitions(doc: &mut Json, project_code: &str, transitions: Json)
    ensures
        final(doc)@ == with_transitions(old(doc)@, project_code@, transitions@),
{
    let mut table = member_copy(doc, "transitions");
    table.set(project_code, transitions);
    doc.set("transitions", table);
}

/// The transition table of `project_code` (`null` where there is none).
pub fn get_transitions(doc: &Json, project_code: &str) -> (r: Json)
    ensures
        r@ == doc@.idx("transitions"@).idx(project_code@),
{
    let table = member_copy(doc, "transitions");
    member_copy(&table, project_code)
}

/// Whether a transition id is stored for `transition_name` of `project_code`.
pub fn transition_exists(doc: &Json, project_code: &str, transition_name: &str) -> (r: bool)
    ensures
        r == !(doc@.idx("transitions"@).idx(project_code@).idx(transition_name@) is Null),
{
    let table = get_transitions(doc, project_code);
    match table.get(transition_name) {
        Some(v) => !v.is_null(),
        None => false,
    }
}

/// Every alias with its value as text (empty where it is not a string), in
/// the order of the file.
pub fn list_all_alias(doc: &Json) -> (r: Vec<(String, String)>)
    ensures
        r@.len() == doc@.idx("alias"@).members().len(),
        forall|i: int| 0 <= i < r@.len() ==> (#[trigger] r@[i]).0@ == doc@.idx("alias"@).members()[i].0
            && r@[i].1@ == doc@.idx("alias"@).members()[i].1.str_or(""@),
{
    let table = member_copy(doc, "alias");
    let m = table.members_of();
    proof {
        lemma_view_members(m@);
    }
    let mut out: Vec<(String, String)> = Vec::new();
    let mut i: usize = 0;
    while i < m.len()
        invariant
            view_members(m@) == doc@.idx("alias"@).members(),
            view_members(m@).len() == m@.len(),
            forall|j: int| 0 <= j < m@.len() ==> #[trigger] view_members(m@)[j] == (m@[j].0@, m@[j].1@),
            i <= m@.len(),
            out@.len() == i,
            forall|j: int| 0 <= j < i ==> (#[trigger] out@[j]).0@ == m@[j].0@ && out@[j].1@ == m@[j].1@.str_or(""@),
        decreases m@.len() - i,
    {
        let value = match m[i].1.as_string() {
            Some(s) => s,
            None => "".to_owned(),
        };
        out.push((m[i].0.clone(), value));
        assert(out@[i as int].1@ == m@[i as int].1@.str_or(""@));
        i = i + 1;
    }
    out
}

/// A setting written with `update_config` is what `get_config` reads
/// back, and every other setting is left as it was.
pub proof fn law_update_then_get(doc: JsonV, key: Seq<char>, value: Seq<char>, other: Seq<char>)
    ensures
        doc.with_member(key, JsonV::Str(value)).idx(key).str_or(""@) == value,
        other != key ==> doc.with_member(key, JsonV::Str(value)).idx(other) == doc.idx(other),
{
    lemma_with_member_idx(doc, key, JsonV::Str(value), key);
    lemma_with_member_idx(doc, key, JsonV::Str(value), other);
}

/// After `set_alias(alias, value)`, the alias (in any spelling with the
/// same lowercase form) reads `value`, and other aliases are unchanged.
pub proof fn law_set_alias_then_get(doc: JsonV, alias: Seq<char>, value: Seq<char>, other: Seq<char>)
    ensures
        alias_readable(with_alias(doc, alias, value), alias),
        alias_entry(with_alias(doc, alias, value), alias) == JsonV::Str(value),
        alias_or(with_alias(doc, alias, value), alias) == value,
        unicode_lowercase(other) != unicode_lowercase(alias) ==> alias_entry(with_alias(doc, alias, value), other)
            == alias_entry(doc, other),
{
    let table = doc.idx("alias"@).with_member(unicode_lowercase(alias), JsonV::Str(value));
    lemma_with_member_idx(doc, "alias"@, table, "alias"@);
    lemma_with_member_idx(doc.idx("alias"@), unicode_lowercase(alias), JsonV::Str(value), unicode_lowercase(alias));
    lemma_with_member_idx(doc.idx("alias"@), unicode_lowercase(alias), JsonV::Str(value), unicode_lowercase(other));
}

/// After `remove_alias(alias)`, the alias no longer resolves (it reads as
/// itself), and other aliases are unchanged.
pub proof fn law_remove_alias_then_get(doc: JsonV, alias: Seq<char>, other: Seq<char>)
    ensures
        alias_entry(without_alias(doc, alias), alias) is Null,
        alias_or(without_alias(doc, alias), alias) == alias,
        unicode_lowercase(other) != unicode_lowercase(alias) ==> alias_entry(without_alias(doc, alias), other)
            == alias_entry(doc, other),
{
    let table = doc.idx("alias"@).without_member(unicode_lowercase(alias));
    lemma_with_member_idx(doc, "alias"@, table, "alias"@);
    lemma_without_member_idx(doc.idx("alias"@), unicode_lowercase(alias), unicode_lowercase(alias));
    lemma_without_member_idx(doc.idx("alias"@), unicode_lowercase(alias), unicode_lowercase(other));
}

/// A transition table stored with `set_transitions` is what
/// `get_transitions` gives back; other projects keep theirs.
pub proof fn law_set_transitions_then_get(doc: JsonV, project: Seq<char>, table: JsonV, other: Seq<char>)
    ensures
        with_transitions(doc, project, table).idx("transitions"@).idx(project) == table,
        other != project ==> with_transitions(doc, project, table).idx("transitions"@).idx(other)
            == doc.idx("transitions"@).idx(other),
{
    let t = doc.idx("transitions"@).with_member(project, table);
    lemma_with_member_idx(doc, "transitions"@, t, "transitions"@);
    lemma_with_member_idx(doc.idx("transitions"@), project, table, project);
    lemma_with_member_idx(doc.idx("transitions"@), project, table, other);
}

/// `c` in upper case, for an ASCII character.
pub open spec fn ascii_upper(c: char) -> char {
    if 'a' <= c <= 'z' {
        ((c as u32) - 32) as char
    } else {
        c
    }
}

/// `s` with its first letter in upper case. The first character must be
/// ASCII, as the text is cut after its first byte.
pub fn str_cap(s: String) -> (r: String)
    requires
        s@.len() >= 1,
        (s@[0] as u32) < 128,
    ensures
        r@ == seq![ascii_upper(s@[0])] + s@.drop_first(),
{
    let cs = crate::text::chars_of(s.as_str());
    let c = cs[0];
    let up: char = if 'a' <= c && c <= 'z' {
        let b: u8 = (c as u8) - 32;
        b as char
    } else {
        c
    };
    let mut r = String::new();
    r.push(up);
    let mut i: usize = 1;
    while i < cs.len()
        invariant
            cs@ == s@,
            1 <= i <= cs@.len(),
            r@ == seq![ascii_upper(s@[0])] + s@.subrange(1, i as int),
        decreases cs@.len() - i,
    {
        r.push(cs[i]);
        i = i + 1;
    }
    assert(s@.subrange(1, cs@.len() as int) =~= s@.drop_first());
    r
}

/// The standard base64 alphabet.
pub open spec fn base64_alphabet() -> Seq<char> {
    "ABCDEFGHIJKLMNOPQRSTUVWXYZabcdefghijklmnopqrstuvwxyz0123456789+/"@
}

/// The base64 character of a 6-bit value.
pub open spec fn base64_digit(n: int) -> char {
    base64_alphabet()[n]
}

/// Standard base64 with padding: each group of three bytes becomes four
/// characters of six bits each; a last group of one or two bytes is padded
/// with `=`.
pub open spec fn base64_of(b: Seq<u8>) -> Seq<char>
    decreases b.len(),
{
    if b.len() == 0 {
        Seq::empty()
    } else {
        let b0 = b[0] as int;
        if b.len() == 1 {
            seq![base64_digit(b0 / 4), base64_digit((b0 % 4) * 16), '=', '=']
        } else {
            let b1 = b[1] as int;
            if b.len() == 2 {
                seq![base64_digit(b0 / 4), base64_digit((b0 % 4) * 16 + b1 / 16), base64_digit((b1 % 16) * 4), '=']
            } else {
                let b2 = b[2] as int;
                seq![
                    base64_digit(b0 / 4),
                    base64_digit((b0 % 4) * 16 + b1 / 16),
                    base64_digit((b1 % 16) * 4 + b2 / 64),
                    base64_digit(b2 % 64),
                ] + base64_of(b.subrange(3, b.len() as int))
            }
        }
    }
}

/// The base64 text (standard alphabet, with padding) of the UTF-8 bytes of
/// a string, as `base64::encode` writes it.
pub open spec fn base64_text(text: Seq<char>) -> Seq<char> {
    base64_of(vstd::utf8::encode_utf8(text))
}

/// Calls `base64::encode` on the bytes of `text`, which writes them in
/// standard base64 with padding (see [`base64_of`]).
#[verifier::external_body]
fn base64_encode(text: &str) -> (r: String)
    ensures
        r@ == base64_text(text@),
{
    base64::encode(text)
}

/// Whether the answer to the authentication question picks a bearer token.
pub open spec fn picks_bearer(choice: Seq<char>) -> bool {
    trim_spec(choice) == "2"@
}

/// The token stored for the answers: the trimmed bearer token, or the
/// base64 of `email:password` (both trimmed).
pub open spec fn token_for(choice: Seq<char>, email: Seq<char>, secret: Seq<char>) -> Seq<char> {
    if picks_bearer(choice) {
        trim_spec(secret)
    } else {
        base64_text(trim_spec(email) + ":"@ + trim_spec(secret))
    }
}

/// The configuration document written on first run.
pub open spec fn initial_config(namespace: Seq<char>, choice: Seq<char>, email: Seq<char>, secret: Seq<char>) -> JsonV {
    let bearer = picks_bearer(choice);
    JsonV::Object(
        seq![
            ("namespace"@, JsonV::Str(trim_spec(namespace))),
            ("email"@, JsonV::Str(if bearer { Seq::empty() } else { trim_spec(email) })),
            ("token"@, JsonV::Str(token_for(choice, email, secret))),
            ("auth_mode"@, JsonV::Str(if bearer { "Bearer"@ } else { "Basic"@ })),
            ("account_id"@, JsonV::Str(""@)),
            ("alias"@, JsonV::Object(Seq::empty())),
            ("transitions"@, JsonV::Object(Seq::empty())),
        ],
    )
}

/// Builds the first configuration from the answers to the setup
/// questions: the host name, the authentication choice (`2` for a bearer
/// token), the e-mail address and the password or token typed in.
pub fn new_configuration(namespace: &str, choice: &str, email: &str, secret: &str) -> (r: Json)
    ensures
        r@ == initial_config(namespace@, choice@, email@, secret@),
{
    let picked = trim(choice);
    let bearer = crate::text::str_eq(picked.as_str(), "2");
    let (mail, token) = if bearer {
        (String::new(), trim(secret))
    } else {
        let m = trim(email);
        let mut pair = m.clone();
        pair.append(":");
        let p = trim(secret);
        pair.append(p.as_str());
        let t = base64_encode(pair.as_str());
        (m, t)
    };
    let mode = if bearer {
        "Bearer".to_owned()
    } else {
        "Basic".to_owned()
    };
    let mut v: Vec<(String, Json)> = Vec::new();
    v.push(("namespace".to_owned(), Json::Str(trim(namespace))));
    v.push(("email".to_owned(), Json::Str(mail)));
    v.push(("token".to_owned(), Json::Str(token)));
    v.push(("auth_mode".to_owned(), Json::Str(mode)));
    v.push(("account_id".to_owned(), Json::Str("".to_owned())));
    let empty_alias: Vec<(String, Json)> = Vec::new();
    let empty_transitions: Vec<(String, Json)> = Vec::new();
    assert(empty_alias@ =~= Seq::<(String, Json)>::empty());
    assert(empty_transitions@ =~= Seq::<(String, Json)>::empty());
    v.push(("alias".to_owned(), Json::Object(empty_alias)));
    v.push(("transitions".to_owned(), Json::Object(empty_transitions)));
    proof {
        lemma_view_members(v@);
        assert(view_members(Seq::<(String, Json)>::empty()) =~= Seq::<(Seq<char>, JsonV)>::empty());
        assert(view_members(v@) =~= initial_config(namespace@, choice@, email@, secret@)->Object_0);
    }
    Json::Object(v)
}

} // verus!
