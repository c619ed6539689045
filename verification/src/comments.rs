//! The comments of an issue: listed with the mentioned accounts shown by
//! name, and added with `@(name)` mentions turned into account references.

use vstd::prelude::*;
use crate::api::JiraApi;
use crate::dates::{comment_time_text, format_comment_time};
use crate::json::{Json, JsonV, display, json_display_text, json_text_value, lemma_view_items, opt_json_view, opt_view, parse_json, view_items};
use crate::metadata::{DefaultMetadataService, account_in, account_lookup, account_result};
use crate::text::strs;

verus! {

/// The pattern of an account reference in a stored comment.
pub open spec fn account_ref_pattern() -> Seq<char> {
    "\\[~accountid:([^\\]]*)\\]"@
}

/// The pattern of a mention typed as `@(name)`.
pub open spec fn mention_pattern() -> Seq<char> {
    "@\\(([^)]*)\\)"@
}

/// The parts of `text` between the matches of `pattern` (`Regex::split`);
/// `None` when the pattern is not a valid regular expression.
pub uninterp spec fn regex_pieces(pattern: Seq<char>, text: Seq<char>) -> Option<Seq<Seq<char>>>;

/// The text of the first group of each match of `pattern` in `text`, in
/// order (`Regex::captures_iter`; empty where the group took no part);
/// `None` when the pattern is not a valid regular expression.
pub uninterp spec fn regex_groups(pattern: Seq<char>, text: Seq<char>) -> Option<Seq<Seq<char>>>;

/// Splits `text` at the matches of `pattern` with the `regex` crate
/// (`Regex::new`, then `Regex::split`); the contract names the result.
#[verifier::external_body]
fn split_by_regex(pattern: &str, text: &str) -> (r: Option<Vec<String>>)
    ensures
        match r {
            Some(v) => regex_pieces(pattern@, text@) == Some(strs(v@)),
            None => regex_pieces(pattern@, text@) is None,
        },
{
    match regex::Regex::new(pattern) {
        Ok(re) => Some(re.split(text).map(|p| p.to_string()).collect()),
        Err(_) => None,
    }
}

/// The first capture group of each match of `pattern` in `text`, with the
/// `regex` crate (`Regex::new`, then `Regex::captures_iter`); the contract
/// names the result.
#[verifier::external_body]
fn first_groups(pattern: &str, text: &str) -> (r: Option<Vec<String>>)
    ensures
        match r {
            Some(v) => regex_groups(pattern@, text@) == Some(strs(v@)),
            None => regex_groups(pattern@, text@) is None,
        },
{
    match regex::Regex::new(pattern) {
        Ok(re) => Some(re.captures_iter(text).map(|c| c.get(1).map_or(String::new(), |m| m.as_str().to_string())).collect()),
        Err(_) => None,
    }
}

/// The `i`-th replacement, or nothing when there are fewer.
pub open spec fn fill_at(fills: Seq<Seq<char>>, i: int) -> Seq<char> {
    if 0 <= i < fills.len() {
        fills[i]
    } else {
        Seq::empty()
    }
}

/// The pieces with the replacements between them: what `replace_all`
/// gives when the `i`-th match is replaced by `fills[i]`.
pub open spec fn interleave(pieces: Seq<Seq<char>>, fills: Seq<Seq<char>>) -> Seq<char>
    decreases pieces.len(),
{
    if pieces.len() == 0 {
        Seq::empty()
    } else if pieces.len() == 1 {
        pieces[0]
    } else {
        interleave(pieces.drop_last(), fills) + fill_at(fills, pieces.len() - 2) + pieces.last()
    }
}

/// `text` with the `i`-th match of `pattern` replaced by `fills[i]`; the
/// text unchanged where the pattern is not valid.
pub open spec fn replaced(pattern: Seq<char>, text: Seq<char>, fills: Seq<Seq<char>>) -> Seq<char> {
    match regex_pieces(pattern, text) {
        Some(p) => interleave(p, fills),
        None => text,
    }
}

/// Replaces the matches of `pattern` in `text` (see [`replaced`]).
pub fn replace_matches(pattern: &str, text: &str, fills: &[String]) -> (r: String)
    ensures
        r@ == replaced(pattern@, text@, strs(fills@)),
{
    let pieces = match split_by_regex(pattern, text) {
        Some(p) => p,
        None => {
            return text.to_owned();
        },
    };
    let ghost ps = strs(pieces@);
    let ghost fs = strs(fills@);
    if pieces.len() == 0 {
        assert(ps.len() == 0);
        return String::new();
    }
    let mut out = pieces[0].clone();
    proof {
        assert(ps.take(1).len() == 1);
        assert(ps.take(1)[0] == pieces@[0]@);
    }
    let mut i: usize = 1;
    while i < pieces.len()
        invariant
            1 <= i <= pieces@.len(),
            ps == strs(pieces@),
            fs == strs(fills@),
            ps.len() == pieces@.len(),
            fs.len() == fills@.len(),
            out@ == interleave(ps.take(i as int), fs),
        decreases pieces@.len() - i,
    {
        let ghost before = out@;
        if i - 1 < fills.len() {
            out.append(fills[i - 1].as_str());
        }
        out.append(pieces[i].as_str());
        proof {
            let t = ps.take(i + 1);
            assert(t.drop_last() =~= ps.take(i as int));
            assert(t.last() == pieces@[i as int]@);
            assert(fill_at(fs, t.len() - 2) == (if i - 1 < fills@.len() {
                fills@[i - 1]@
            } else {
                Seq::<char>::empty()
            }));
            assert(out@ =~= before + fill_at(fs, t.len() - 2) + t.last());
        }
        i = i + 1;
    }
    proof {
        assert(ps.take(pieces@.len() as int) =~= ps);
    }
    out
}

/// The first group of each match of `pattern` in `text`; none where the
/// pattern is not valid.
pub open spec fn groups_or_none(pattern: Seq<char>, text: Seq<char>) -> Seq<Seq<char>> {
    match regex_groups(pattern, text) {
        Some(g) => g,
        None => Seq::empty(),
    }
}

/// The first group of each match of `pattern` in `text`.
pub fn match_groups(pattern: &str, text: &str) -> (r: Vec<String>)
    ensures
        strs(r@) == groups_or_none(pattern@, text@),
{
    match first_groups(pattern, text) {
        Some(g) => g,
        None => {
            let v: Vec<String> = Vec::new();
            assert(strs(v@) =~= Seq::<Seq<char>>::empty());
            v
        },
    }
}

/// How a mention is shown: `@(name) `.
pub open spec fn shown_mention(name: Seq<char>) -> Seq<char> {
    "@("@ + name + ") "@
}

/// How a mention is stored: `[~accountid:id] `.
pub open spec fn stored_mention(account_id: Seq<char>) -> Seq<char> {
    "[~accountid:"@ + account_id + "] "@
}

/// The lines that show a comment: its author, its creation time and a
/// rule when that can be read, its body with the matches of `pattern`
/// shown as `@(name) ` for the given names, and an empty line.
pub open spec fn comment_lines_spec(comment: JsonV, pattern: Seq<char>, names: Seq<Seq<char>>) -> Seq<Seq<char>> {
    let author = comment.idx("author"@).idx("displayName"@).str_or(""@);
    let head = match comment_time_text(comment.idx("created"@).str_or(""@)) {
        Some(t) => seq![author, "("@ + t + ")"@, "============================\n"@],
        None => seq![author],
    };
    head + seq![
        replaced(pattern, comment.idx("body"@).str_or(""@), names.map_values(|n: Seq<char>| shown_mention(n))),
        "\n"@,
    ]
}

/// The mentions shown for a list of names.
fn shown_mentions(names: &[String]) -> (r: Vec<String>)
    ensures
        strs(r@) == strs(names@).map_values(|n: Seq<char>| shown_mention(n)),
{
    let mut out: Vec<String> = Vec::new();
    let mut i: usize = 0;
    proof {
        reveal_strlit("@(");
        reveal_strlit(") ");
    }
    while i < names.len()
        invariant
            i <= names@.len(),
            out@.len() == i,
            forall|k: int| 0 <= k < i ==> (#[trigger] out@[k])@ == shown_mention(names@[k]@),
        decreases names@.len() - i,
    {
        let mut m = String::from_str("@(");
        m.append(names[i].as_str());
        m.append(") ");
        out.push(m);
        i = i + 1;
    }
    assert(strs(out@) =~= strs(names@).map_values(|n: Seq<char>| shown_mention(n)));
    out
}

/// The lines that show a comment, the mentioned accounts having the names
/// `names` (see [`comment_lines_spec`]).
pub fn comment_lines(comment: &Json, pattern: &str, names: &[String]) -> (r: Vec<String>)
    ensures
        strs(r@) == comment_lines_spec(comment@, pattern@, strs(names@)),
{
    let null = Json::Null;
    proof {
        reveal_strlit("");
        reveal_strlit("(");
        reveal_strlit(")");
        reveal_strlit("============================\n");
        reveal_strlit("\n");
    }
    let mut lines: Vec<String> = Vec::new();
    let author = match comment.at("author", &null).at("displayName", &null).as_string() {
        Some(a) => a,
        None => String::new(),
    };
    let ghost author_spec = comment@.idx("author"@).idx("displayName"@).str_or(""@);
    assert(author@ == author_spec);
    lines.push(author);
    let created = match comment.at("created", &null).as_string() {
        Some(c) => c,
        None => String::new(),
    };
    assert(created@ == comment@.idx("created"@).str_or(""@));
    let ghost head = match comment_time_text(comment@.idx("created"@).str_or(""@)) {
        Some(t) => seq![author_spec, "("@ + t + ")"@, "============================\n"@],
        None => seq![author_spec],
    };
    match format_comment_time(created.as_str()) {
        Some(t) => {
            let mut line = String::from_str("(");
            line.append(t.as_str());
            line.append(")");
            lines.push(line);
            lines.push(String::from_str("============================\n"));
        },
        None => {},
    }
    assert(strs(lines@) =~= head);
    let body = match comment.at("body", &null).as_string() {
        Some(b) => b,
        None => String::new(),
    };
    assert(body@ == comment@.idx("body"@).str_or(""@));
    let fills = shown_mentions(names);
    let shown = replace_matches(pattern, body.as_str(), fills.as_slice());
    let ghost before = lines@;
    lines.push(shown);
    lines.push(String::from_str("\n"));
    assert(lines@ =~= before + seq![shown, lines@[lines@.len() - 1]]);
    assert(strs(lines@) =~= comment_lines_spec(comment@, pattern@, strs(names@)));
    lines
}

/// The lines that show a list of comments: the total, an empty line, and
/// each comment's lines, its mentioned accounts having the names of
/// `names` (one list per comment).
pub open spec fn comment_list_lines_spec(comments: JsonV, names: Seq<Seq<Seq<char>>>) -> Seq<Seq<char>> {
    seq!["Total "@ + json_display_text(comments.idx("total"@)) + " comment found. "@, Seq::empty()] + comment_bodies(
        comments.idx("comments"@).items(),
        names,
    )
}

/// The lines of each comment of a list, in order.
pub open spec fn comment_bodies(cs: Seq<JsonV>, names: Seq<Seq<Seq<char>>>) -> Seq<Seq<char>>
    decreases cs.len(),
{
    if cs.len() == 0 {
        Seq::empty()
    } else {
        comment_bodies(cs.drop_last(), names) + comment_lines_spec(
            cs.last(),
            account_ref_pattern(),
            if cs.len() - 1 < names.len() {
                names[cs.len() - 1]
            } else {
                Seq::empty()
            },
        )
    }
}

/// The endpoint of an issue's comments.
pub fn comments_endpoint(ticket: &str) -> (r: String)
    ensures
        r@ == "issue/"@ + ticket@ + "/comment"@,
{
    let mut s = String::from_str("issue/");
    s.append(ticket);
    s.append("/comment");
    s
}

/// The endpoint of an account.
pub fn user_endpoint(account_id: &str) -> (r: String)
    ensures
        r@ == "user/?accountId="@ + account_id@,
{
    let mut s = String::from_str("user/?accountId=");
    s.append(account_id);
    s
}

/// The text of a new comment: each `@(name)` replaced by the reference to
/// the account found for it (see [`stored_mention`]).
pub open spec fn mention_text_spec(body: Seq<char>, account_ids: Seq<Seq<char>>) -> Seq<char> {
    replaced(mention_pattern(), body, account_ids.map_values(|a: Seq<char>| stored_mention(a)))
}

/// The text of a new comment, the mentioned names having the accounts
/// `account_ids` (see [`mention_text_spec`]).
pub fn mention_text(body: &str, account_ids: &[String]) -> (r: String)
    ensures
        r@ == mention_text_spec(body@, strs(account_ids@)),
{
    let mut fills: Vec<String> = Vec::new();
    let mut i: usize = 0;
    proof {
        reveal_strlit("[~accountid:");
        reveal_strlit("] ");
    }
    while i < account_ids.len()
        invariant
            i <= account_ids@.len(),
            fills@.len() == i,
            forall|k: int| 0 <= k < i ==> (#[trigger] fills@[k])@ == stored_mention(account_ids@[k]@),
        decreases account_ids@.len() - i,
    {
        let mut m = String::from_str("[~accountid:");
        m.append(account_ids[i].as_str());
        m.append("] ");
        fills.push(m);
        i = i + 1;
    }
    assert(strs(fills@) =~= strs(account_ids@).map_values(|a: Seq<char>| stored_mention(a)));
    proof {
        reveal_strlit("@\\(([^)]*)\\)");
    }
    replace_matches("@\\(([^)]*)\\)", body, fills.as_slice())
}

/// The body of a new comment.
pub open spec fn comment_body_spec(text: Seq<char>) -> JsonV {
    JsonV::Object(seq![("body"@, JsonV::Str(text))])
}

/// The body of a new comment.
pub fn comment_body(text: &str) -> (r: Json)
    ensures
        r@ == comment_body_spec(text@),
{
    let mut members: Vec<(String, Json)> = Vec::new();
    members.push((String::from_str("body"), Json::Str(text.to_owned())));
    proof {
        crate::json::lemma_view_members(members@);
        reveal_strlit("body");
        assert(crate::json::view_members(members@) =~= seq![("body"@, JsonV::Str(text@))]);
    }
    Json::Object(members)
}

/// The name stored for an account in the configuration.
pub open spec fn cached_name(doc: JsonV, account_id: Seq<char>) -> JsonV {
    doc.idx("accounts"@).idx(account_id)
}

/// The configuration after the name of an account was stored.
pub open spec fn with_account(doc: JsonV, account_id: Seq<char>, name: Seq<char>) -> JsonV {
    doc.with_member("accounts"@, doc.idx("accounts"@).with_member(account_id, JsonV::Str(name)))
}

/// Whether the stored name of an account can be read: it is empty (so it
/// is looked up) or a string.
pub open spec fn cached_name_readable(doc: JsonV, account_id: Seq<char>) -> bool {
    cached_name(doc, account_id).empty_spec() || cached_name(doc, account_id) is Str
}

/// Whether every stored account name, duplicates included, is empty or a
/// string.
pub open spec fn accounts_readable(doc: JsonV) -> bool {
    forall|k: int|
        0 <= k < doc.idx("accounts"@).members().len() ==> (#[trigger] doc.idx("accounts"@).members()[k]).1.empty_spec()
            || doc.idx("accounts"@).members()[k].1 is Str
}

/// Checks that every stored account name can be read (each is empty or a
/// string), so that [`cached_name_readable`] holds for every account.
pub fn check_accounts(doc: &Json) -> (r: bool)
    ensures
        r == accounts_readable(doc@),
        r ==> forall|a: Seq<char>| cached_name_readable(doc@, a),
{
    let null = Json::Null;
    let accounts = doc.at("accounts", &null);
    let m = accounts.members_of();
    let ghost mv = crate::json::view_members(m@);
    proof {
        crate::json::lemma_view_members(m@);
    }
    let mut i: usize = 0;
    while i < m.len()
        invariant
            i <= m@.len(),
            mv == crate::json::view_members(m@),
            mv == doc@.idx("accounts"@).members(),
            mv.len() == m@.len(),
            forall|k: int| 0 <= k < m@.len() ==> #[trigger] mv[k] == (m@[k].0@, m@[k].1@),
            forall|k: int| 0 <= k < i ==> (#[trigger] mv[k]).1.empty_spec() || mv[k].1 is Str,
        decreases m@.len() - i,
    {
        if !(m[i].1.is_empty() || m[i].1.is_string()) {
            assert(!(mv[i as int].1.empty_spec() || mv[i as int].1 is Str));
            assert(mv == doc@.idx("accounts"@).members());
            assert(!(doc@.idx("accounts"@).members()[i as int].1.empty_spec()
                || doc@.idx("accounts"@).members()[i as int].1 is Str));
            return false;
        }
        i = i + 1;
    }
    proof {
        assert(mv == doc@.idx("accounts"@).members());
        assert(accounts_readable(doc@));
        assert forall|a: Seq<char>| cached_name_readable(doc@, a) by {
            let acc = doc@.idx("accounts"@);
            if let JsonV::Object(members) = acc {
                assert(members == mv);
                crate::json::lemma_find_key_from(members, a, 0);
                match crate::json::find_key(members, a) {
                    Some(k) => {
                        assert(mv[k].1.empty_spec() || mv[k].1 is Str);
                    },
                    None => {},
                }
            }
        }
    }
    true
}

/// The lines printed after a comment was added: the notes of the account
/// searches, the confirmation, and the comment Jira answered with (shown
/// with `names` for its mentions) where the answer is JSON.
pub open spec fn added_comment_lines(notes: Seq<Seq<char>>, answer: Seq<char>, names: Seq<Seq<char>>) -> Seq<Seq<char>> {
    notes + seq!["Successfully Added a new comment"@] + match json_text_value(answer) {
        Some(c) => comment_lines_spec(c, mention_pattern(), names),
        None => Seq::empty(),
    }
}

/// Whether showing the account `id` with the configuration `before` can
/// give `name` and leave the configuration as `after`: the stored name
/// when there is one; else the non-empty display name of Jira's answer,
/// which is then stored; else `[id]`, nothing stored.
pub open spec fn name_lookup<A: JiraApi>(api: A, before: JsonV, id: Seq<char>, name: Seq<char>, after: JsonV) -> bool {
    if !cached_name(before, id).empty_spec() {
        name == cached_name(before, id).str_or(""@) && after == before
    } else {
        exists|outcome: Result<JsonV, Seq<char>>|
            #[trigger] api.answers_get("user/?accountId="@ + id, 2, outcome) && match outcome {
                Ok(response) => match response.idx("displayName"@).str_of() {
                    Some(n) => if n.len() > 0 {
                        name == n && after == with_account(before, id, n)
                    } else {
                        name == "["@ + id + "]"@ && after == before
                    },
                    None => name == "["@ + id + "]"@ && after == before,
                },
                Err(_) => name == "["@ + id + "]"@ && after == before,
            }
    }
}

/// Whether showing the accounts `ids` one after the other gives `names`,
/// the configuration going through `docs` (before the first, after each).
pub open spec fn names_resolved<A: JiraApi>(api: A, docs: Seq<JsonV>, ids: Seq<Seq<char>>, names: Seq<Seq<char>>) -> bool {
    &&& docs.len() == ids.len() + 1
    &&& names.len() == ids.len()
    &&& forall|i: int| 0 <= i < ids.len() ==> #[trigger] name_lookup(api, docs[i], ids[i], names[i], docs[i + 1])
}

/// The accounts a comment mentions: the first group of each match of
/// `pattern` in its body.
pub open spec fn comment_ids(comment: JsonV, pattern: Seq<char>) -> Seq<Seq<char>> {
    groups_or_none(pattern, comment.idx("body"@).str_or(""@))
}

/// Whether showing the comment's mentions (by `pattern`) with the
/// configuration `before` can give `names` and leave it as `after`.
pub open spec fn comment_names<A: JiraApi>(
    api: A,
    before: JsonV,
    comment: JsonV,
    pattern: Seq<char>,
    names: Seq<Seq<char>>,
    after: JsonV,
) -> bool {
    exists|docs: Seq<JsonV>|
        #[trigger] names_resolved(api, docs, comment_ids(comment, pattern), names) && docs[0] == before && docs.last()
            == after
}

/// Whether each account the comment mentions has a readable stored name.
pub open spec fn mentions_readable(doc: JsonV, comment: JsonV, pattern: Seq<char>) -> bool {
    forall|i: int| 0 <= i < comment_ids(comment, pattern).len() ==> cached_name_readable(
        doc,
        #[trigger] comment_ids(comment, pattern)[i],
    )
}

/// Whether showing the comments `cs` one after the other (their account
/// references) gives the names `names`, the configuration going through
/// `docs`.
pub open spec fn comments_resolved<A: JiraApi>(api: A, docs: Seq<JsonV>, cs: Seq<JsonV>, names: Seq<Seq<Seq<char>>>) -> bool {
    &&& docs.len() == cs.len() + 1
    &&& names.len() == cs.len()
    &&& forall|k: int|
        0 <= k < cs.len() ==> #[trigger] comment_names(api, docs[k], cs[k], account_ref_pattern(), names[k], docs[k + 1])
}

/// The account a mention resolves to: the one the search found, or none.
pub open spec fn mention_id(result: Result<(Seq<char>, Seq<char>), Seq<char>>) -> Seq<char> {
    match result {
        Ok(found) => found.1,
        Err(_) => Seq::empty(),
    }
}

/// The line a mention's search prints: the announcement of the user found,
/// or the message.
pub open spec fn mention_note(result: Result<(Seq<char>, Seq<char>), Seq<char>>) -> Seq<char> {
    match result {
        Ok(found) => found.0,
        Err(m) => m,
    }
}

/// The accounts the mentions resolve to.
pub open spec fn ids_of(results: Seq<Result<(Seq<char>, Seq<char>), Seq<char>>>) -> Seq<Seq<char>> {
    results.map_values(|r: Result<(Seq<char>, Seq<char>), Seq<char>>| mention_id(r))
}

/// The lines the mentions' searches print.
pub open spec fn notes_of(results: Seq<Result<(Seq<char>, Seq<char>), Seq<char>>>) -> Seq<Seq<char>> {
    results.map_values(|r: Result<(Seq<char>, Seq<char>), Seq<char>>| mention_note(r))
}

/// Whether `results` are what searching the account of each `@(query)`
/// mention of `body`, in order, can give (see
/// [`crate::metadata::account_lookup`]).
pub open spec fn mentions_resolved<M: JiraApi>(
    api: M,
    body: Seq<char>,
    doc: JsonV,
    results: Seq<Result<(Seq<char>, Seq<char>), Seq<char>>>,
) -> bool {
    &&& results.len() == groups_or_none(mention_pattern(), body).len()
    &&& forall|i: int|
        0 <= i < results.len() ==> #[trigger] account_lookup(api, groups_or_none(mention_pattern(), body)[i], doc, results[i])
}

/// Reads and adds comments with a [`JiraApi`], looking up mentioned
/// accounts with a metadata service.
pub struct DefaultCommentsService<A, M> {
    pub jira_api: A,
    pub metadata_service: DefaultMetadataService<M>,
}

impl<A: JiraApi, M: JiraApi> DefaultCommentsService<A, M> {
    pub fn new(jira_api: A, metadata_service: DefaultMetadataService<M>) -> (r: Self)
        ensures
            r.jira_api == jira_api,
            r.metadata_service == metadata_service,
    {
        DefaultCommentsService { jira_api, metadata_service }
    }

    /// The name of an account: the one stored in the configuration, else
    /// the one Jira gives (which is then stored), else `[id]`.
    pub fn get_display_name_for_user(&self, account_id: &str, doc: &mut Json) -> (r: String)
        requires
            cached_name_readable(old(doc)@, account_id@),
        ensures
            !cached_name(old(doc)@, account_id@).empty_spec() ==> r@ == cached_name(old(doc)@, account_id@).str_or(""@)
                && final(doc)@ == old(doc)@,
            cached_name(old(doc)@, account_id@).empty_spec() ==> (r@ == "["@ + account_id@ + "]"@ && final(doc)@ == old(
                doc,
            )@) || (r@.len() > 0 && final(doc)@ == with_account(old(doc)@, account_id@, r@)),
            cached_name(old(doc)@, account_id@).empty_spec() ==> exists|outcome: Result<JsonV, Seq<char>>|
                #[trigger] self.jira_api.answers_get("user/?accountId="@ + account_id@, 2, outcome) && match outcome {
                    Ok(response) => match response.idx("displayName"@).str_of() {
                        Some(name) => if name.len() > 0 {
                            r@ == name && final(doc)@ == with_account(old(doc)@, account_id@, name)
                        } else {
                            r@ == "["@ + account_id@ + "]"@ && final(doc)@ == old(doc)@
                        },
                        None => r@ == "["@ + account_id@ + "]"@ && final(doc)@ == old(doc)@,
                    },
                    Err(_) => r@ == "["@ + account_id@ + "]"@ && final(doc)@ == old(doc)@,
                },
            name_lookup(self.jira_api, old(doc)@, account_id@, r@, final(doc)@),
    {
        let null = Json::Null;
        proof {
            reveal_strlit("");
            reveal_strlit("[");
            reveal_strlit("]");
        }
        let cached = doc.at("accounts", &null).at(account_id, &null);
        if !cached.is_empty() {
            return match cached.as_string() {
                Some(n) => n,
                None => String::new(),
            };
        }
        let mut unknown = String::from_str("[");
        unknown.append(account_id);
        unknown.append("]");
        let endpoint = user_endpoint(account_id);
        let answer = self.jira_api.get_v2(endpoint.as_str());
        let ghost outcome = crate::api::json_outcome(answer);
        assert(self.jira_api.answers_get("user/?accountId="@ + account_id@, 2, outcome));
        let response = match answer {
            Ok(v) => v,
            Err(_) => {
                return unknown;
            },
        };
        let name = match response.at("displayName", &null).as_string() {
            Some(n) => n,
            None => {
                return unknown;
            },
        };
        if name.unicode_len() == 0 {
            return unknown;
        }
        let mut accounts = match doc.get("accounts") {
            Some(a) => a.deep_clone(),
            None => Json::Null,
        };
        accounts.set(account_id, Json::Str(name.clone()));
        crate::config::update_config_object(doc, "accounts", accounts);
        name
    }

    /// The lines that show a comment whose account references match
    /// `pattern`, looking up (and storing) the names of the accounts in
    /// turn (see [`name_lookup`]).
    pub fn display_comment_object(&self, comment: &Json, pattern: &str, doc: &mut Json) -> (r: Vec<String>)
        requires
            mentions_readable(old(doc)@, comment@, pattern@),
        ensures
            exists|names: Seq<Seq<char>>|
                #[trigger] comment_names(self.jira_api, old(doc)@, comment@, pattern@, names, final(doc)@) && strs(r@)
                    == comment_lines_spec(comment@, pattern@, names),
            forall|a: Seq<char>| cached_name_readable(old(doc)@, a) ==> cached_name_readable(final(doc)@, a),
    {
        let null = Json::Null;
        let body = match comment.at("body", &null).as_string() {
            Some(b) => b,
            None => String::new(),
        };
        proof {
            reveal_strlit("");
        }
        assert(body@ == comment@.idx("body"@).str_or(""@));
        let ids = match_groups(pattern, body.as_str());
        let ghost idv = strs(ids@);
        assert(idv == comment_ids(comment@, pattern@));
        let mut names: Vec<String> = Vec::new();
        let ghost mut docs: Seq<JsonV> = seq![doc@];
        let mut i: usize = 0;
        proof {
            assert(idv.take(0) =~= Seq::<Seq<char>>::empty());
            assert(strs(names@) =~= Seq::<Seq<char>>::empty());
        }
        while i < ids.len()
            invariant
                i <= ids@.len(),
                idv == strs(ids@),
                idv == comment_ids(comment@, pattern@),
                mentions_readable(old(doc)@, comment@, pattern@),
                forall|a: Seq<char>| cached_name_readable(old(doc)@, a) ==> cached_name_readable(doc@, a),
                names_resolved(self.jira_api, docs, idv.take(i as int), strs(names@)),
                docs[0] == old(doc)@,
                docs.last() == doc@,
            decreases ids@.len() - i,
        {
            let ghost before = doc@;
            assert(cached_name_readable(old(doc)@, idv[i as int]));
            let n = self.get_display_name_for_user(ids[i].as_str(), doc);
            proof {
                assert forall|a: Seq<char>| cached_name_readable(old(doc)@, a) implies cached_name_readable(doc@, a) by {
                    lemma_lookup_keeps_readable(self.jira_api, before, idv[i as int], n@, doc@, a);
                }
            }
            let ghost old_docs = docs;
            let ghost old_names = strs(names@);
            names.push(n);
            proof {
                docs = docs.push(doc@);
                let t = idv.take(i + 1);
                let nv = strs(names@);
                assert(nv =~= old_names.push(n@));
                assert forall|k: int| 0 <= k < t.len() implies #[trigger] name_lookup(
                    self.jira_api,
                    docs[k],
                    t[k],
                    nv[k],
                    docs[k + 1],
                ) by {
                    if k < i {
                        assert(docs[k] == old_docs[k]);
                        assert(docs[k + 1] == old_docs[k + 1]);
                        assert(t[k] == idv.take(i as int)[k]);
                        assert(nv[k] == old_names[k]);
                    } else {
                        assert(docs[k] == before);
                        assert(t[k] == idv[i as int]);
                    }
                }
            }
            i = i + 1;
        }
        proof {
            assert(idv.take(ids@.len() as int) =~= idv);
        }
        let r = comment_lines(comment, pattern, names.as_slice());
        assert(comment_names(self.jira_api, old(doc)@, comment@, pattern@, strs(names@), doc@));
        r
    }

    /// The lines that show a list of comments (see
    /// [`comment_list_lines_spec`]), looking up the mentioned accounts.
    pub fn display_comment_list(&self, comments: &Json, doc: &mut Json) -> (r: Vec<String>)
        requires
            forall|k: int|
                0 <= k < comments@.idx("comments"@).items().len() ==> mentions_readable(
                    old(doc)@,
                    #[trigger] comments@.idx("comments"@).items()[k],
                    account_ref_pattern(),
                ),
        ensures
            exists|docs: Seq<JsonV>, names: Seq<Seq<Seq<char>>>|
                #[trigger] comments_resolved(self.jira_api, docs, comments@.idx("comments"@).items(), names) && docs[0]
                    == old(doc)@ && docs.last() == final(doc)@ && strs(r@) == comment_list_lines_spec(comments@, names),
            forall|a: Seq<char>| cached_name_readable(old(doc)@, a) ==> cached_name_readable(final(doc)@, a),
    {
        let null = Json::Null;
        let mut lines: Vec<String> = Vec::new();
        let mut head = String::from_str("Total ");
        let total = display(comments.at("total", &null));
        head.append(total.as_str());
        head.append(" comment found. ");
        lines.push(head);
        lines.push(String::new());
        let items = comments.at("comments", &null).items_of();
        let ghost cv = view_items(items@);
        proof {
            lemma_view_items(items@);
            reveal_strlit("Total ");
            reveal_strlit(" comment found. ");
        }
        let ghost mut names: Seq<Seq<Seq<char>>> = Seq::empty();
        let ghost mut docs: Seq<JsonV> = seq![doc@];
        proof {
            assert(cv.take(0) =~= Seq::<JsonV>::empty());
            assert(strs(lines@) =~= seq!["Total "@ + json_display_text(comments@.idx("total"@)) + " comment found. "@, Seq::<char>::empty()] + comment_bodies(cv.take(0), names));
        }
        let mut i: usize = 0;
        while i < items.len()
            invariant
                i <= items@.len(),
                cv == view_items(items@),
                cv == comments@.idx("comments"@).items(),
                cv.len() == items@.len(),
                forall|k: int| 0 <= k < items@.len() ==> #[trigger] cv[k] == items@[k]@,
                names.len() == i,
                strs(lines@) == seq!["Total "@ + json_display_text(comments@.idx("total"@)) + " comment found. "@, Seq::<char>::empty()] + comment_bodies(cv.take(i as int), names),
                forall|k: int| 0 <= k < cv.len() ==> mentions_readable(old(doc)@, #[trigger] cv[k], account_ref_pattern()),
                forall|a: Seq<char>| cached_name_readable(old(doc)@, a) ==> cached_name_readable(doc@, a),
                comments_resolved(self.jira_api, docs, cv.take(i as int), names),
                docs[0] == old(doc)@,
                docs.last() == doc@,
            decreases items@.len() - i,
        {
            proof {
                reveal_strlit("\\[~accountid:([^\\]]*)\\]");
                let c = cv[i as int];
                assert(mentions_readable(old(doc)@, c, account_ref_pattern()));
                assert forall|j: int| 0 <= j < comment_ids(c, account_ref_pattern()).len() implies cached_name_readable(
                    doc@,
                    #[trigger] comment_ids(c, account_ref_pattern())[j],
                ) by {
                    assert(cached_name_readable(old(doc)@, comment_ids(c, account_ref_pattern())[j]));
                }
            }
            let ghost before_doc = doc@;
            let mut more = self.display_comment_object(&items[i], "\\[~accountid:([^\\]]*)\\]", doc);
            let ghost n = choose|n: Seq<Seq<char>>|
                #[trigger] comment_names(self.jira_api, before_doc, items@[i as int]@, account_ref_pattern(), n, doc@)
                    && strs(more@) == comment_lines_spec(items@[i as int]@, account_ref_pattern(), n);
            let ghost before = lines@;
            let ghost added = more@;
            lines.append(&mut more);
            proof {
                assert(lines@ =~= before + added);
                assert(strs(lines@) =~= strs(before) + strs(added));
                let old_names = names;
                names = names.push(n);
                let t = cv.take(i + 1);
                assert(t.drop_last() =~= cv.take(i as int));
                assert(t.last() == items@[i as int]@);
                lemma_comment_bodies_prefix(cv.take(i as int), old_names, names);
                let old_docs = docs;
                docs = docs.push(doc@);
                assert forall|k: int| 0 <= k < t.len() implies #[trigger] comment_names(
                    self.jira_api,
                    docs[k],
                    t[k],
                    account_ref_pattern(),
                    names[k],
                    docs[k + 1],
                ) by {
                    if k < i {
                        assert(docs[k] == old_docs[k]);
                        assert(docs[k + 1] == old_docs[k + 1]);
                        assert(t[k] == cv.take(i as int)[k]);
                        assert(names[k] == old_names[k]);
                    } else {
                        assert(docs[k] == before_doc);
                        assert(t[k] == items@[i as int]@);
                    }
                }
            }
            i = i + 1;
        }
        proof {
            assert(cv.take(items@.len() as int) =~= cv);
            assert(strs(lines@) == comment_list_lines_spec(comments@, names));
            assert(comments_resolved(self.jira_api, docs, cv, names));
        }
        lines
    }

    /// The lines that show the comments of `ticket`, or the message of a
    /// failed request (after which the command exits with status 1).
    pub fn get_all_comments(&self, ticket: &str, doc: &mut Json) -> (r: Result<Vec<String>, String>)
        requires
            forall|a: Seq<char>| cached_name_readable(old(doc)@, a),
        ensures
            r matches Ok(lines) ==> exists|comments: JsonV, names: Seq<Seq<Seq<char>>>|
                strs(lines@) == #[trigger] comment_list_lines_spec(comments, names),
            r matches Err(m) ==> m@ == "Cannot fetch the comments."@,
            forall|a: Seq<char>| cached_name_readable(final(doc)@, a),
            exists|outcome: Result<JsonV, Seq<char>>|
                #[trigger] self.jira_api.answers_get("issue/"@ + ticket@ + "/comment"@, 2, outcome) && match outcome {
                    Ok(comments) => r matches Ok(lines) && exists|docs: Seq<JsonV>, names: Seq<Seq<Seq<char>>>|
                        #[trigger] comments_resolved(self.jira_api, docs, comments.idx("comments"@).items(), names)
                            && docs[0] == old(doc)@ && docs.last() == final(doc)@ && strs(lines@)
                            == comment_list_lines_spec(comments, names),
                    Err(_) => r is Err && final(doc)@ == old(doc)@,
                },
    {
        let endpoint = comments_endpoint(ticket);
        let answer = self.jira_api.get_v2(endpoint.as_str());
        let ghost outcome = crate::api::json_outcome(answer);
        assert(self.jira_api.answers_get(endpoint@, 2, outcome));
        match answer {
            Ok(comments) => {
                proof {
                    let cs = comments@.idx("comments"@).items();
                    assert forall|k: int| 0 <= k < cs.len() implies mentions_readable(
                        doc@,
                        #[trigger] cs[k],
                        account_ref_pattern(),
                    ) by {}
                }
                let lines = self.display_comment_list(&comments, doc);
                assert(match outcome {
                    Err(_) => false,
                    Ok(c) => c == comments@,
                });
                Ok(lines)
            },
            Err(_) => Err(String::from_str("Cannot fetch the comments.")),
        }
    }

    /// The text of a new comment with each `@(name)` mention replaced by a
    /// reference to the account the search for the name found (empty
    /// where none was found), and the lines printed by the searches (see
    /// [`mentions_resolved`]).
    pub fn change_mentioned_users(&self, body: &str, doc: &Json) -> (r: (String, Vec<String>))
        ensures
            exists|results: Seq<Result<(Seq<char>, Seq<char>), Seq<char>>>|
                #[trigger] mentions_resolved(self.metadata_service.jira_api, body@, doc@, results) && r.0@
                    == mention_text_spec(body@, ids_of(results)) && strs(r.1@) == notes_of(results),
    {
        proof {
            reveal_strlit("@\\(([^)]*)\\)");
        }
        let names = match_groups("@\\(([^)]*)\\)", body);
        let ghost queries = strs(names@);
        let mut ids: Vec<String> = Vec::new();
        let mut notes: Vec<String> = Vec::new();
        let ghost mut results: Seq<Result<(Seq<char>, Seq<char>), Seq<char>>> = Seq::empty();
        let mut i: usize = 0;
        proof {
            assert(strs(ids@) =~= ids_of(results));
            assert(strs(notes@) =~= notes_of(results));
        }
        while i < names.len()
            invariant
                i <= names@.len(),
                queries == strs(names@),
                queries == groups_or_none(mention_pattern(), body@),
                results.len() == i,
                forall|k: int| 0 <= k < i ==> #[trigger] account_lookup(
                    self.metadata_service.jira_api,
                    queries[k],
                    doc@,
                    results[k],
                ),
                strs(ids@) == ids_of(results),
                strs(notes@) == notes_of(results),
            decreases names@.len() - i,
        {
            let found = self.metadata_service.get_account_id(names[i].as_str(), doc);
            let ghost res = account_result(found);
            assert(account_lookup(self.metadata_service.jira_api, queries[i as int], doc@, res));
            let ghost old_results = results;
            let ghost old_ids = strs(ids@);
            let ghost old_notes = strs(notes@);
            match found {
                Ok((line, id)) => {
                    notes.push(line);
                    ids.push(id);
                },
                Err(m) => {
                    notes.push(m);
                    ids.push(String::new());
                },
            }
            proof {
                assert(strs(ids@) =~= old_ids.push(mention_id(res)));
                assert(strs(notes@) =~= old_notes.push(mention_note(res)));
                results = results.push(res);
                assert(ids_of(results) =~= ids_of(old_results).push(mention_id(res)));
                assert(notes_of(results) =~= notes_of(old_results).push(mention_note(res)));
                assert forall|k: int| 0 <= k < i + 1 implies #[trigger] account_lookup(
                    self.metadata_service.jira_api,
                    queries[k],
                    doc@,
                    results[k],
                ) by {
                    if k < i {
                        assert(results[k] == old_results[k]);
                    }
                }
            }
            i = i + 1;
        }
        let text = mention_text(body, ids.as_slice());
        assert(mentions_resolved(self.metadata_service.jira_api, body@, doc@, results));
        (text, notes)
    }

    /// Adds a comment to `ticket`: the lines printed (the account searches,
    /// the confirmation and the new comment as Jira returns it, its
    /// mentions shown by name), or the message of a failed request (after
    /// which the command exits with status 1).
    pub fn add_new_comment(&self, ticket: &str, body: &str, doc: &mut Json) -> (r: Result<Vec<String>, String>)
        requires
            forall|a: Seq<char>| cached_name_readable(old(doc)@, a),
        ensures
            r matches Err(m) ==> m@ == "Error occurred while adding comment."@,
            forall|a: Seq<char>| cached_name_readable(final(doc)@, a),
            exists|results: Seq<Result<(Seq<char>, Seq<char>), Seq<char>>>, outcome: Result<Seq<char>, Seq<char>>|
                mentions_resolved(self.metadata_service.jira_api, body@, old(doc)@, results)
                    && #[trigger] self.jira_api.answers_post(
                    "issue/"@ + ticket@ + "/comment"@,
                    comment_body_spec(mention_text_spec(body@, ids_of(results))),
                    2,
                    outcome,
                ) && match outcome {
                    Err(_) => r is Err && final(doc)@ == old(doc)@,
                    Ok(answer) => r matches Ok(lines) && match json_text_value(answer) {
                        Some(c) => exists|names: Seq<Seq<char>>|
                            #[trigger] comment_names(self.jira_api, old(doc)@, c, mention_pattern(), names, final(doc)@)
                                && strs(lines@) == added_comment_lines(notes_of(results), answer, names),
                        None => final(doc)@ == old(doc)@ && strs(lines@) == added_comment_lines(
                            notes_of(results),
                            answer,
                            Seq::empty(),
                        ),
                    },
                },
    {
        let (text, notes) = self.change_mentioned_users(body, doc);
        let ghost results = choose|results: Seq<Result<(Seq<char>, Seq<char>), Seq<char>>>|
            #[trigger] mentions_resolved(self.metadata_service.jira_api, body@, doc@, results) && text@
                == mention_text_spec(body@, ids_of(results)) && strs(notes@) == notes_of(results);
        let payload = comment_body(text.as_str());
        let endpoint = comments_endpoint(ticket);
        let sent = self.jira_api.post(endpoint.as_str(), payload, 2);
        let ghost outcome = crate::api::text_outcome(sent);
        assert(self.jira_api.answers_post(
            "issue/"@ + ticket@ + "/comment"@,
            comment_body_spec(mention_text_spec(body@, ids_of(results))),
            2,
            outcome,
        ));
        let answer = match sent {
            Ok(a) => a,
            Err(_) => {
                return Err(String::from_str("Error occurred while adding comment."));
            },
        };
        let ghost note_texts = strs(notes@);
        assert(outcome == Ok::<Seq<char>, Seq<char>>(answer@));
        let mut lines = notes;
        lines.push(String::from_str("Successfully Added a new comment"));
        proof {
            reveal_strlit("Successfully Added a new comment");
            assert(strs(lines@) =~= note_texts + seq!["Successfully Added a new comment"@]);
        }
        let parsed = parse_json(answer.as_str());
        match parsed {
            Some(comment) => {
                proof {
                    reveal_strlit("@\\(([^)]*)\\)");
                    assert forall|j: int| 0 <= j < comment_ids(comment@, mention_pattern()).len() implies cached_name_readable(
                        doc@,
                        #[trigger] comment_ids(comment@, mention_pattern())[j],
                    ) by {}
                }
                let ghost before = lines@;
                let ghost before_doc = doc@;
                let mut more = self.display_comment_object(&comment, "@\\(([^)]*)\\)", doc);
                let ghost names = choose|names: Seq<Seq<char>>|
                    #[trigger] comment_names(self.jira_api, before_doc, comment@, mention_pattern(), names, doc@)
                        && strs(more@) == comment_lines_spec(comment@, mention_pattern(), names);
                let ghost added = more@;
                lines.append(&mut more);
                proof {
                    assert(lines@ =~= before + added);
                    assert(strs(lines@) =~= strs(before) + strs(added));
                    assert(strs(lines@) == added_comment_lines(note_texts, answer@, names));
                    assert forall|a: Seq<char>| cached_name_readable(doc@, a) by {
                        assert(cached_name_readable(before_doc, a));
                    }
                }
            },
            None => {
                assert(strs(lines@) =~= added_comment_lines(note_texts, answer@, Seq::empty()));
            },
        }
        let r: Result<Vec<String>, String> = Ok(lines);
        assert(match outcome {
            Err(_) => false,
            Ok(a) => a == answer@,
        });
        r
    }
}

/// Looking up a name keeps a readable stored name readable.
proof fn lemma_lookup_keeps_readable<A: JiraApi>(api: A, before: JsonV, id: Seq<char>, name: Seq<char>, after: JsonV, a: Seq<char>)
    requires
        name_lookup(api, before, id, name, after),
        cached_name_readable(before, a),
    ensures
        cached_name_readable(after, a),
{
    if cached_name(before, id).empty_spec() && after != before {
        crate::json::lemma_with_member_idx(before, "accounts"@, before.idx("accounts"@).with_member(id, JsonV::Str(name)), "accounts"@);
        crate::json::lemma_with_member_idx(before.idx("accounts"@), id, JsonV::Str(name), a);
    }
}

/// The lines of the first comments depend only on their own names.
proof fn lemma_comment_bodies_prefix(cs: Seq<JsonV>, names: Seq<Seq<Seq<char>>>, longer: Seq<Seq<Seq<char>>>)
    requires
        names.len() == cs.len(),
        longer.len() >= names.len(),
        forall|i: int| 0 <= i < names.len() ==> longer[i] == names[i],
    ensures
        comment_bodies(cs, longer) == comment_bodies(cs, names),
    decreases cs.len(),
{
    if cs.len() > 0 {
        lemma_comment_bodies_prefix(cs.drop_last(), names.drop_last(), longer);
        lemma_comment_bodies_prefix(cs.drop_last(), names.drop_last(), names);
    }
}

} // verus!
