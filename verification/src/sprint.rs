//! The active sprint: reading it from Jira's answers, ordering its issues by
//! status, and the cache file that keeps it between runs.

use vstd::prelude::*;
use crate::json::{Json, JsonV, dump, lemma_find_key_absent, lemma_find_key_is, json_dump_text, json_pretty_text, json_text_value, lemma_view_items, lemma_view_members, opt_view, parse_json_text, stringify_pretty, view_items, view_json, view_members};
use crate::pbi::{sprint_issue_pbi, sprint_pbi_from_json, story_points_readable, str_items, strings_of};
use crate::text::strs;
use crate::api::JiraApi;
use crate::pbi::{Pbi, PbiV, pbi_views};
use crate::text::{str_eq, to_lowercase, unicode_lowercase};

verus! {

/// A sprint and its issues.
#[derive(Debug)]
pub struct Sprint {
    pub name: String,
    pub goal: String,
    pub end_date: String,
    pub pbis: Vec<Pbi>,
    pub board_id: String,
}

/// The value of a sprint.
pub struct SprintV {
    pub name: Seq<char>,
    pub goal: Seq<char>,
    pub end_date: Seq<char>,
    pub pbis: Seq<PbiV>,
    pub board_id: Seq<char>,
}

impl View for Sprint {
    type V = SprintV;

    open spec fn view(&self) -> SprintV {
        SprintV {
            name: self.name@,
            goal: self.goal@,
            end_date: self.end_date@,
            pbis: pbi_views(self.pbis@),
            board_id: self.board_id@,
        }
    }
}

/// Where a lowercased status comes in the sprint list: new issues first,
/// closed ones last, unknown statuses before all.
pub open spec fn rank_of_lower(lower: Seq<char>) -> u8 {
    if lower == "closed"@ {
        10
    } else if lower == "resolved"@ {
        9
    } else if lower == "blocked"@ || lower == "pending"@ {
        8
    } else if lower == "in review"@ {
        7
    } else if lower == "in progress"@ {
        6
    } else if lower == "open"@ {
        4
    } else if lower == "new"@ {
        2
    } else {
        0
    }
}

/// Where a status comes in the sprint list (case-insensitively).
pub open spec fn status_rank(status: Seq<char>) -> u8 {
    rank_of_lower(unicode_lowercase(status))
}

/// The rank of an already lowercased status.
pub fn rank_lower(lower: &str) -> (r: u8)
    ensures
        r == rank_of_lower(lower@),
{
    if str_eq(lower, "closed") {
        10
    } else if str_eq(lower, "resolved") {
        9
    } else if str_eq(lower, "blocked") || str_eq(lower, "pending") {
        8
    } else if str_eq(lower, "in review") {
        7
    } else if str_eq(lower, "in progress") {
        6
    } else if str_eq(lower, "open") {
        4
    } else if str_eq(lower, "new") {
        2
    } else {
        0
    }
}

/// Where a status comes in the sprint list.
pub fn status_sort_key(status: &str) -> (r: u8)
    ensures
        r == status_rank(status@),
{
    let lower = to_lowercase(status);
    rank_lower(lower.as_str())
}

/// The ranks, in increasing order.
pub open spec fn ranks() -> Seq<u8> {
    seq![0u8, 2u8, 4u8, 6u8, 7u8, 8u8, 9u8, 10u8]
}

/// The issues of rank `k`, in their order.
pub open spec fn of_rank(s: Seq<PbiV>, k: u8) -> Seq<PbiV> {
    s.filter(|p: PbiV| status_rank(p.status) == k)
}

/// The issues of the first `n` ranks, rank by rank, each rank in the
/// issues' order.
pub open spec fn by_rank_upto(s: Seq<PbiV>, n: int) -> Seq<PbiV>
    decreases n,
{
    if n <= 0 {
        Seq::empty()
    } else {
        by_rank_upto(s, n - 1) + of_rank(s, ranks()[n - 1])
    }
}

/// The issues ordered by the rank of their status; issues of equal rank
/// keep their order (a stable sort).
pub open spec fn by_rank(s: Seq<PbiV>) -> Seq<PbiV> {
    by_rank_upto(s, 8)
}

/// Orders the issues by the rank of their status, keeping the order of
/// issues of equal rank.
pub fn sort_by_status(pbis: &mut Vec<Pbi>)
    ensures
        pbi_views(final(pbis)@) == by_rank(pbi_views(old(pbis)@)),
{
    let ghost s = pbi_views(pbis@);
    let mut keys: Vec<u8> = Vec::new();
    let mut i: usize = 0;
    while i < pbis.len()
        invariant
            s == pbi_views(pbis@),
            i <= pbis@.len(),
            keys@.len() == i,
            forall|j: int| 0 <= j < i ==> #[trigger] keys@[j] == status_rank(pbis@[j].status@),
        decreases pbis@.len() - i,
    {
        keys.push(status_sort_key(pbis[i].status.as_str()));
        i = i + 1;
    }
    let order: [u8; 8] = [0, 2, 4, 6, 7, 8, 9, 10];
    assert(order@ == ranks());
    let mut out: Vec<Pbi> = Vec::new();
    let mut r: usize = 0;
    assert(pbi_views(out@) =~= by_rank_upto(s, 0));
    while r < 8
        invariant
            s == pbi_views(pbis@),
            order@ == ranks(),
            keys@.len() == pbis@.len(),
            forall|j: int| 0 <= j < pbis@.len() ==> #[trigger] keys@[j] == status_rank(pbis@[j].status@),
            r <= 8,
            pbi_views(out@) == by_rank_upto(s, r as int),
        decreases 8 - r,
    {
        let k = order[r];
        let ghost base = pbi_views(out@);
        let ghost pred = |p: PbiV| status_rank(p.status) == k;
        let mut j: usize = 0;
        proof {
            reveal(Seq::filter);
            assert(s.take(0).filter(pred) =~= Seq::<PbiV>::empty());
            assert(pbi_views(out@) =~= base + s.take(0).filter(pred));
        }
        while j < pbis.len()
            invariant
                s == pbi_views(pbis@),
                keys@.len() == pbis@.len(),
                forall|m: int| 0 <= m < pbis@.len() ==> #[trigger] keys@[m] == status_rank(pbis@[m].status@),
                pred == (|p: PbiV| status_rank(p.status) == k),
                j <= pbis@.len(),
                pbi_views(out@) == base + s.take(j as int).filter(pred),
            decreases pbis@.len() - j,
        {
            proof {
                reveal(Seq::filter);
                assert(s.take(j + 1).drop_last() =~= s.take(j as int));
                assert(s.take(j + 1).last() == pbis@[j as int]@);
            }
            if keys[j] == k {
                let ghost before = pbi_views(out@);
                let c = pbis[j].copy();
                out.push(c);
                assert(pbi_views(out@) =~= before.push(c@));
            }
            j = j + 1;
        }
        assert(s.take(pbis@.len() as int) =~= s);
        assert(pbi_views(out@) == by_rank_upto(s, r + 1));
        r = r + 1;
    }
    *pbis = out;
}

/// Every status has one of the ranks.
proof fn lemma_rank_listed(status: Seq<char>)
    ensures
        exists|m: int| 0 <= m < 8 && ranks()[m] == #[trigger] status_rank(status),
{
    let k = status_rank(status);
    if k == 0 {
        assert(ranks()[0] == k);
    } else if k == 2 {
        assert(ranks()[1] == k);
    } else if k == 4 {
        assert(ranks()[2] == k);
    } else if k == 6 {
        assert(ranks()[3] == k);
    } else if k == 7 {
        assert(ranks()[4] == k);
    } else if k == 8 {
        assert(ranks()[5] == k);
    } else if k == 9 {
        assert(ranks()[6] == k);
    } else {
        assert(ranks()[7] == k);
    }
}

proof fn lemma_of_rank_push(s: Seq<PbiV>, x: PbiV, k: u8)
    ensures
        of_rank(s.push(x), k) == (if status_rank(x.status) == k {
            of_rank(s, k).push(x)
        } else {
            of_rank(s, k)
        }),
{
    reveal(Seq::filter);
    assert(s.push(x).drop_last() =~= s);
}

proof fn lemma_upto_push_multiset(s: Seq<PbiV>, x: PbiV, n: int)
    requires
        0 <= n <= 8,
    ensures
        by_rank_upto(s.push(x), n).to_multiset() == (if exists|m: int| 0 <= m < n && ranks()[m] == #[trigger] status_rank(
            x.status,
        ) {
            by_rank_upto(s, n).to_multiset().insert(x)
        } else {
            by_rank_upto(s, n).to_multiset()
        }),
    decreases n,
{
    broadcast use vstd::seq_lib::lemma_multiset_commutative, vstd::seq_lib::group_to_multiset_ensures;

    if n > 0 {
        lemma_upto_push_multiset(s, x, n - 1);
        lemma_of_rank_push(s, x, ranks()[n - 1]);
        let a = by_rank_upto(s, n - 1);
        let b = of_rank(s, ranks()[n - 1]);
        assert(by_rank_upto(s, n) == a + b);
        if status_rank(x.status) == ranks()[n - 1] {
            assert(b.push(x).to_multiset() =~= b.to_multiset().insert(x));
            assert(!(exists|m: int| 0 <= m < n - 1 && ranks()[m] == #[trigger] status_rank(x.status)));
        } else {
            if exists|m: int| 0 <= m < n && ranks()[m] == #[trigger] status_rank(x.status) {
                let m = choose|m: int| 0 <= m < n && ranks()[m] == #[trigger] status_rank(x.status);
                assert(m < n - 1);
            }
        }
    } else {
        assert(by_rank_upto(s.push(x), 0) =~= Seq::<PbiV>::empty());
        assert(by_rank_upto(s, 0) =~= Seq::<PbiV>::empty());
    }
}

/// Ordering by status keeps every issue, as often as it occurs: the result
/// is a permutation of the issues.
pub proof fn law_by_rank_permutation(s: Seq<PbiV>)
    ensures
        by_rank(s).to_multiset() == s.to_multiset(),
    decreases s.len(),
{
    broadcast use vstd::seq_lib::group_to_multiset_ensures;

    if s.len() == 0 {
        reveal(Seq::filter);
        assert forall|n: int| 0 <= n <= 8 implies by_rank_upto(s, n) =~= Seq::<PbiV>::empty() by {
            lemma_upto_empty(s, n);
        }
        assert(by_rank(s) =~= Seq::<PbiV>::empty());
    } else {
        let t = s.drop_last();
        let x = s.last();
        assert(t.push(x) =~= s);
        law_by_rank_permutation(t);
        lemma_upto_push_multiset(t, x, 8);
        lemma_rank_listed(x.status);
        assert(t.push(x).to_multiset() =~= t.to_multiset().insert(x));
    }
}

proof fn lemma_upto_empty(s: Seq<PbiV>, n: int)
    requires
        s.len() == 0,
        0 <= n <= 8,
    ensures
        by_rank_upto(s, n) =~= Seq::<PbiV>::empty(),
    decreases n,
{
    reveal(Seq::filter);
    if n > 0 {
        lemma_upto_empty(s, n - 1);
        assert(of_rank(s, ranks()[n - 1]) =~= Seq::<PbiV>::empty());
    }
}

proof fn lemma_upto_sorted(s: Seq<PbiV>, n: int)
    requires
        1 <= n <= 8,
    ensures
        forall|i: int| 0 <= i < by_rank_upto(s, n).len() ==> status_rank(#[trigger] by_rank_upto(s, n)[i].status) <= ranks()[n - 1],
        forall|i: int, j: int| 0 <= i <= j < by_rank_upto(s, n).len() ==> status_rank(#[trigger] by_rank_upto(s, n)[i].status)
            <= status_rank(#[trigger] by_rank_upto(s, n)[j].status),
    decreases n,
{
    let b = of_rank(s, ranks()[n - 1]);
    assert forall|i: int| 0 <= i < b.len() implies status_rank(#[trigger] b[i].status) == ranks()[n - 1] by {
        s.lemma_filter_pred(|p: PbiV| status_rank(p.status) == ranks()[n - 1], i);
    }
    if n > 1 {
        lemma_upto_sorted(s, n - 1);
        let a = by_rank_upto(s, n - 1);
        let r = by_rank_upto(s, n);
        assert(r == a + b);
        assert forall|i: int| 0 <= i < r.len() implies status_rank(#[trigger] r[i].status) <= ranks()[n - 1] by {
            if i < a.len() {
                assert(r[i] == a[i]);
            } else {
                assert(r[i] == b[i - a.len()]);
            }
        }
        assert forall|i: int, j: int| 0 <= i <= j < r.len() implies status_rank(#[trigger] r[i].status) <= status_rank(
            #[trigger] r[j].status,
        ) by {
            if j < a.len() {
                assert(r[i] == a[i]);
                assert(r[j] == a[j]);
            } else if i >= a.len() {
                assert(r[i] == b[i - a.len()]);
                assert(r[j] == b[j - a.len()]);
            } else {
                assert(r[i] == a[i]);
                assert(r[j] == b[j - a.len()]);
            }
        }
    } else {
        reveal_with_fuel(by_rank_upto, 2);
        assert(by_rank_upto(s, 0) =~= Seq::<PbiV>::empty());
        assert(by_rank_upto(s, 1) =~= b);
    }
}

/// The issues ordered by status are sorted by the rank of their status.
pub proof fn law_by_rank_sorted(s: Seq<PbiV>)
    ensures
        forall|i: int, j: int| 0 <= i <= j < by_rank(s).len() ==> status_rank(#[trigger] by_rank(s)[i].status) <= status_rank(
            #[trigger] by_rank(s)[j].status,
        ),
{
    lemma_upto_sorted(s, 8);
}

/// The issues of rank `b` among those of rank `a`.
proof fn lemma_of_rank_twice(s: Seq<PbiV>, a: u8, b: u8)
    ensures
        of_rank(of_rank(s, a), b) == (if a == b {
            of_rank(s, a)
        } else {
            Seq::<PbiV>::empty()
        }),
    decreases s.len(),
{
    if s.len() == 0 {
        reveal(Seq::filter);
        assert(of_rank(s, a) =~= Seq::<PbiV>::empty());
        assert(of_rank(Seq::<PbiV>::empty(), b) =~= Seq::<PbiV>::empty());
    } else {
        let t = s.drop_last();
        let x = s.last();
        assert(t.push(x) =~= s);
        lemma_of_rank_twice(t, a, b);
        lemma_of_rank_push(t, x, a);
        lemma_of_rank_push(of_rank(t, a), x, b);
    }
}

/// No issue has a rank that is not listed.
proof fn lemma_of_unlisted_rank(s: Seq<PbiV>, k: u8)
    requires
        forall|m: int| 0 <= m < 8 ==> ranks()[m] != k,
    ensures
        of_rank(s, k) == Seq::<PbiV>::empty(),
    decreases s.len(),
{
    if s.len() == 0 {
        reveal(Seq::filter);
        assert(of_rank(s, k) =~= Seq::<PbiV>::empty());
    } else {
        let t = s.drop_last();
        let x = s.last();
        assert(t.push(x) =~= s);
        lemma_of_unlisted_rank(t, k);
        lemma_of_rank_push(t, x, k);
        lemma_rank_listed(x.status);
    }
}

/// Where rank `k` stands among the ranks (8 when it is not one of them).
spec fn rank_index(k: u8) -> int {
    if k == 0 {
        0
    } else if k == 2 {
        1
    } else if k == 4 {
        2
    } else if k == 6 {
        3
    } else if k == 7 {
        4
    } else if k == 8 {
        5
    } else if k == 9 {
        6
    } else if k == 10 {
        7
    } else {
        8
    }
}

/// The issues of rank `k` among those of the first `n` ranks.
#[verifier::rlimit(30)]
proof fn lemma_of_rank_upto(s: Seq<PbiV>, n: int, k: u8)
    requires
        0 <= n <= 8,
    ensures
        of_rank(by_rank_upto(s, n), k) == (if rank_index(k) < n {
            of_rank(s, k)
        } else {
            Seq::<PbiV>::empty()
        }),
    decreases n,
{
    if n == 0 {
        reveal(Seq::filter);
        assert(by_rank_upto(s, 0) =~= Seq::<PbiV>::empty());
        assert(of_rank(Seq::<PbiV>::empty(), k) =~= Seq::<PbiV>::empty());
    } else {
        lemma_of_rank_upto(s, n - 1, k);
        let a = by_rank_upto(s, n - 1);
        let b = of_rank(s, ranks()[n - 1]);
        assert(by_rank_upto(s, n) == a + b);
        Seq::filter_distributes_over_add(a, b, |p: PbiV| status_rank(p.status) == k);
        lemma_of_rank_twice(s, ranks()[n - 1], k);
        assert((ranks()[n - 1] == k) == (rank_index(k) == n - 1));
        assert(Seq::<PbiV>::empty() + of_rank(s, k) =~= of_rank(s, k));
        assert(of_rank(s, k) + Seq::<PbiV>::empty() =~= of_rank(s, k));
        assert(Seq::<PbiV>::empty() + Seq::<PbiV>::empty() =~= Seq::<PbiV>::empty());
    }
}

/// Ordering by status is stable: the issues of each rank come out in the
/// order they came in.
pub proof fn law_by_rank_stable(s: Seq<PbiV>, k: u8)
    ensures
        of_rank(by_rank(s), k) == of_rank(s, k),
{
    lemma_of_rank_upto(s, 8, k);
    if rank_index(k) == 8 {
        lemma_of_unlisted_rank(s, k);
    }
}

/// The first `n` characters of a text (`chars().take(n)`).
pub open spec fn first_chars(t: Seq<char>, n: nat) -> Seq<char> {
    if t.len() <= n {
        t
    } else {
        t.take(n as int)
    }
}

/// The active sprint as the board's sprint list describes it (its issues
/// are read from another answer): the first sprint listed, with its id.
pub open spec fn active_sprint_spec(response: JsonV, board_id: Seq<char>) -> Option<(u64, SprintV)> {
    let sprints = response.idx("values"@);
    if !(sprints is Array) || sprints.items().len() == 0 {
        None
    } else {
        let sp = sprints.items()[0];
        Some(
            (
                match sp.idx("id"@).u64_of() {
                    Some(n) => n,
                    None => 0,
                },
                SprintV {
                    name: sp.idx("name"@).str_or("Active Sprint"@),
                    goal: sp.idx("goal"@).str_or(""@),
                    end_date: match sp.idx("endDate"@).str_of() {
                        Some(t) => first_chars(t, 10),
                        None => Seq::empty(),
                    },
                    pbis: Seq::empty(),
                    board_id,
                },
            ),
        )
    }
}

/// The agile endpoint that lists the active sprint of a board.
pub open spec fn active_sprint_endpoint_spec(board_id: Seq<char>) -> Seq<char> {
    "board/"@ + board_id + "/sprint?state=active"@
}

/// The agile endpoint that lists a sprint's issues with their changelog.
pub open spec fn sprint_issues_endpoint_spec(sprint_id: u64) -> Seq<char> {
    "sprint/"@ + crate::text::decimal_spec(sprint_id as nat) + "/issue?maxResults=500&expand=changelog"@
}

/// The endpoint of an issue with its changelog.
pub open spec fn issue_endpoint_spec(key: Seq<char>) -> Seq<char> {
    "issue/"@ + key + "?expand=changelog"@
}

/// The agile endpoint that lists the active sprint of a board.
pub fn active_sprint_endpoint(board_id: &str) -> (r: String)
    ensures
        r@ == "board/"@ + board_id@ + "/sprint?state=active"@,
{
    let mut s = String::from_str("board/");
    s.append(board_id);
    s.append("/sprint?state=active");
    s
}

/// The agile endpoint that lists a sprint's issues with their changelog.
pub fn sprint_issues_endpoint(sprint_id: u64) -> (r: String)
    ensures
        r@ == "sprint/"@ + crate::text::decimal_spec(sprint_id as nat) + "/issue?maxResults=500&expand=changelog"@,
{
    let mut s = String::from_str("sprint/");
    let n = crate::text::decimal(sprint_id);
    s.append(n.as_str());
    s.append("/issue?maxResults=500&expand=changelog");
    s
}

/// The endpoint of an issue with its changelog.
pub fn issue_endpoint(key: &str) -> (r: String)
    ensures
        r@ == "issue/"@ + key@ + "?expand=changelog"@,
{
    let mut s = String::from_str("issue/");
    s.append(key);
    s.append("?expand=changelog");
    s
}

/// The text of a string member, or a default.
fn member_or(v: &Json, key: &str, default: &str) -> (r: String)
    ensures
        r@ == v@.idx(key@).str_or(default@),
{
    crate::config::get_config_or(v, key, default)
}

/// Reads the active sprint and its id from the board's sprint list; the
/// error when the board has no active sprint.
pub fn active_sprint(response: &Json, board_id: &str) -> (r: Result<(u64, Sprint), String>)
    ensures
        match r {
            Ok((id, sp)) => active_sprint_spec(response@, board_id@) == Some((id, sp@)),
            Err(e) => active_sprint_spec(response@, board_id@) is None && e@
                == "No active sprint found for the given board."@,
        },
{
    let null = Json::Null;
    let sprints = response.at("values", &null);
    let items = sprints.items_of();
    proof {
        lemma_view_items(items@);
    }
    if !sprints.is_array() || items.len() == 0 {
        return Err("No active sprint found for the given board.".to_owned());
    }
    let sp = &items[0];
    let id = match sp.at("id", &null).as_u64() {
        Some(n) => n,
        None => 0,
    };
    let end_date = match sp.at("endDate", &null).as_string() {
        Some(t) => {
            let cs = crate::text::chars_of(t.as_str());
            let n = if cs.len() <= 10 {
                cs.len()
            } else {
                10
            };
            let e = crate::text::string_of_range(cs.as_slice(), 0, n);
            assert(e@ =~= first_chars(t@, 10));
            e
        },
        None => String::new(),
    };
    let pbis: Vec<Pbi> = Vec::new();
    let sprint = Sprint {
        name: member_or(sp, "name", "Active Sprint"),
        goal: member_or(sp, "goal", ""),
        end_date,
        pbis,
        board_id: board_id.to_owned(),
    };
    assert(sprint@.pbis =~= Seq::<PbiV>::empty());
    Ok((id, sprint))
}

/// Whether every issue of a sprint answer has readable story points.
pub open spec fn issues_readable(issues: Seq<JsonV>, doc: JsonV) -> bool {
    forall|i: int| 0 <= i < issues.len() ==> story_points_readable(#[trigger] issues[i].idx("fields"@), doc)
}

/// The issues of a sprint answer, ordered by status; none when the answer
/// has no issue list.
pub open spec fn sprint_pbis_spec(response: JsonV, doc: JsonV) -> Seq<PbiV> {
    let issues = response.idx("issues"@);
    if issues is Array {
        by_rank(issues.items().map_values(|i: JsonV| sprint_issue_pbi(i, doc)))
    } else {
        Seq::empty()
    }
}

/// The issues a sprint answer lists, read in Jira's order; none when the
/// answer has no issue list.
pub open spec fn sprint_issues_read(response: JsonV, doc: JsonV) -> Seq<PbiV> {
    let issues = response.idx("issues"@);
    if issues is Array {
        issues.items().map_values(|i: JsonV| sprint_issue_pbi(i, doc))
    } else {
        Seq::empty()
    }
}

/// The issues of a sprint come ordered by the workflow rank of their
/// status, lowest first; they are exactly the issues the answer lists, as
/// often as listed; and issues of the same rank keep Jira's order.
pub proof fn law_sprint_issues_ordered_by_status(response: JsonV, doc: JsonV)
    ensures
        forall|i: int, j: int|
            0 <= i <= j < sprint_pbis_spec(response, doc).len() ==> status_rank(
                #[trigger] sprint_pbis_spec(response, doc)[i].status,
            ) <= status_rank(#[trigger] sprint_pbis_spec(response, doc)[j].status),
        sprint_pbis_spec(response, doc).to_multiset() == sprint_issues_read(response, doc).to_multiset(),
        forall|k: u8| #[trigger] of_rank(sprint_pbis_spec(response, doc), k) == of_rank(sprint_issues_read(response, doc), k),
{
    let read = sprint_issues_read(response, doc);
    if response.idx("issues"@) is Array {
        law_by_rank_sorted(read);
        law_by_rank_permutation(read);
        assert forall|k: u8| #[trigger] of_rank(sprint_pbis_spec(response, doc), k) == of_rank(read, k) by {
            law_by_rank_stable(read, k);
        }
    } else {
        assert(sprint_pbis_spec(response, doc) =~= read);
    }
}

/// Reads the issues of a sprint answer and orders them by status.
pub fn sprint_pbis(response: &Json, doc: &Json) -> (r: Vec<Pbi>)
    requires
        issues_readable(response@.idx("issues"@).items(), doc@),
    ensures
        pbi_views(r@) == sprint_pbis_spec(response@, doc@),
        forall|i: int, j: int|
            0 <= i <= j < r@.len() ==> status_rank(#[trigger] r@[i]@.status) <= status_rank(#[trigger] r@[j]@.status),
        pbi_views(r@).to_multiset() == sprint_issues_read(response@, doc@).to_multiset(),
{
    proof {
        law_sprint_issues_ordered_by_status(response@, doc@);
    }
    let null = Json::Null;
    let issues = response.at("issues", &null);
    let mut pbis: Vec<Pbi> = Vec::new();
    if issues.is_array() {
        let items = issues.items_of();
        let ghost vs = view_items(items@);
        proof {
            lemma_view_items(items@);
        }
        let mut i: usize = 0;
        while i < items.len()
            invariant
                vs == view_items(items@),
                vs == response@.idx("issues"@).items(),
                vs.len() == items@.len(),
                forall|j: int| 0 <= j < items@.len() ==> #[trigger] vs[j] == items@[j]@,
                issues_readable(vs, doc@),
                i <= items@.len(),
                pbi_views(pbis@) == vs.take(i as int).map_values(|x: JsonV| sprint_issue_pbi(x, doc@)),
            decreases items@.len() - i,
        {
            assert(story_points_readable(vs[i as int].idx("fields"@), doc@));
            let p = sprint_pbi_from_json(&items[i], doc);
            let ghost before = pbi_views(pbis@);
            let ghost pv = p@;
            assert(pv == sprint_issue_pbi(vs[i as int], doc@));
            pbis.push(p);
            assert(pbi_views(pbis@) =~= before.push(pv));
            assert(vs.take(i + 1) =~= vs.take(i as int).push(vs[i as int]));
            assert(pbi_views(pbis@) =~= vs.take(i + 1).map_values(|x: JsonV| sprint_issue_pbi(x, doc@)));
            i = i + 1;
        }
        assert(vs.take(items@.len() as int) =~= vs);
    } else {
        assert(pbi_views(pbis@) =~= Seq::<PbiV>::empty());
    }
    let ghost unsorted = pbi_views(pbis@);
    sort_by_status(&mut pbis);
    proof {
        if !(issues@ is Array) {
            reveal(Seq::filter);
            assert forall|n: int| 0 <= n <= 8 implies by_rank_upto(unsorted, n) =~= Seq::<PbiV>::empty() by {
                lemma_upto_empty(unsorted, n);
            }
        }
        let v = sprint_pbis_spec(response@, doc@);
        assert(pbi_views(pbis@) == v);
        assert forall|i: int, j: int| 0 <= i <= j < pbis@.len() implies status_rank(#[trigger] pbis@[i]@.status)
            <= status_rank(#[trigger] pbis@[j]@.status) by {
            assert(pbis@[i]@ == v[i]);
            assert(pbis@[j]@ == v[j]);
        }
    }
    pbis
}

/// The name of the cache file of a board.
pub open spec fn cache_file_spec(board_id: Seq<char>) -> Seq<char> {
    "sprint_cache_"@ + board_id + ".json"@
}

/// The name of the cache file of a board (kept beside the configuration
/// file).
pub fn cache_file_name(board_id: &str) -> (r: String)
    ensures
        r@ == cache_file_spec(board_id@),
{
    let mut r = "sprint_cache_".to_owned();
    r.append(board_id);
    r.append(".json");
    r
}

/// An optional text as JSON: the string, or `null`.
pub open spec fn opt_text(t: Option<Seq<char>>) -> JsonV {
    match t {
        Some(x) => JsonV::Str(x),
        None => JsonV::Null,
    }
}

/// Texts as JSON strings.
pub open spec fn text_items(v: Seq<Seq<char>>) -> Seq<JsonV> {
    v.map_values(|t: Seq<char>| JsonV::Str(t))
}

/// How an issue is kept in the cache file.
pub open spec fn pbi_cache_json(p: PbiV) -> JsonV {
    JsonV::Object(
        seq![
            ("key"@, JsonV::Str(p.key)),
            ("summary"@, JsonV::Str(p.summary)),
            ("status"@, JsonV::Str(p.status)),
            ("assignee"@, JsonV::Str(p.assignee)),
            ("issue_type"@, JsonV::Str(p.issue_type)),
            ("loaded"@, JsonV::Boolean(p.loaded)),
            ("labels"@, JsonV::Array(text_items(p.labels))),
            ("description"@, opt_text(p.description)),
            ("priority"@, opt_text(p.priority)),
            ("story_points"@, match p.story_points {
                Some(n) => JsonV::Number(n),
                None => JsonV::Null,
            }),
            ("in_progress_at"@, opt_text(p.in_progress_at)),
            ("resolved_at"@, opt_text(p.resolved_at)),
        ],
    )
}

/// The issues as kept in the cache file.
pub open spec fn pbis_cache_json(s: Seq<PbiV>) -> Seq<JsonV> {
    s.map_values(|p: PbiV| pbi_cache_json(p))
}

/// The cache file's document for a sprint.
pub open spec fn sprint_cache_json(s: SprintV) -> JsonV {
    JsonV::Object(
        seq![
            ("sprint_name"@, JsonV::Str(s.name)),
            ("sprint_goal"@, JsonV::Str(s.goal)),
            ("sprint_end_date"@, JsonV::Str(s.end_date)),
            ("pbis"@, JsonV::Array(pbis_cache_json(s.pbis))),
            ("board_id"@, JsonV::Str(s.board_id)),
        ],
    )
}

/// An optional text as JSON.
fn opt_text_json(t: &Option<String>) -> (r: Json)
    ensures
        r@ == opt_text(opt_view(*t)),
{
    match t {
        Some(x) => Json::Str(x.clone()),
        None => Json::Null,
    }
}

/// Texts as a JSON array.
fn text_array(v: &Vec<String>) -> (r: Json)
    ensures
        r@ == JsonV::Array(text_items(strs(v@))),
{
    let mut out: Vec<Json> = Vec::new();
    let mut i: usize = 0;
    while i < v.len()
        invariant
            i <= v@.len(),
            out@.len() == i,
            forall|j: int| 0 <= j < i ==> #[trigger] out@[j]@ == JsonV::Str(v@[j]@),
        decreases v@.len() - i,
    {
        out.push(Json::Str(v[i].clone()));
        i = i + 1;
    }
    proof {
        lemma_view_items(out@);
        assert forall|j: int| 0 <= j < out@.len() implies #[trigger] view_items(out@)[j] == text_items(strs(v@))[j] by {
            assert(strs(v@)[j] == v@[j]@);
            assert(out@[j]@ == JsonV::Str(v@[j]@));
            assert(view_items(out@)[j] == view_json(out@[j]));
        }
        assert(view_items(out@) =~= text_items(strs(v@)));
    }
    Json::Array(out)
}

/// An issue as the cache file keeps it.
pub fn pbi_to_cache(p: &Pbi) -> (r: Json)
    ensures
        r@ == pbi_cache_json(p@),
{
    let mut m: Vec<(String, Json)> = Vec::new();
    m.push(("key".to_owned(), Json::Str(p.key.clone())));
    m.push(("summary".to_owned(), Json::Str(p.summary.clone())));
    m.push(("status".to_owned(), Json::Str(p.status.clone())));
    m.push(("assignee".to_owned(), Json::Str(p.assignee.clone())));
    m.push(("issue_type".to_owned(), Json::Str(p.issue_type.clone())));
    m.push(("loaded".to_owned(), Json::Boolean(p.loaded)));
    m.push(("labels".to_owned(), text_array(&p.labels)));
    m.push(("description".to_owned(), opt_text_json(&p.description)));
    m.push(("priority".to_owned(), opt_text_json(&p.priority)));
    let sp = match p.story_points {
        Some(n) => Json::Number(n),
        None => Json::Null,
    };
    m.push(("story_points".to_owned(), sp));
    m.push(("in_progress_at".to_owned(), opt_text_json(&p.in_progress_at)));
    m.push(("resolved_at".to_owned(), opt_text_json(&p.resolved_at)));
    proof {
        lemma_view_members(m@);
        assert(view_members(m@) =~= pbi_cache_json(p@)->Object_0);
    }
    Json::Object(m)
}

/// The cache file's document for a sprint.
pub fn sprint_to_cache(sprint: &Sprint) -> (r: Json)
    ensures
        r@ == sprint_cache_json(sprint@),
{
    let mut items: Vec<Json> = Vec::new();
    let mut i: usize = 0;
    while i < sprint.pbis.len()
        invariant
            i <= sprint.pbis@.len(),
            items@.len() == i,
            forall|j: int| 0 <= j < i ==> #[trigger] items@[j]@ == pbi_cache_json(sprint.pbis@[j]@),
        decreases sprint.pbis@.len() - i,
    {
        items.push(pbi_to_cache(&sprint.pbis[i]));
        i = i + 1;
    }
    proof {
        lemma_view_items(items@);
        assert forall|j: int| 0 <= j < items@.len() implies #[trigger] view_items(items@)[j] == pbis_cache_json(sprint@.pbis)[j] by {
            assert(sprint@.pbis[j] == sprint.pbis@[j]@);
            assert(items@[j]@ == pbi_cache_json(sprint.pbis@[j]@));
            assert(view_items(items@)[j] == view_json(items@[j]));
        }
        assert(view_items(items@) =~= pbis_cache_json(sprint@.pbis));
    }
    let mut m: Vec<(String, Json)> = Vec::new();
    m.push(("sprint_name".to_owned(), Json::Str(sprint.name.clone())));
    m.push(("sprint_goal".to_owned(), Json::Str(sprint.goal.clone())));
    m.push(("sprint_end_date".to_owned(), Json::Str(sprint.end_date.clone())));
    m.push(("pbis".to_owned(), Json::Array(items)));
    m.push(("board_id".to_owned(), Json::Str(sprint.board_id.clone())));
    proof {
        lemma_view_members(m@);
        assert(view_members(m@) =~= sprint_cache_json(sprint@)->Object_0);
    }
    Json::Object(m)
}

/// The text of the cache file: the document pretty-printed with two
/// spaces.
pub fn save_sprint_cache(sprint: &Sprint) -> (r: String)
    ensures
        r@ == json_pretty_text(sprint_cache_json(sprint@), 2),
{
    let data = sprint_to_cache(sprint);
    stringify_pretty(&data, 2)
}

/// An issue read back from the cache file; what the file does not keep
/// reads as empty (`Unassigned` for the assignee), and the raw text is the
/// item in compact form.
pub open spec fn cached_pbi(item: JsonV) -> PbiV {
    PbiV {
        key: item.idx("key"@).str_or(""@),
        summary: item.idx("summary"@).str_or(""@),
        status: item.idx("status"@).str_or(""@),
        assignee: item.idx("assignee"@).str_or("Unassigned"@),
        issue_type: item.idx("issue_type"@).str_or(""@),
        description: item.idx("description"@).str_of(),
        priority: item.idx("priority"@).str_of(),
        story_points: item.idx("story_points"@).number_of(),
        labels: str_items(item.idx("labels"@).items()),
        loaded: match item.idx("loaded"@).bool_of() {
            Some(b) => b,
            None => false,
        },
        in_progress_at: item.idx("in_progress_at"@).str_of(),
        resolved_at: item.idx("resolved_at"@).str_of(),
        raw: json_dump_text(item),
        resolution: item.idx("resolution"@).str_of(),
        components: str_items(item.idx("components"@).items()),
        creator: item.idx("creator"@).str_or(""@),
        reporter: item.idx("reporter"@).str_or(""@),
        project: item.idx("project"@).str_or(""@),
    }
}

/// A sprint read back from the cache document, its issues ordered by
/// status; a missing board id reads as `board_id`.
pub open spec fn cached_sprint(data: JsonV, board_id: Seq<char>) -> SprintV {
    SprintV {
        name: data.idx("sprint_name"@).str_or(""@),
        goal: data.idx("sprint_goal"@).str_or(""@),
        end_date: data.idx("sprint_end_date"@).str_or(""@),
        pbis: by_rank(data.idx("pbis"@).items().map_values(|i: JsonV| cached_pbi(i))),
        board_id: data.idx("board_id"@).str_or(board_id),
    }
}

/// Reads an issue back from the cache document.
fn pbi_from_cache(item: &Json) -> (r: Pbi)
    ensures
        r@ == cached_pbi(item@),
{
    let null = Json::Null;
    Pbi {
        key: member_or(item, "key", ""),
        summary: member_or(item, "summary", ""),
        status: member_or(item, "status", ""),
        assignee: member_or(item, "assignee", "Unassigned"),
        issue_type: member_or(item, "issue_type", ""),
        description: item.at("description", &null).as_string(),
        priority: item.at("priority", &null).as_string(),
        story_points: item.at("story_points", &null).number(),
        labels: strings_of(item.at("labels", &null)),
        loaded: match item.at("loaded", &null).as_bool() {
            Some(b) => b,
            None => false,
        },
        in_progress_at: item.at("in_progress_at", &null).as_string(),
        resolved_at: item.at("resolved_at", &null).as_string(),
        raw: dump(item),
        resolution: item.at("resolution", &null).as_string(),
        components: strings_of(item.at("components", &null)),
        creator: member_or(item, "creator", ""),
        reporter: member_or(item, "reporter", ""),
        project: member_or(item, "project", ""),
    }
}

/// Reads a sprint back from the cache document (see [`cached_sprint`]).
pub fn sprint_from_cache(data: &Json, board_id: &str) -> (r: Sprint)
    ensures
        r@ == cached_sprint(data@, board_id@),
{
    let null = Json::Null;
    let items = data.at("pbis", &null).items_of();
    let ghost vs = view_items(items@);
    proof {
        lemma_view_items(items@);
    }
    let mut pbis: Vec<Pbi> = Vec::new();
    let mut i: usize = 0;
    while i < items.len()
        invariant
            vs == view_items(items@),
            vs == data@.idx("pbis"@).items(),
            vs.len() == items@.len(),
            forall|j: int| 0 <= j < items@.len() ==> #[trigger] vs[j] == items@[j]@,
            i <= items@.len(),
            pbi_views(pbis@) == vs.take(i as int).map_values(|x: JsonV| cached_pbi(x)),
        decreases items@.len() - i,
    {
        let p = pbi_from_cache(&items[i]);
        let ghost before = pbi_views(pbis@);
        let ghost pv = p@;
        assert(pv == cached_pbi(vs[i as int]));
        pbis.push(p);
        assert(pbi_views(pbis@) =~= before.push(pv));
        assert(vs.take(i + 1) =~= vs.take(i as int).push(vs[i as int]));
        i = i + 1;
    }
    assert(vs.take(items@.len() as int) =~= vs);
    sort_by_status(&mut pbis);
    Sprint {
        name: member_or(data, "sprint_name", ""),
        goal: member_or(data, "sprint_goal", ""),
        end_date: member_or(data, "sprint_end_date", ""),
        pbis,
        board_id: member_or(data, "board_id", board_id),
    }
}

/// Reads the cache file's text: `None` when it is not valid JSON.
pub fn load_sprint_cache(text: &str, board_id: &str) -> (r: Option<Sprint>)
    ensures
        match r {
            Some(sp) => json_text_value(text@) matches Some(d) && sp@ == cached_sprint(d, board_id@),
            None => json_text_value(text@) is None,
        },
{
    match parse_json_text(text) {
        Some(d) => Some(sprint_from_cache(&d, board_id)),
        None => None,
    }
}

/// What reading an issue back from the cache gives: the issue, with the
/// fields the file does not keep read as empty and the raw text replaced by
/// the cached item in compact form.
pub open spec fn restored(p: PbiV) -> PbiV {
    PbiV {
        raw: json_dump_text(pbi_cache_json(p)),
        resolution: None,
        components: Seq::empty(),
        creator: ""@,
        reporter: ""@,
        project: ""@,
        ..p
    }
}

proof fn lemma_str_items_text(v: Seq<Seq<char>>)
    ensures
        str_items(text_items(v)) == v,
    decreases v.len(),
{
    if v.len() > 0 {
        lemma_str_items_text(v.drop_last());
        assert(text_items(v).drop_last() =~= text_items(v.drop_last()));
        assert(v.drop_last().push(v.last()) =~= v);
    } else {
        assert(text_items(v) =~= Seq::<JsonV>::empty());
    }
}

/// An issue written to the cache and read back is the issue, apart from
/// what the file does not keep.
pub proof fn lemma_cached_pbi(p: PbiV)
    ensures
        cached_pbi(pbi_cache_json(p)) == restored(p),
{
    reveal_strlit("key");
    reveal_strlit("summary");
    reveal_strlit("status");
    reveal_strlit("assignee");
    reveal_strlit("issue_type");
    reveal_strlit("loaded");
    reveal_strlit("labels");
    reveal_strlit("description");
    reveal_strlit("priority");
    reveal_strlit("story_points");
    reveal_strlit("in_progress_at");
    reveal_strlit("resolved_at");
    reveal_strlit("resolution");
    reveal_strlit("components");
    reveal_strlit("creator");
    reveal_strlit("reporter");
    reveal_strlit("project");
    assert("key"@.len() == 3);
    assert("summary"@.len() == 7);
    assert("status"@.len() == 6);
    assert("assignee"@.len() == 8);
    assert("issue_type"@.len() == 10);
    assert("loaded"@.len() == 6);
    assert("labels"@.len() == 6);
    assert("description"@.len() == 11);
    assert("priority"@.len() == 8);
    assert("story_points"@.len() == 12);
    assert("in_progress_at"@.len() == 14);
    assert("resolved_at"@.len() == 11);
    assert("resolution"@.len() == 10);
    assert("components"@.len() == 10);
    assert("creator"@.len() == 7);
    assert("reporter"@.len() == 8);
    assert("project"@.len() == 7);
    assert("status"@[0] != "loaded"@[0]);
    assert("status"@[0] != "labels"@[0]);
    assert("loaded"@[1] != "labels"@[1]);
    assert("assignee"@[0] != "priority"@[0]);
    assert("description"@[0] != "resolved_at"@[0]);
    assert("issue_type"@[0] != "resolution"@[0]);
    assert("issue_type"@[0] != "components"@[0]);
    assert("summary"@[0] != "creator"@[0]);
    assert("assignee"@[0] != "reporter"@[0]);
    assert("priority"@[0] != "reporter"@[0]);
    assert("summary"@[0] != "project"@[0]);
    let m = pbi_cache_json(p)->Object_0;
    lemma_find_key_is(m, "key"@, 0);
    lemma_find_key_is(m, "summary"@, 1);
    lemma_find_key_is(m, "status"@, 2);
    lemma_find_key_is(m, "assignee"@, 3);
    lemma_find_key_is(m, "issue_type"@, 4);
    lemma_find_key_is(m, "loaded"@, 5);
    lemma_find_key_is(m, "labels"@, 6);
    lemma_find_key_is(m, "description"@, 7);
    lemma_find_key_is(m, "priority"@, 8);
    lemma_find_key_is(m, "story_points"@, 9);
    lemma_find_key_is(m, "in_progress_at"@, 10);
    lemma_find_key_is(m, "resolved_at"@, 11);
    lemma_find_key_absent(m, "resolution"@);
    lemma_find_key_absent(m, "components"@);
    lemma_find_key_absent(m, "creator"@);
    lemma_find_key_absent(m, "reporter"@);
    lemma_find_key_absent(m, "project"@);
    lemma_str_items_text(p.labels);
    assert(str_items(Seq::<JsonV>::empty()) =~= Seq::<Seq<char>>::empty());
}

/// A sprint written to the cache file and read back has the same name,
/// goal, end date and board, and the same issues (apart from what the file
/// does not keep), ordered by status.
pub proof fn law_cache_round_trip(s: SprintV, board_id: Seq<char>)
    ensures
        cached_sprint(sprint_cache_json(s), board_id) == (SprintV {
            pbis: by_rank(s.pbis.map_values(|p: PbiV| restored(p))),
            ..s
        }),
{
    reveal_strlit("sprint_name");
    reveal_strlit("sprint_goal");
    reveal_strlit("sprint_end_date");
    reveal_strlit("pbis");
    reveal_strlit("board_id");
    assert("sprint_name"@.len() == 11);
    assert("sprint_goal"@.len() == 11);
    assert("sprint_end_date"@.len() == 15);
    assert("pbis"@.len() == 4);
    assert("board_id"@.len() == 8);
    assert("sprint_name"@[7] != "sprint_goal"@[7]);
    let m = sprint_cache_json(s)->Object_0;
    lemma_find_key_is(m, "sprint_name"@, 0);
    lemma_find_key_is(m, "sprint_goal"@, 1);
    lemma_find_key_is(m, "sprint_end_date"@, 2);
    lemma_find_key_is(m, "pbis"@, 3);
    lemma_find_key_is(m, "board_id"@, 4);
    let items = pbis_cache_json(s.pbis);
    assert forall|i: int| 0 <= i < items.len() implies #[trigger] cached_pbi(items[i]) == restored(s.pbis[i]) by {
        lemma_cached_pbi(s.pbis[i]);
    }
    assert(items.map_values(|i: JsonV| cached_pbi(i)) =~= s.pbis.map_values(|p: PbiV| restored(p)));
}

/// Whether the configuration's `story_points` alias can be followed: it is
/// absent, `null` or a string.
pub open spec fn story_points_alias_ok(doc: JsonV) -> bool {
    doc.idx("alias"@).idx("story_points"@) is Null || doc.idx("alias"@).idx("story_points"@) is Str
}

/// Checks [`story_points_alias_ok`].
pub fn check_story_points_alias(doc: &Json) -> (r: bool)
    ensures
        r == story_points_alias_ok(doc@),
{
    let null = Json::Null;
    let v = doc.at("alias", &null).at("story_points", &null);
    v.is_null() || v.is_string()
}

/// A fetched sprint as plain values, or the error's text.
pub open spec fn sprint_outcome(r: Result<Sprint, String>) -> Result<SprintV, Seq<char>> {
    match r {
        Ok(s) => Ok(s@),
        Err(e) => Err(e@),
    }
}

/// The sprint `sp` with the issues of the answer `second`, or that
/// answer's error.
pub open spec fn issues_outcome(sp: SprintV, doc: JsonV, second: Result<JsonV, Seq<char>>) -> Result<SprintV, Seq<char>> {
    match second {
        Ok(issues) => Ok(SprintV { pbis: sprint_pbis_spec(issues, doc), ..sp }),
        Err(e) => Err(e),
    }
}

/// What fetching the active sprint of `board_id` gives after the board's
/// sprint list came back as `first`: that request's error; the message when
/// the board has no active sprint; else the outcome of asking for that
/// sprint's issues.
pub open spec fn active_sprint_outcome<A: JiraApi>(
    api: A,
    board_id: Seq<char>,
    doc: JsonV,
    first: Result<JsonV, Seq<char>>,
    r: Result<SprintV, Seq<char>>,
) -> bool {
    match first {
        Err(e) => r == Err::<SprintV, Seq<char>>(e),
        Ok(sprints) => match active_sprint_spec(sprints, board_id) {
            None => r == Err::<SprintV, Seq<char>>("No active sprint found for the given board."@),
            Some(found) => exists|second: Result<JsonV, Seq<char>>|
                #[trigger] api.answers_agile(sprint_issues_endpoint_spec(found.0), second) && r == issues_outcome(
                    found.1,
                    doc,
                    second,
                ),
        },
    }
}

/// Reads sprints and their issues through a [`JiraApi`].
pub struct DefaultSprintService<A> {
    pub jira_api: A,
}

impl<A: JiraApi> DefaultSprintService<A> {
    pub fn new(jira_api: A) -> (r: Self)
        ensures
            r.jira_api == jira_api,
    {
        DefaultSprintService { jira_api }
    }

    /// The issues of a sprint, ordered by status, from the agile API's list
    /// of the sprint's issues; the request's error when it fails.
    pub fn fetch_sprint_pbis(&self, sprint_id: u64, doc: &Json) -> (r: Result<Vec<Pbi>, String>)
        requires
            story_points_alias_ok(doc@),
        ensures
            r matches Ok(v) ==> exists|issues: JsonV| pbi_views(v@) == #[trigger] sprint_pbis_spec(issues, doc@),
            exists|outcome: Result<JsonV, Seq<char>>|
                #[trigger] self.jira_api.answers_agile(sprint_issues_endpoint_spec(sprint_id), outcome) && match outcome {
                    Ok(issues) => r matches Ok(v) && pbi_views(v@) == sprint_pbis_spec(issues, doc@),
                    Err(e) => r matches Err(m) && m@ == e,
                },
    {
        let endpoint = sprint_issues_endpoint(sprint_id);
        let answer = self.jira_api.get_agile(endpoint.as_str());
        assert(self.jira_api.answers_agile(sprint_issues_endpoint_spec(sprint_id), crate::api::json_outcome(answer)));
        let response = match answer {
            Ok(v) => v,
            Err(e) => {
                return Err(e);
            },
        };
        let pbis = sprint_pbis(&response, doc);
        assert(pbi_views(pbis@) == sprint_pbis_spec(response@, doc@));
        Ok(pbis)
    }

    /// The active sprint of a board with its issues ordered by status: the
    /// first sprint the board lists as active; an error when there is none
    /// or a request fails.
    pub fn fetch_active_sprint_issues(&self, board_id: &str, doc: &Json) -> (r: Result<Sprint, String>)
        requires
            story_points_alias_ok(doc@),
        ensures
            r matches Ok(s) ==> exists|sprints: JsonV, issues: JsonV|
                #![trigger active_sprint_spec(sprints, board_id@), sprint_pbis_spec(issues, doc@)]
                active_sprint_spec(sprints, board_id@) matches Some((id, sp)) && s@ == (SprintV {
                    pbis: sprint_pbis_spec(issues, doc@),
                    ..sp
                }),
            exists|first: Result<JsonV, Seq<char>>|
                #[trigger] self.jira_api.answers_agile(active_sprint_endpoint_spec(board_id@), first)
                    && active_sprint_outcome(self.jira_api, board_id@, doc@, first, sprint_outcome(r)),
    {
        let endpoint = active_sprint_endpoint(board_id);
        let answer = self.jira_api.get_agile(endpoint.as_str());
        let ghost first = crate::api::json_outcome(answer);
        assert(self.jira_api.answers_agile(active_sprint_endpoint_spec(board_id@), first));
        let response = match answer {
            Ok(v) => v,
            Err(e) => {
                return Err(e);
            },
        };
        let (id, mut sprint) = match active_sprint(&response, board_id) {
            Ok(x) => x,
            Err(e) => {
                return Err(e);
            },
        };
        let ghost sp = sprint@;
        assert(active_sprint_spec(response@, board_id@) == Some((id, sp)));
        let issues_endpoint = sprint_issues_endpoint(id);
        let answer2 = self.jira_api.get_agile(issues_endpoint.as_str());
        let ghost second = crate::api::json_outcome(answer2);
        assert(self.jira_api.answers_agile(sprint_issues_endpoint_spec(id), second));
        let issues = match answer2 {
            Ok(v) => v,
            Err(e) => {
                let r: Result<Sprint, String> = Err(e);
                assert(sprint_outcome(r) == issues_outcome(sp, doc@, second));
                assert(first == Ok::<JsonV, Seq<char>>(response@));
                assert(active_sprint_spec(response@, board_id@).unwrap().0 == id);
                assert(active_sprint_outcome(self.jira_api, board_id@, doc@, first, sprint_outcome(r)));
                return r;
            },
        };
        sprint.pbis = sprint_pbis(&issues, doc);
        assert(sprint@ == (SprintV { pbis: sprint_pbis_spec(issues@, doc@), ..sp }));
        let r: Result<Sprint, String> = Ok(sprint);
        assert(sprint_outcome(r) == issues_outcome(sp, doc@, second));
        assert(first == Ok::<JsonV, Seq<char>>(response@));
        assert(active_sprint_spec(response@, board_id@).unwrap().0 == id);
        assert(active_sprint_outcome(self.jira_api, board_id@, doc@, first, sprint_outcome(r)));
        r
    }

    /// Reads the details of an issue from Jira (a `GET` of the issue on
    /// version 2 of the API) into it; on an error the issue is left as it
    /// was and the request's error is handed back.
    pub fn fetch_pbi_details(&self, pbi: &mut Pbi, doc: &Json) -> (r: Result<(), String>)
        requires
            story_points_alias_ok(doc@),
        ensures
            r is Ok ==> exists|response: JsonV| final(pbi)@ == #[trigger] crate::pbi::with_details(old(pbi)@, response, doc@),
            r is Err ==> final(pbi)@ == old(pbi)@,
            exists|outcome: Result<JsonV, Seq<char>>|
                #[trigger] self.jira_api.answers_get(issue_endpoint_spec(old(pbi)@.key), 2, outcome) && match outcome {
                    Ok(response) => r is Ok && final(pbi)@ == crate::pbi::with_details(old(pbi)@, response, doc@),
                    Err(e) => r matches Err(m) && m@ == e,
                },
    {
        let endpoint = issue_endpoint(pbi.key.as_str());
        let answer = self.jira_api.get(endpoint.as_str(), 2);
        assert(self.jira_api.answers_get(issue_endpoint_spec(old(pbi)@.key), 2, crate::api::json_outcome(answer)));
        let response = match answer {
            Ok(v) => v,
            Err(e) => {
                return Err(e);
            },
        };
        pbi.apply_details(&response, doc);
        assert(pbi@ == crate::pbi::with_details(old(pbi)@, response@, doc@));
        Ok(())
    }
}

/// The message when no board is configured for `jira sprint`.
pub open spec fn no_board_text() -> Seq<char> {
    "No board_id found in configuration.\nPlease set it first with:\n\njira config board-id <YOUR_BOARD_ID>"@
}

/// The board `jira sprint` shows: the configured `board-id`, or the
/// message when there is none (the command then exits with status 1).
pub fn sprint_board(doc: &Json) -> (r: Result<String, String>)
    ensures
        match r {
            Ok(b) => b@ == doc@.idx("board-id"@).str_or(""@) && b@.len() > 0,
            Err(m) => doc@.idx("board-id"@).str_or(""@).len() == 0 && m@ == no_board_text(),
        },
{
    let b = crate::config::get_config(doc, "board-id");
    if b.unicode_len() == 0 {
        Err(String::from_str("No board_id found in configuration.\nPlease set it first with:\n\njira config board-id <YOUR_BOARD_ID>"))
    } else {
        Ok(b)
    }
}

/// The line printed before the sprint screen opens: whether the sprint
/// came from the cache or is being fetched for `board_id`.
pub fn sprint_source_line(from_cache: bool, board_id: &str) -> (r: String)
    ensures
        from_cache ==> r@ == "Loaded sprint from cache. Press F to refresh all items."@,
        !from_cache ==> r@ == "Fetching active sprint for board "@ + board_id@ + "..."@,
{
    if from_cache {
        String::from_str("Loaded sprint from cache. Press F to refresh all items.")
    } else {
        let mut m = String::from_str("Fetching active sprint for board ");
        m.append(board_id);
        m.append("...");
        proof {
            reveal_strlit("Fetching active sprint for board ");
            reveal_strlit("...");
        }
        m
    }
}

} // verus!
