//! Issues (product backlog items): their fields, how they are read from
//! Jira's answers, and the time spent on them.

use vstd::prelude::*;
use crate::dates::{Instant, instant_in_range, jira_instant, minutes_between, minutes_since, now_instant, parse_jira_datetime};
use crate::json::{Json, JsonNumber, JsonV, dump, json_dump_text, json_pretty_text, lemma_item_decreases, lemma_view_items, opt_view, stringify_pretty, view_items};
use crate::text::{contains, contains_spec, decimal, decimal_spec, str_eq, strs, to_lowercase, unicode_lowercase};

verus! {

/// An issue.
#[derive(Debug)]
pub struct Pbi {
    pub key: String,
    pub summary: String,
    pub status: String,
    pub assignee: String,
    pub issue_type: String,
    pub description: Option<String>,
    pub priority: Option<String>,
    /// The story points as the JSON number Jira gave.
    pub story_points: Option<JsonNumber>,
    pub labels: Vec<String>,
    pub loaded: bool,
    pub in_progress_at: Option<String>,
    pub resolved_at: Option<String>,
    pub raw: String,
    pub resolution: Option<String>,
    pub components: Vec<String>,
    pub creator: String,
    pub reporter: String,
    pub project: String,
}

/// The value of an issue.
pub struct PbiV {
    pub key: Seq<char>,
    pub summary: Seq<char>,
    pub status: Seq<char>,
    pub assignee: Seq<char>,
    pub issue_type: Seq<char>,
    pub description: Option<Seq<char>>,
    pub priority: Option<Seq<char>>,
    pub story_points: Option<JsonNumber>,
    pub labels: Seq<Seq<char>>,
    pub loaded: bool,
    pub in_progress_at: Option<Seq<char>>,
    pub resolved_at: Option<Seq<char>>,
    pub raw: Seq<char>,
    pub resolution: Option<Seq<char>>,
    pub components: Seq<Seq<char>>,
    pub creator: Seq<char>,
    pub reporter: Seq<char>,
    pub project: Seq<char>,
}

impl View for Pbi {
    type V = PbiV;

    open spec fn view(&self) -> PbiV {
        PbiV {
            key: self.key@,
            summary: self.summary@,
            status: self.status@,
            assignee: self.assignee@,
            issue_type: self.issue_type@,
            description: opt_view(self.description),
            priority: opt_view(self.priority),
            story_points: self.story_points,
            labels: strs(self.labels@),
            loaded: self.loaded,
            in_progress_at: opt_view(self.in_progress_at),
            resolved_at: opt_view(self.resolved_at),
            raw: self.raw@,
            resolution: opt_view(self.resolution),
            components: strs(self.components@),
            creator: self.creator@,
            reporter: self.reporter@,
            project: self.project@,
        }
    }
}

/// The views of a list of issues.
pub open spec fn pbi_views(s: Seq<Pbi>) -> Seq<PbiV> {
    s.map_values(|p: Pbi| p@)
}

/// A copy of an optional string.
pub fn copy_opt(s: &Option<String>) -> (r: Option<String>)
    ensures
        opt_view(r) == opt_view(*s),
{
    match s {
        Some(t) => Some(t.clone()),
        None => None,
    }
}

/// A copy of a list of strings.
pub fn copy_strs(v: &Vec<String>) -> (r: Vec<String>)
    ensures
        strs(r@) == strs(v@),
{
    let mut out: Vec<String> = Vec::new();
    let mut i: usize = 0;
    while i < v.len()
        invariant
            i <= v@.len(),
            out@.len() == i,
            forall|j: int| 0 <= j < i ==> #[trigger] out@[j]@ == v@[j]@,
        decreases v@.len() - i,
    {
        out.push(v[i].clone());
        i = i + 1;
    }
    assert(strs(out@) =~= strs(v@));
    out
}

impl Pbi {
    /// A copy of the issue.
    pub fn copy(&self) -> (r: Pbi)
        ensures
            r@ == self@,
    {
        Pbi {
            key: self.key.clone(),
            summary: self.summary.clone(),
            status: self.status.clone(),
            assignee: self.assignee.clone(),
            issue_type: self.issue_type.clone(),
            description: copy_opt(&self.description),
            priority: copy_opt(&self.priority),
            story_points: self.story_points,
            labels: copy_strs(&self.labels),
            loaded: self.loaded,
            in_progress_at: copy_opt(&self.in_progress_at),
            resolved_at: copy_opt(&self.resolved_at),
            raw: self.raw.clone(),
            resolution: copy_opt(&self.resolution),
            components: copy_strs(&self.components),
            creator: self.creator.clone(),
            reporter: self.reporter.clone(),
            project: self.project.clone(),
        }
    }
}

/// Whether a lowercased status counts as done: it contains `closed` or
/// `resolved`.
pub open spec fn done_lower(lower: Seq<char>) -> bool {
    contains_spec(lower, "closed"@) || contains_spec(lower, "resolved"@)
}

/// Whether a status counts as done (case-insensitively).
pub open spec fn is_done_status(status: Seq<char>) -> bool {
    done_lower(unicode_lowercase(status))
}

/// Whether a lowercased status counts as done.
pub fn is_done_lower(lower: &str) -> (r: bool)
    ensures
        r == done_lower(lower@),
{
    contains(lower, "closed") || contains(lower, "resolved")
}

/// Whether a lowercased status is one that has not started: `new` or
/// `open`.
pub open spec fn not_started_lower(lower: Seq<char>) -> bool {
    lower == "new"@ || lower == "open"@
}

/// Minutes spent on an issue, at time `now`: none for a status that has not
/// started (`new`, `open`) or without a readable start; otherwise from the
/// last move to "In Progress" until it was resolved (for a done issue with
/// a readable resolution time) or until `now`, and never below zero.
pub open spec fn elapsed_at(
    status: Seq<char>,
    in_progress_at: Option<Seq<char>>,
    resolved_at: Option<Seq<char>>,
    now: Instant,
) -> Option<int> {
    let lower = unicode_lowercase(status);
    if not_started_lower(lower) {
        None
    } else {
        match in_progress_at {
            None => None,
            Some(t) => match jira_instant(t) {
                None => None,
                Some(started) => {
                    let end = if done_lower(lower) {
                        match resolved_at {
                            Some(rt) => match jira_instant(rt) {
                                Some(e) => e,
                                None => now,
                            },
                            None => now,
                        }
                    } else {
                        now
                    };
                    let m = minutes_between(end, started);
                    Some(if m < 0 {
                        0
                    } else {
                        m
                    })
                },
            },
        }
    }
}

/// Reads an optional timestamp.
fn parse_opt(t: &Option<String>) -> (r: Option<Instant>)
    ensures
        r == (match opt_view(*t) {
            Some(s) => jira_instant(s),
            None => None,
        }),
        r matches Some(i) ==> instant_in_range(i),
{
    match t {
        Some(s) => parse_jira_datetime(s.as_str()),
        None => None,
    }
}

impl Pbi {
    /// Whether the issue is done: its status contains `closed` or
    /// `resolved`, in any case.
    pub fn is_done(&self) -> (r: bool)
        ensures
            r == is_done_status(self.status@),
    {
        let lower = to_lowercase(self.status.as_str());
        is_done_lower(lower.as_str())
    }

    /// Minutes spent on the issue as of `now` (see [`elapsed_at`]).
    pub fn elapsed_minutes_at(&self, now: Instant) -> (r: Option<i64>)
        requires
            instant_in_range(now),
        ensures
            match r {
                Some(m) => elapsed_at(self.status@, opt_view(self.in_progress_at), opt_view(self.resolved_at), now)
                    == Some(m as int),
                None => elapsed_at(self.status@, opt_view(self.in_progress_at), opt_view(self.resolved_at), now)
                    is None,
            },
    {
        let lower = to_lowercase(self.status.as_str());
        if str_eq(lower.as_str(), "new") || str_eq(lower.as_str(), "open") {
            return None;
        }
        let started = match parse_opt(&self.in_progress_at) {
            Some(s) => s,
            None => {
                return None;
            },
        };
        let end = if is_done_lower(lower.as_str()) {
            match parse_opt(&self.resolved_at) {
                Some(e) => e,
                None => now,
            }
        } else {
            now
        };
        let m = minutes_since(end, started);
        Some(if m < 0 {
            0
        } else {
            m
        })
    }

    /// Minutes spent on the issue until now. The clock is read here, so
    /// the result is [`elapsed_at`] for some instant `chrono` can hold.
    pub fn elapsed_minutes(&self) -> (r: Option<i64>)
        ensures
            exists|now: Instant|
                instant_in_range(now) && #[trigger] elapsed_at(
                    self.status@,
                    opt_view(self.in_progress_at),
                    opt_view(self.resolved_at),
                    now,
                ) == (match r {
                    Some(m) => Some(m as int),
                    None => None,
                }),
            r matches Some(m) ==> m >= 0,
    {
        let now = now_instant();
        let r = self.elapsed_minutes_at(now);
        assert(elapsed_at(self.status@, opt_view(self.in_progress_at), opt_view(self.resolved_at), now) == (match r {
            Some(m) => Some(m as int),
            None => None,
        }));
        r
    }
}

/// How a duration in minutes is shown: minutes below an hour, whole hours
/// below a day, whole days otherwise; nothing without a duration.
pub open spec fn elapsed_text(minutes: Option<int>) -> Seq<char> {
    match minutes {
        Some(m) => if m < 60 {
            decimal_spec(m as nat) + "m"@
        } else if m < 1440 {
            decimal_spec((m / 60) as nat) + "h"@
        } else {
            decimal_spec((m / 1440) as nat) + "d"@
        },
        None => Seq::empty(),
    }
}

/// Shows a non-negative duration in minutes (see [`elapsed_text`]).
pub fn elapsed_display(minutes: Option<i64>) -> (r: String)
    requires
        minutes matches Some(m) ==> m >= 0,
    ensures
        r@ == elapsed_text(match minutes {
            Some(m) => Some(m as int),
            None => None,
        }),
{
    match minutes {
        Some(m) => {
            let (n, unit) = if m < 60 {
                (m, "m")
            } else if m < 1440 {
                (m / 60, "h")
            } else {
                (m / 1440, "d")
            };
            let mut s = decimal(n as u64);
            s.append(unit);
            s
        },
        None => String::new(),
    }
}

/// The time spent on an issue until now, as shown in the lists.
pub fn pbi_elapsed_display(pbi: &Pbi) -> (r: String)
    ensures
        exists|now: Instant|
            instant_in_range(now) && r@ == elapsed_text(
                #[trigger] elapsed_at(pbi.status@, opt_view(pbi.in_progress_at), opt_view(pbi.resolved_at), now),
            ),
{
    let m = pbi.elapsed_minutes();
    elapsed_display(m)
}

/// Whether a changelog item moves the status to something "in progress".
pub open spec fn item_enters_progress(item: JsonV) -> bool {
    &&& item.idx("field"@).str_of() == Some("status"@)
    &&& contains_spec(unicode_lowercase(item.idx("toString"@).str_or(""@)), "in progress"@)
}

/// Whether one of the items moves the status to "in progress".
pub open spec fn any_enters_progress(items: Seq<JsonV>) -> bool {
    exists|i: int| 0 <= i < items.len() && item_enters_progress(#[trigger] items[i])
}

/// The creation time of the last history entry that moves the status to
/// "in progress" (entries without a creation time are passed over).
pub open spec fn last_progress(histories: Seq<JsonV>) -> Option<Seq<char>>
    decreases histories.len(),
{
    if histories.len() == 0 {
        None
    } else {
        let h = histories.last();
        if any_enters_progress(h.idx("items"@).items()) && h.idx("created"@).str_of() is Some {
            h.idx("created"@).str_of()
        } else {
            last_progress(histories.drop_last())
        }
    }
}

/// Whether a history entry moves the status to "in progress" and has a
/// creation time.
pub open spec fn progress_entry(h: JsonV) -> bool {
    any_enters_progress(h.idx("items"@).items()) && h.idx("created"@).str_of() is Some
}

/// Whether no history entry after the `i`-th moves the status to "in
/// progress".
pub open spec fn none_after(histories: Seq<JsonV>, i: int) -> bool {
    forall|j: int| i < j < histories.len() ==> !progress_entry(#[trigger] histories[j])
}

proof fn lemma_last_entry_gives_time(histories: Seq<JsonV>, i: int)
    requires
        0 <= i < histories.len(),
        progress_entry(histories[i]),
        none_after(histories, i),
    ensures
        last_progress(histories) == histories[i].idx("created"@).str_of(),
    decreases histories.len(),
{
    let n = histories.len() - 1;
    if i < n {
        let t = histories.drop_last();
        assert(!progress_entry(histories[n]));
        assert(t[i] == histories[i]);
        assert forall|j: int| i < j < t.len() implies !progress_entry(#[trigger] t[j]) by {
            assert(t[j] == histories[j]);
        }
        lemma_last_entry_gives_time(t, i);
    }
}

proof fn lemma_no_entry_no_time(histories: Seq<JsonV>)
    requires
        forall|i: int| 0 <= i < histories.len() ==> !progress_entry(#[trigger] histories[i]),
    ensures
        last_progress(histories) is None,
    decreases histories.len(),
{
    if histories.len() > 0 {
        let t = histories.drop_last();
        assert(!progress_entry(histories[histories.len() - 1]));
        assert forall|i: int| 0 <= i < t.len() implies !progress_entry(#[trigger] t[i]) by {
            assert(t[i] == histories[i]);
        }
        lemma_no_entry_no_time(t);
    }
}

proof fn lemma_time_from_last_entry(histories: Seq<JsonV>)
    requires
        last_progress(histories) is Some,
    ensures
        exists|i: int|
            0 <= i < histories.len() && progress_entry(#[trigger] histories[i]) && none_after(histories, i)
                && last_progress(histories) == histories[i].idx("created"@).str_of(),
    decreases histories.len(),
{
    let n = histories.len() - 1;
    if progress_entry(histories[n]) {
        assert(none_after(histories, n));
    } else {
        let t = histories.drop_last();
        lemma_time_from_last_entry(t);
        let i = choose|i: int|
            0 <= i < t.len() && progress_entry(#[trigger] t[i]) && none_after(t, i) && last_progress(t)
                == t[i].idx("created"@).str_of();
        assert(histories[i] == t[i]);
        assert forall|j: int| i < j < histories.len() implies !progress_entry(#[trigger] histories[j]) by {
            if j < n {
                assert(t[j] == histories[j]);
            }
        }
    }
}

/// The time an issue went in progress is that of the last history entry
/// that moves it there: an entry that moves it there, with none after it
/// doing so, gives its creation time; without any such entry there is no
/// time; and a time found is the creation time of such a last entry.
pub proof fn law_last_progress_is_the_last_entry(histories: Seq<JsonV>)
    ensures
        forall|i: int|
            0 <= i < histories.len() && progress_entry(#[trigger] histories[i]) && none_after(histories, i)
                ==> last_progress(histories) == histories[i].idx("created"@).str_of(),
        (forall|i: int| 0 <= i < histories.len() ==> !progress_entry(#[trigger] histories[i])) ==> last_progress(
            histories,
        ) is None,
        last_progress(histories) is Some ==> exists|i: int|
            0 <= i < histories.len() && progress_entry(#[trigger] histories[i]) && none_after(histories, i)
                && last_progress(histories) == histories[i].idx("created"@).str_of(),
{
    assert forall|i: int|
        0 <= i < histories.len() && progress_entry(#[trigger] histories[i]) && none_after(histories, i)
            implies last_progress(histories) == histories[i].idx("created"@).str_of() by {
        lemma_last_entry_gives_time(histories, i);
    }
    if forall|i: int| 0 <= i < histories.len() ==> !progress_entry(#[trigger] histories[i]) {
        lemma_no_entry_no_time(histories);
    }
    if last_progress(histories) is Some {
        lemma_time_from_last_entry(histories);
    }
}

/// Whether a changelog item moves the status to "in progress".
fn enters_progress(item: &Json) -> (r: bool)
    ensures
        r == item_enters_progress(item@),
{
    let field = match item.get("field") {
        Some(f) => f.as_string(),
        None => None,
    };
    match field {
        Some(f) => {
            if !str_eq(f.as_str(), "status") {
                return false;
            }
        },
        None => {
            return false;
        },
    }
    let to = crate::config::get_config(item, "toString");
    let lower = to_lowercase(to.as_str());
    contains(lower.as_str(), "in progress")
}

/// The creation time of the last move to "In Progress" in a changelog.
pub fn last_in_progress_at(changelog: &Json) -> (r: Option<String>)
    ensures
        opt_view(r) == last_progress(changelog@.idx("histories"@).items()),
        forall|i: int|
            0 <= i < changelog@.idx("histories"@).items().len() && progress_entry(
                #[trigger] changelog@.idx("histories"@).items()[i],
            ) && none_after(changelog@.idx("histories"@).items(), i) ==> opt_view(r)
                == changelog@.idx("histories"@).items()[i].idx("created"@).str_of(),
{
    proof {
        law_last_progress_is_the_last_entry(changelog@.idx("histories"@).items());
    }
    let histories: &[Json] = match changelog.get("histories") {
        Some(h) => h.items_of(),
        None => {
            let e: &[Json] = &[];
            assert(view_items(e@) =~= Seq::<JsonV>::empty());
            e
        },
    };
    let ghost hs = view_items(histories@);
    proof {
        lemma_view_items(histories@);
    }
    let mut last: Option<String> = None;
    let mut i: usize = 0;
    while i < histories.len()
        invariant
            hs == view_items(histories@),
            hs == changelog@.idx("histories"@).items(),
            hs.len() == histories@.len(),
            forall|j: int| 0 <= j < histories@.len() ==> #[trigger] hs[j] == histories@[j]@,
            i <= histories@.len(),
            opt_view(last) == last_progress(hs.take(i as int)),
        decreases histories@.len() - i,
    {
        let h = &histories[i];
        assert(hs.take(i + 1).drop_last() =~= hs.take(i as int));
        assert(hs.take(i + 1).last() == h@);
        let items: &[Json] = match h.get("items") {
            Some(it) => it.items_of(),
            None => {
                let e: &[Json] = &[];
                assert(view_items(e@) =~= Seq::<JsonV>::empty());
                e
            },
        };
        proof {
            lemma_view_items(items@);
        }
        let mut found = false;
        let mut j: usize = 0;
        while j < items.len()
            invariant
                view_items(items@) == h@.idx("items"@).items(),
                view_items(items@).len() == items@.len(),
                forall|k: int| 0 <= k < items@.len() ==> #[trigger] view_items(items@)[k] == items@[k]@,
                j <= items@.len(),
                found == exists|k: int| 0 <= k < j && item_enters_progress(#[trigger] view_items(items@)[k]),
            decreases items@.len() - j,
        {
            if enters_progress(&items[j]) {
                assert(item_enters_progress(view_items(items@)[j as int]));
                found = true;
            }
            j = j + 1;
        }
        if found {
            match h.get("created") {
                Some(c) => match c.as_string() {
                    Some(t) => {
                        last = Some(t);
                    },
                    None => {},
                },
                None => {},
            }
        }
        i = i + 1;
    }
    assert(hs.take(histories@.len() as int) =~= hs);
    last
}

/// Joins two texts with a space, leaving out an empty one.
pub open spec fn join_nonempty(acc: Seq<char>, c: Seq<char>) -> Seq<char> {
    if c.len() == 0 {
        acc
    } else if acc.len() == 0 {
        c
    } else {
        acc + " "@ + c
    }
}

/// The text of an Atlassian Document Format node: its own `text`, then the
/// text of each child in `content`, separated by single spaces (empty
/// parts left out).
pub open spec fn adf_text(node: JsonV) -> Seq<char>
    decreases node, node.idx("content"@).items().len() + 1,
{
    adf_prefix(node, node.idx("content"@).items().len() as int)
}

/// The text of a node with only its first `k` children.
pub open spec fn adf_prefix(node: JsonV, k: int) -> Seq<char>
    decreases node, k,
{
    if k <= 0 || k > node.idx("content"@).items().len() {
        node.idx("text"@).str_or(""@)
    } else {
        proof {
            lemma_item_decreases(node, "content"@, k - 1);
        }
        join_nonempty(adf_prefix(node, k - 1), adf_text(node.idx("content"@).items()[k - 1]))
    }
}

/// The plain text of an Atlassian Document Format node (see [`adf_text`]).
pub fn extract_adf_text(node: &Json) -> (r: String)
    ensures
        r@ == adf_text(node@),
    decreases node@,
{
    let mut text = crate::config::get_config(node, "text");
    let children: &[Json] = match node.get("content") {
        Some(c) => c.items_of(),
        None => {
            let e: &[Json] = &[];
            assert(view_items(e@) =~= Seq::<JsonV>::empty());
            e
        },
    };
    let ghost cs = view_items(children@);
    proof {
        lemma_view_items(children@);
    }
    let mut k: usize = 0;
    while k < children.len()
        invariant
            cs == view_items(children@),
            cs == node@.idx("content"@).items(),
            cs.len() == children@.len(),
            forall|j: int| 0 <= j < children@.len() ==> #[trigger] cs[j] == children@[j]@,
            k <= children@.len(),
            text@ == adf_prefix(node@, k as int),
        decreases children@.len() - k,
    {
        proof {
            lemma_item_decreases(node@, "content"@, k as int);
        }
        assert(cs[k as int] == children@[k as int]@);
        let child_text = extract_adf_text(&children[k]);
        if child_text.as_str().unicode_len() > 0 {
            if text.as_str().unicode_len() > 0 {
                text.append(" ");
            }
            text.append(child_text.as_str());
        }
        k = k + 1;
    }
    text
}

/// The string items of an array, in order.
pub open spec fn str_items(items: Seq<JsonV>) -> Seq<Seq<char>>
    decreases items.len(),
{
    if items.len() == 0 {
        Seq::empty()
    } else {
        match items.last().str_of() {
            Some(t) => str_items(items.drop_last()).push(t),
            None => str_items(items.drop_last()),
        }
    }
}

/// The string `name` members of the items of an array, in order.
pub open spec fn item_names(items: Seq<JsonV>) -> Seq<Seq<char>>
    decreases items.len(),
{
    if items.len() == 0 {
        Seq::empty()
    } else {
        match items.last().idx("name"@).str_of() {
            Some(t) => item_names(items.drop_last()).push(t),
            None => item_names(items.drop_last()),
        }
    }
}

/// The string items of an array value (`members().filter_map(as_str)`).
pub fn strings_of(v: &Json) -> (r: Vec<String>)
    ensures
        strs(r@) == str_items(v@.items()),
{
    let items = v.items_of();
    let ghost vs = view_items(items@);
    proof {
        lemma_view_items(items@);
    }
    let mut out: Vec<String> = Vec::new();
    let mut i: usize = 0;
    while i < items.len()
        invariant
            vs == view_items(items@),
            vs == v@.items(),
            vs.len() == items@.len(),
            forall|j: int| 0 <= j < items@.len() ==> #[trigger] vs[j] == items@[j]@,
            i <= items@.len(),
            strs(out@) == str_items(vs.take(i as int)),
        decreases items@.len() - i,
    {
        assert(vs.take(i + 1).drop_last() =~= vs.take(i as int));
        assert(vs.take(i + 1).last() == items@[i as int]@);
        match items[i].as_string() {
            Some(t) => {
                let ghost before = strs(out@);
                out.push(t);
                assert(strs(out@) =~= before.push(out@[out@.len() - 1]@));
            },
            None => {},
        }
        i = i + 1;
    }
    assert(vs.take(items@.len() as int) =~= vs);
    out
}

/// The string `name` members of the items of an array value.
pub fn names_of(v: &Json) -> (r: Vec<String>)
    ensures
        strs(r@) == item_names(v@.items()),
{
    let items = v.items_of();
    let ghost vs = view_items(items@);
    proof {
        lemma_view_items(items@);
    }
    let null = Json::Null;
    let mut out: Vec<String> = Vec::new();
    let mut i: usize = 0;
    while i < items.len()
        invariant
            null@ is Null,
            vs == view_items(items@),
            vs == v@.items(),
            vs.len() == items@.len(),
            forall|j: int| 0 <= j < items@.len() ==> #[trigger] vs[j] == items@[j]@,
            i <= items@.len(),
            strs(out@) == item_names(vs.take(i as int)),
        decreases items@.len() - i,
    {
        assert(vs.take(i + 1).drop_last() =~= vs.take(i as int));
        assert(vs.take(i + 1).last() == items@[i as int]@);
        match items[i].at("name", &null).as_string() {
            Some(t) => {
                let ghost before = strs(out@);
                out.push(t);
                assert(strs(out@) =~= before.push(out@[out@.len() - 1]@));
            },
            None => {},
        }
        i = i + 1;
    }
    assert(vs.take(items@.len() as int) =~= vs);
    out
}

/// A string member or a default.
fn text_or(v: &Json, default: &str) -> (r: String)
    ensures
        r@ == v@.str_or(default@),
{
    match v.as_string() {
        Some(t) => t,
        None => default.to_owned(),
    }
}

/// An issue as the search endpoint describes it: missing texts read as
/// `-`, and the raw text is the `fields` object pretty-printed with two
/// spaces.
pub open spec fn issue_pbi(issue: JsonV) -> PbiV {
    let f = issue.idx("fields"@);
    PbiV {
        key: issue.idx("key"@).str_or("-"@),
        summary: f.idx("summary"@).str_or("-"@),
        status: f.idx("status"@).idx("name"@).str_or("-"@),
        assignee: f.idx("assignee"@).idx("displayName"@).str_or("-"@),
        issue_type: f.idx("issuetype"@).idx("name"@).str_or("-"@),
        description: f.idx("description"@).str_of(),
        priority: f.idx("priority"@).idx("name"@).str_of(),
        story_points: None,
        labels: str_items(f.idx("labels"@).items()),
        loaded: false,
        in_progress_at: last_progress(issue.idx("changelog"@).idx("histories"@).items()),
        resolved_at: f.idx("resolutiondate"@).str_of(),
        raw: json_pretty_text(f, 2),
        resolution: f.idx("resolution"@).idx("name"@).str_of(),
        components: item_names(f.idx("components"@).items()),
        creator: f.idx("creator"@).idx("displayName"@).str_or("-"@),
        reporter: f.idx("reporter"@).idx("displayName"@).str_or("-"@),
        project: f.idx("project"@).idx("name"@).str_or("-"@),
    }
}

/// Reads an issue of a search answer (see [`issue_pbi`]).
pub fn pbi_from_json(issue: &Json) -> (r: Pbi)
    ensures
        r@ == issue_pbi(issue@),
{
    let null = Json::Null;
    let f = issue.at("fields", &null);
    let changelog = issue.at("changelog", &null);
    Pbi {
        key: text_or(issue.at("key", &null), "-"),
        summary: text_or(f.at("summary", &null), "-"),
        status: text_or(f.at("status", &null).at("name", &null), "-"),
        assignee: text_or(f.at("assignee", &null).at("displayName", &null), "-"),
        issue_type: text_or(f.at("issuetype", &null).at("name", &null), "-"),
        description: f.at("description", &null).as_string(),
        priority: f.at("priority", &null).at("name", &null).as_string(),
        story_points: None,
        labels: strings_of(f.at("labels", &null)),
        loaded: false,
        in_progress_at: last_in_progress_at(changelog),
        resolved_at: f.at("resolutiondate", &null).as_string(),
        raw: stringify_pretty(f, 2),
        resolution: f.at("resolution", &null).at("name", &null).as_string(),
        components: names_of(f.at("components", &null)),
        creator: text_or(f.at("creator", &null).at("displayName", &null), "-"),
        reporter: text_or(f.at("reporter", &null).at("displayName", &null), "-"),
        project: text_or(f.at("project", &null).at("name", &null), "-"),
    }
}

/// Whether the story points of `fields` can be found: they are a number
/// there, or the `story_points` alias is absent, `null` or a string.
pub open spec fn story_points_readable(fields: JsonV, doc: JsonV) -> bool {
    fields.idx("story_points"@).number_of() is Some || doc.idx("alias"@).idx("story_points"@) is Null || doc.idx(
        "alias"@,
    ).idx("story_points"@) is Str
}

/// The story points of an issue: its `story_points` field, or the field
/// that the `story_points` alias names, when it is a number.
pub open spec fn story_points_in(fields: JsonV, doc: JsonV) -> Option<JsonNumber> {
    match fields.idx("story_points"@).number_of() {
        Some(n) => Some(n),
        None => match doc.idx("alias"@).idx("story_points"@).str_of() {
            Some(a) => fields.idx(a).number_of(),
            None => None,
        },
    }
}

/// Finds the story points in an issue's fields, looking up the
/// `story_points` alias of the configuration `doc` (a name that is already
/// in lower case) when the field itself holds none.
pub fn extract_story_points(fields: &Json, doc: &Json) -> (r: Option<JsonNumber>)
    requires
        story_points_readable(fields@, doc@),
    ensures
        r == story_points_in(fields@, doc@),
{
    let null = Json::Null;
    match fields.at("story_points", &null).number() {
        Some(n) => Some(n),
        None => match doc.at("alias", &null).at("story_points", &null).as_string() {
            Some(a) => fields.at(a.as_str(), &null).number(),
            None => None,
        },
    }
}

/// An issue as the sprint endpoint describes it: missing texts read as
/// empty (`-` for status and type, `Unassigned` for the assignee), story
/// points are looked up, and the raw text is the compact `fields` object.
pub open spec fn sprint_issue_pbi(issue: JsonV, doc: JsonV) -> PbiV {
    let f = issue.idx("fields"@);
    PbiV {
        key: issue.idx("key"@).str_or(""@),
        summary: f.idx("summary"@).str_or(""@),
        status: f.idx("status"@).idx("name"@).str_or("-"@),
        assignee: f.idx("assignee"@).idx("displayName"@).str_or("Unassigned"@),
        issue_type: f.idx("issuetype"@).idx("name"@).str_or("-"@),
        description: f.idx("description"@).str_of(),
        priority: f.idx("priority"@).idx("name"@).str_of(),
        story_points: story_points_in(f, doc),
        labels: str_items(f.idx("labels"@).items()),
        loaded: false,
        in_progress_at: last_progress(issue.idx("changelog"@).idx("histories"@).items()),
        resolved_at: f.idx("resolutiondate"@).str_of(),
        raw: json_dump_text(f),
        resolution: f.idx("resolution"@).idx("name"@).str_of(),
        components: item_names(f.idx("components"@).items()),
        creator: f.idx("creator"@).idx("displayName"@).str_or(""@),
        reporter: f.idx("reporter"@).idx("displayName"@).str_or(""@),
        project: f.idx("project"@).idx("name"@).str_or(""@),
    }
}

/// Reads an issue of a sprint answer (see [`sprint_issue_pbi`]).
pub fn sprint_pbi_from_json(issue: &Json, doc: &Json) -> (r: Pbi)
    requires
        story_points_readable(issue@.idx("fields"@), doc@),
    ensures
        r@ == sprint_issue_pbi(issue@, doc@),
{
    let null = Json::Null;
    let f = issue.at("fields", &null);
    let changelog = issue.at("changelog", &null);
    Pbi {
        key: text_or(issue.at("key", &null), ""),
        summary: text_or(f.at("summary", &null), ""),
        status: text_or(f.at("status", &null).at("name", &null), "-"),
        assignee: text_or(f.at("assignee", &null).at("displayName", &null), "Unassigned"),
        issue_type: text_or(f.at("issuetype", &null).at("name", &null), "-"),
        description: f.at("description", &null).as_string(),
        priority: f.at("priority", &null).at("name", &null).as_string(),
        story_points: extract_story_points(f, doc),
        labels: strings_of(f.at("labels", &null)),
        loaded: false,
        in_progress_at: last_in_progress_at(changelog),
        resolved_at: f.at("resolutiondate", &null).as_string(),
        raw: dump(f),
        resolution: f.at("resolution", &null).at("name", &null).as_string(),
        components: names_of(f.at("components", &null)),
        creator: text_or(f.at("creator", &null).at("displayName", &null), ""),
        reporter: text_or(f.at("reporter", &null).at("displayName", &null), ""),
        project: text_or(f.at("project", &null).at("name", &null), ""),
    }
}

/// The description of an issue: a string as it is, a document's text, or
/// none.
pub open spec fn description_of(desc: JsonV) -> Option<Seq<char>> {
    match desc {
        JsonV::Str(t) => Some(t),
        JsonV::Object(_) => Some(adf_text(desc)),
        _ => None,
    }
}

/// The issue after its details were read from an issue answer: the
/// description, priority, story points, labels, start and resolution times
/// are replaced, status and assignee only where the answer has them, and it
/// is marked loaded.
pub open spec fn with_details(p: PbiV, response: JsonV, doc: JsonV) -> PbiV {
    let f = response.idx("fields"@);
    PbiV {
        description: description_of(f.idx("description"@)),
        priority: f.idx("priority"@).idx("name"@).str_of(),
        story_points: story_points_in(f, doc),
        labels: str_items(f.idx("labels"@).items()),
        status: f.idx("status"@).idx("name"@).str_or(p.status),
        assignee: f.idx("assignee"@).idx("displayName"@).str_or(p.assignee),
        in_progress_at: last_progress(response.idx("changelog"@).idx("histories"@).items()),
        resolved_at: f.idx("resolutiondate"@).str_of(),
        loaded: true,
        ..p
    }
}

impl Pbi {
    /// Fills in the details of the issue from an issue answer (see
    /// [`with_details`]).
    pub fn apply_details(&mut self, response: &Json, doc: &Json)
        requires
            story_points_readable(response@.idx("fields"@), doc@),
        ensures
            final(self)@ == with_details(old(self)@, response@, doc@),
    {
        let null = Json::Null;
        let f = response.at("fields", &null);
        let desc = f.at("description", &null);
        self.description = if desc.is_string() {
            desc.as_string()
        } else if desc.is_object() {
            Some(extract_adf_text(desc))
        } else {
            None
        };
        self.priority = f.at("priority", &null).at("name", &null).as_string();
        self.story_points = extract_story_points(f, doc);
        self.labels = strings_of(f.at("labels", &null));
        match f.at("status", &null).at("name", &null).as_string() {
            Some(s) => {
                self.status = s;
            },
            None => {},
        }
        match f.at("assignee", &null).at("displayName", &null).as_string() {
            Some(a) => {
                self.assignee = a;
            },
            None => {},
        }
        self.in_progress_at = last_in_progress_at(response.at("changelog", &null));
        self.resolved_at = f.at("resolutiondate", &null).as_string();
        self.loaded = true;
    }
}

} // verus!
