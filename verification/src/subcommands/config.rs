//! `jira config`: showing and changing single settings.

use vstd::prelude::*;
use crate::json::{Json, JsonV};
use vstd::string::StringSliceAdditionalSpecFns;
use crate::text::{to_lowercase, unicode_lowercase, str_eq, chars_of, repeat_char, pad, pad_right, sorted_keys, strictly_sorted, strs, signed_decimal, signed_decimal_spec, text_less, lemma_text_less_irreflexive, lemma_text_less_total};
use crate::config::{JiraConfig, pairs_map, ids_map, transitions_map, last_index, pair_names, find_last, names_of_pairs, lemma_last_index, lemma_pairs_map_last, lemma_ids_map_last, lemma_transitions_map_last};

verus! {

/// `s` without its leading `v` characters (`trim_start_matches('v')`).
pub open spec fn strip_v(s: Seq<char>) -> Seq<char>
    decreases s.len(),
{
    if s.len() > 0 && s[0] == 'v' {
        strip_v(s.drop_first())
    } else {
        s
    }
}

/// The API version that a lowercased version text names: `2` or `3`,
/// with or without leading `v`s.
pub open spec fn version_named(lower: Seq<char>) -> Option<Seq<char>> {
    if strip_v(lower) == "2"@ {
        Some("2"@)
    } else if strip_v(lower) == "3"@ {
        Some("3"@)
    } else {
        None
    }
}

/// The API version that an already lowercased text names.
pub fn version_of_lowercase(lower: &str) -> (r: Option<&'static str>)
    ensures
        match r {
            Some(v) => version_named(lower@) == Some(v@),
            None => version_named(lower@) is None,
        },
{
    let cs = chars_of(lower);
    let mut i: usize = 0;
    assert(lower@.skip(0) =~= lower@);
    while i < cs.len() && cs[i] == 'v'
        invariant
            cs@ == lower@,
            i <= cs@.len(),
            strip_v(lower@) == strip_v(lower@.skip(i as int)),
        decreases cs@.len() - i,
    {
        assert(lower@.skip(i as int).drop_first() =~= lower@.skip(i + 1));
        i = i + 1;
    }
    assert(strip_v(lower@.skip(i as int)) == lower@.skip(i as int));
    let rest = crate::text::string_of_range(cs.as_slice(), i, cs.len());
    assert(rest@ =~= lower@.skip(i as int));
    if str_eq(rest.as_str(), "2") {
        Some("2")
    } else if str_eq(rest.as_str(), "3") {
        Some("3")
    } else {
        None
    }
}

/// Reads a Jira API version (`2`, `v2`, `3`, `v3`, in any case).
pub fn parse_jira_version(value: &str) -> (r: Option<&'static str>)
    ensures
        match r {
            Some(v) => version_named(unicode_lowercase(value@)) == Some(v@),
            None => version_named(unicode_lowercase(value@)) is None,
        },
{
    let lower = to_lowercase(value);
    version_of_lowercase(lower.as_str())
}

/// The token shown with only its last four bytes (see [`mask_token`]).
pub open spec fn masked_token(bytes: Seq<u8>) -> Seq<char> {
    if bytes.len() <= 4 {
        Seq::new(bytes.len(), |i: int| '*')
    } else {
        Seq::new(8, |i: int| '*').push('\u{2026}') + vstd::utf8::decode_utf8(bytes.subrange(bytes.len() - 4, bytes.len() as int))
    }
}

/// Whether the last four bytes of the token start at a character boundary.
pub open spec fn tail_maskable(token: &str) -> bool {
    token.spec_bytes().len() <= 4 || vstd::utf8::is_char_boundary(
        token.spec_bytes(),
        token.spec_bytes().len() - 4,
    )
}

/// The token shown with only its last four bytes: eight stars and an
/// ellipsis before them; a token of at most four bytes becomes one star
/// per byte.
pub fn mask_token(token: &str) -> (r: String)
    requires
        tail_maskable(token),
    ensures
        r@ == masked_token(token.spec_bytes()),
        token.spec_bytes().len() <= 4 ==> r@ == Seq::new(token.spec_bytes().len(), |i: int| '*'),
        token.spec_bytes().len() > 4 ==> {
            &&& r@.take(9) == Seq::new(8, |i: int| '*').push('\u{2026}')
            &&& vstd::utf8::encode_utf8(r@.skip(9)) == token.spec_bytes().subrange(
                token.spec_bytes().len() - 4,
                token.spec_bytes().len() as int,
            )
        },
{
    let bytes = token.as_bytes();
    let n = bytes.len();
    if n <= 4 {
        return repeat_char('*', n);
    }
    let (_, tail) = token.split_at(n - 4);
    let mut r = repeat_char('*', 8);
    r.push('\u{2026}');
    let ghost head = r@;
    r.append(tail);
    assert(r@.take(9) =~= head);
    assert(r@.skip(9) =~= tail@);
    proof {
        broadcast use vstd::utf8::encode_utf8_decode_utf8;
        assert(vstd::utf8::decode_utf8(vstd::utf8::encode_utf8(r@.skip(9))) == r@.skip(9));
        assert(r@ =~= r@.take(9) + r@.skip(9));
    }
    r
}

/// What `jira config` does with its arguments.
pub enum ConfigOutcome {
    /// Show the configuration.
    Show,
    /// A setting was changed; these lines are printed.
    Updated(Vec<String>),
    /// The command fails with this message (and exit status 1).
    Failed(String),
}

/// The lines printed for a change, and a failure's message.
pub open spec fn outcome_lines(r: ConfigOutcome) -> Seq<Seq<char>> {
    match r {
        ConfigOutcome::Updated(lines) => lines@.map_values(|l: String| l@),
        ConfigOutcome::Failed(m) => seq![m@],
        ConfigOutcome::Show => Seq::empty(),
    }
}

/// `jira config [show] [KEY [VALUE]]`: shows the configuration, or sets
/// `jira-version` (2 or 3), `account-id`, `account_id` (the key the
/// account lookup reads and its hint names) or `board-id`.
pub fn handle(doc: &mut Json, show: bool, key: Option<&str>, value: Option<&str>) -> (r: ConfigOutcome)
    ensures
        (show || key is None) ==> (r is Show && final(doc)@ == old(doc)@),
        (!show && key is Some && value is None) ==> (r is Failed && final(doc)@ == old(doc)@
            && outcome_lines(r) == seq!["VALUE is required when setting a config key."@]),
        (!show && key is Some && value is Some) ==> {
            let k = key->0@;
            let v = value->0@;
            if k == "jira-version"@ {
                match version_named(unicode_lowercase(v)) {
                    Some(ver) => r is Updated && final(doc)@ == old(doc)@.with_member(k, JsonV::Str(ver))
                        && outcome_lines(r) == seq!["Jira API version set to "@ + ver + "."@],
                    None => r is Failed && final(doc)@ == old(doc)@ && outcome_lines(r) == seq![
                        "Invalid jira-version '"@ + v + "'. Accepted values: 2, 3."@,
                    ],
                }
            } else if k == "account-id"@ || k == "account_id"@ {
                r is Updated && final(doc)@ == old(doc)@.with_member(k, JsonV::Str(v))
                    && outcome_lines(r) == seq!["Account ID updated to "@ + v]
            } else if k == "board-id"@ {
                r is Updated && final(doc)@ == old(doc)@.with_member(k, JsonV::Str(v))
                    && outcome_lines(r) == seq![
                    "Board id updated to "@ + v,
                    "Now you can list your current sprint using 'jira sprint'!"@,
                ]
            } else {
                r is Failed && final(doc)@ == old(doc)@ && outcome_lines(r) == seq!["Unknown config key '"@ + k + "'."@]
            }
        },
{
    if show {
        return ConfigOutcome::Show;
    }
    let k = match key {
        Some(k) => k,
        None => {
            return ConfigOutcome::Show;
        },
    };
    let v = match value {
        Some(v) => v,
        None => {
            return ConfigOutcome::Failed("VALUE is required when setting a config key.".to_owned());
        },
    };
    if str_eq(k, "jira-version") {
        match parse_jira_version(v) {
            Some(version) => {
                crate::config::update_config(doc, "jira-version", version);
                let mut line = "Jira API version set to ".to_owned();
                line.append(version);
                line.append(".");
                let mut lines: Vec<String> = Vec::new();
                lines.push(line);
                assert(lines@.map_values(|l: String| l@) =~= seq![lines@[0]@]);
                ConfigOutcome::Updated(lines)
            },
            None => {
                let mut line = "Invalid jira-version '".to_owned();
                line.append(v);
                line.append("'. Accepted values: 2, 3.");
                ConfigOutcome::Failed(line)
            },
        }
    } else if str_eq(k, "account-id") || str_eq(k, "account_id") {
        crate::config::update_config(doc, k, v);
        let mut line = "Account ID updated to ".to_owned();
        line.append(v);
        let mut lines: Vec<String> = Vec::new();
        lines.push(line);
        assert(lines@.map_values(|l: String| l@) =~= seq![lines@[0]@]);
        ConfigOutcome::Updated(lines)
    } else if str_eq(k, "board-id") {
        crate::config::update_config(doc, "board-id", v);
        let mut line = "Board id updated to ".to_owned();
        line.append(v);
        let mut lines: Vec<String> = Vec::new();
        lines.push(line);
        lines.push("Now you can list your current sprint using 'jira sprint'!".to_owned());
        assert(lines@.map_values(|l: String| l@) =~= seq![lines@[0]@, lines@[1]@]);
        ConfigOutcome::Updated(lines)
    } else {
        let mut line = "Unknown config key '".to_owned();
        line.append(k);
        line.append("'.");
        ConfigOutcome::Failed(line)
    }
}

/// The names of a set listed in the order of `str`, each once.
pub open spec fn sorted_seq_of(keys: Set<Seq<char>>) -> Seq<Seq<char>> {
    choose|s: Seq<Seq<char>>| strictly_sorted(s) && forall|x: Seq<char>| s.contains(x) <==> keys.contains(x)
}

/// Two strictly sorted lists of the same names are the same list.
pub proof fn lemma_sorted_unique(a: Seq<Seq<char>>, b: Seq<Seq<char>>)
    requires
        strictly_sorted(a),
        strictly_sorted(b),
        forall|x: Seq<char>| a.contains(x) <==> b.contains(x),
    ensures
        a == b,
    decreases a.len(),
{
    if a.len() == 0 {
        if b.len() > 0 {
            assert(b.contains(b[0]));
        }
        assert(a =~= b);
    } else {
        assert(a.contains(a[0]));
        let j = choose|j: int| 0 <= j < b.len() && b[j] == a[0];
        assert(b.contains(b[0]));
        let i = choose|i: int| 0 <= i < a.len() && a[i] == b[0];
        if j > 0 {
            assert(text_less(b[0], b[j]));
            if i > 0 {
                assert(text_less(a[0], a[i]));
                lemma_text_less_total(a[0], b[0]);
            } else {
                lemma_text_less_irreflexive(a[0]);
            }
        }
        assert(a[0] == b[0]);
        assert forall|x: Seq<char>| a.drop_first().contains(x) <==> b.drop_first().contains(x) by {
            if a.drop_first().contains(x) {
                let k = choose|k: int| 0 <= k < a.drop_first().len() && a.drop_first()[k] == x;
                assert(text_less(a[0], a[k + 1]));
                lemma_text_less_irreflexive(x);
                assert(b.contains(x));
                let m = choose|m: int| 0 <= m < b.len() && b[m] == x;
                assert(m != 0);
                assert(b.drop_first()[m - 1] == x);
            }
            if b.drop_first().contains(x) {
                let k = choose|k: int| 0 <= k < b.drop_first().len() && b.drop_first()[k] == x;
                assert(text_less(b[0], b[k + 1]));
                lemma_text_less_irreflexive(x);
                assert(a.contains(x));
                let m = choose|m: int| 0 <= m < a.len() && a[m] == x;
                assert(m != 0);
                assert(a.drop_first()[m - 1] == x);
            }
        }
        lemma_sorted_unique(a.drop_first(), b.drop_first());
        assert(a =~= seq![a[0]] + a.drop_first());
        assert(b =~= seq![b[0]] + b.drop_first());
    }
}

/// A strictly sorted list of a set's names is the one `sorted_seq_of`
/// gives.
pub proof fn lemma_is_sorted_seq_of(s: Seq<Seq<char>>, keys: Set<Seq<char>>)
    requires
        strictly_sorted(s),
        forall|x: Seq<char>| s.contains(x) <==> keys.contains(x),
    ensures
        sorted_seq_of(keys) == s,
{
    let t = sorted_seq_of(keys);
    assert(strictly_sorted(t) && forall|x: Seq<char>| t.contains(x) <==> keys.contains(x));
    lemma_sorted_unique(s, t);
}

/// A setting's line: its label padded to 20 characters, then its value.
pub open spec fn setting_line(label: Seq<char>, value: Seq<char>) -> Seq<char> {
    pad_right(label, 20) + " "@ + value
}

/// The line of an alias.
pub open spec fn alias_line(name: Seq<char>, value: Seq<char>) -> Seq<char> {
    "  "@ + pad_right(name, 18) + " "@ + value
}

/// The line of a transition id.
pub open spec fn transition_line(name: Seq<char>, id: i64) -> Seq<char> {
    "    "@ + pad_right(name, 16) + " "@ + signed_decimal_spec(id as int)
}

/// The lines of the aliases, by name.
pub open spec fn alias_section(m: Map<Seq<char>, Seq<char>>) -> Seq<Seq<char>> {
    let ks = sorted_seq_of(m.dom());
    if ks.len() == 0 {
        seq![pad_right("alias:"@, 20) + " (none)"@]
    } else {
        seq!["alias:"@] + ks.map_values(|k: Seq<char>| alias_line(k, m[k]))
    }
}

/// The lines of the transition ids of the projects `ps`, in order.
pub open spec fn project_lines(ps: Seq<Seq<char>>, t: Map<Seq<char>, Map<Seq<char>, i64>>) -> Seq<Seq<char>>
    decreases ps.len(),
{
    if ps.len() == 0 {
        Seq::empty()
    } else {
        let p = ps.last();
        project_lines(ps.drop_last(), t) + seq!["  "@ + p + ":"@] + sorted_seq_of(t[p].dom()).map_values(
            |n: Seq<char>| transition_line(n, t[p][n]),
        )
    }
}

/// The lines of the transition ids, by project and name.
pub open spec fn transition_section(t: Map<Seq<char>, Map<Seq<char>, i64>>) -> Seq<Seq<char>> {
    let ps = sorted_seq_of(t.dom());
    if ps.len() == 0 {
        seq![pad_right("transitions:"@, 20) + " (none)"@]
    } else {
        seq!["transitions:"@] + project_lines(ps, t)
    }
}

/// What `jira config show` prints for the settings, read from the file at
/// `path`.
pub open spec fn show_config_spec(c: JiraConfig, path: Seq<char>) -> Seq<Seq<char>> {
    seq![
        setting_line("namespace:"@, c.namespace@),
        setting_line("email:"@, c.email@),
        setting_line("auth_mode:"@, c.auth_mode@),
        setting_line("account-id:"@, c.account_id@),
        setting_line("board-id:"@, match c.board_id {
            Some(b) => b@,
            None => Seq::empty(),
        }),
        setting_line("jira-version:"@, match c.jira_version {
            Some(v) => v@,
            None => Seq::empty(),
        }),
        setting_line("token:"@, masked_token(vstd::utf8::encode_utf8(c.token@))),
    ] + alias_section(pairs_map(c.alias@)) + transition_section(transitions_map(c.transitions@)) + seq![
        setting_line("config file:"@, path),
    ]
}

/// Appends `line` to `lines`.
fn push_line(lines: &mut Vec<String>, line: String)
    ensures
        strs(final(lines)@) == strs(old(lines)@).push(line@),
{
    lines.push(line);
    assert(strs(lines@) =~= strs(old(lines)@).push(line@));
}

/// The line of a setting.
fn setting(label: &str, value: &str) -> (r: String)
    ensures
        r@ == setting_line(label@, value@),
{
    let mut l = pad(label, 20);
    l.append(" ");
    l.append(value);
    proof {
        reveal_strlit(" ");
    }
    l
}

/// The names of a pair list, sorted, are the sorted names of its map.
proof fn lemma_names_of_map<V>(s: Seq<(String, V)>, ks: Seq<Seq<char>>, dom: Set<Seq<char>>)
    requires
        strictly_sorted(ks),
        forall|x: Seq<char>| ks.contains(x) <==> pair_names(s).contains(x),
        forall|x: Seq<char>| dom.contains(x) <==> last_index(s, x) is Some,
    ensures
        sorted_seq_of(dom) == ks,
{
    assert forall|x: Seq<char>| ks.contains(x) <==> dom.contains(x) by {
        lemma_last_index(s, x);
    }
    lemma_is_sorted_seq_of(ks, dom);
}

/// The lines of the aliases (see [`alias_section`]).
fn alias_lines(alias: &Vec<(String, String)>) -> (r: Vec<String>)
    ensures
        strs(r@) == alias_section(pairs_map(alias@)),
{
    let names = names_of_pairs(alias.as_slice());
    let ks = sorted_keys(names.as_slice());
    let ghost m = pairs_map(alias@);
    proof {
        assert forall|x: Seq<char>| m.dom().contains(x) <==> last_index(alias@, x) is Some by {
            lemma_pairs_map_last(alias@, x);
        }
        lemma_names_of_map(alias@, strs(ks@), m.dom());
        reveal_strlit("alias:");
        reveal_strlit(" (none)");
        reveal_strlit("  ");
        reveal_strlit(" ");
    }
    let mut lines: Vec<String> = Vec::new();
    if ks.len() == 0 {
        let mut l = pad("alias:", 20);
        l.append(" (none)");
        push_line(&mut lines, l);
        assert(strs(lines@) =~= alias_section(m));
        return lines;
    }
    push_line(&mut lines, String::from_str("alias:"));
    let ghost sk = strs(ks@);
    let mut i: usize = 0;
    while i < ks.len()
        invariant
            i <= ks@.len(),
            sk == strs(ks@),
            sk == sorted_seq_of(m.dom()),
            m == pairs_map(alias@),
            forall|x: Seq<char>| sk.contains(x) <==> pair_names(alias@).contains(x),
            strs(lines@) == seq!["alias:"@] + sk.take(i as int).map_values(|k: Seq<char>| alias_line(k, m[k])),
        decreases ks@.len() - i,
    {
        proof {
            assert(sk[i as int] == ks@[i as int]@);
            assert(sk.contains(sk[i as int]));
            lemma_last_index(alias@, sk[i as int]);
            lemma_pairs_map_last(alias@, sk[i as int]);
        }
        let at = find_last(alias.as_slice(), ks[i].as_str());
        let idx = match at {
            Some(k) => k,
            None => {
                return lines;
            },
        };
        let mut l = String::from_str("  ");
        let n = pad(ks[i].as_str(), 18);
        l.append(n.as_str());
        l.append(" ");
        l.append(alias[idx].1.as_str());
        proof {
            reveal_strlit("  ");
            reveal_strlit(" ");
            assert(l@ == alias_line(sk[i as int], m[sk[i as int]]));
            assert(sk.take(i + 1) =~= sk.take(i as int).push(sk[i as int]));
            assert(sk.take(i + 1).map_values(|k: Seq<char>| alias_line(k, m[k])) =~= sk.take(i as int).map_values(
                |k: Seq<char>| alias_line(k, m[k]),
            ).push(alias_line(sk[i as int], m[sk[i as int]])));
        }
        push_line(&mut lines, l);
        i = i + 1;
    }
    proof {
        assert(sk.take(ks@.len() as int) =~= sk);
    }
    lines
}

/// The lines of one project's transition ids: its name, then each id by
/// name.
pub open spec fn project_block(p: Seq<char>, ids: Map<Seq<char>, i64>) -> Seq<Seq<char>> {
    seq!["  "@ + p + ":"@] + sorted_seq_of(ids.dom()).map_values(|n: Seq<char>| transition_line(n, ids[n]))
}

/// The lines of one project's transition ids (see [`project_block`]).
fn project_block_lines(p: &str, table: &Vec<(String, i64)>) -> (r: Vec<String>)
    ensures
        strs(r@) == project_block(p@, ids_map(table@)),
{
    let names = names_of_pairs(table.as_slice());
    let ks = sorted_keys(names.as_slice());
    let ghost m = ids_map(table@);
    proof {
        assert forall|x: Seq<char>| m.dom().contains(x) <==> last_index(table@, x) is Some by {
            lemma_ids_map_last(table@, x);
        }
        lemma_names_of_map(table@, strs(ks@), m.dom());
        reveal_strlit("  ");
        reveal_strlit(":");
    }
    let mut lines: Vec<String> = Vec::new();
    let mut head = String::from_str("  ");
    head.append(p);
    head.append(":");
    push_line(&mut lines, head);
    let ghost sk = strs(ks@);
    let mut i: usize = 0;
    while i < ks.len()
        invariant
            i <= ks@.len(),
            sk == strs(ks@),
            sk == sorted_seq_of(m.dom()),
            m == ids_map(table@),
            forall|x: Seq<char>| sk.contains(x) <==> pair_names(table@).contains(x),
            strs(lines@) == seq!["  "@ + p@ + ":"@] + sk.take(i as int).map_values(|n: Seq<char>| transition_line(n, m[n])),
        decreases ks@.len() - i,
    {
        proof {
            assert(sk[i as int] == ks@[i as int]@);
            assert(sk.contains(sk[i as int]));
            lemma_last_index(table@, sk[i as int]);
            lemma_ids_map_last(table@, sk[i as int]);
        }
        let idx = match find_last(table.as_slice(), ks[i].as_str()) {
            Some(k) => k,
            None => {
                return lines;
            },
        };
        let mut l = String::from_str("    ");
        let n = pad(ks[i].as_str(), 16);
        l.append(n.as_str());
        l.append(" ");
        let d = signed_decimal(table[idx].1);
        l.append(d.as_str());
        proof {
            reveal_strlit("    ");
            reveal_strlit(" ");
            assert(l@ == transition_line(sk[i as int], m[sk[i as int]]));
            assert(sk.take(i + 1) =~= sk.take(i as int).push(sk[i as int]));
            assert(sk.take(i + 1).map_values(|n: Seq<char>| transition_line(n, m[n])) =~= sk.take(i as int).map_values(
                |n: Seq<char>| transition_line(n, m[n]),
            ).push(transition_line(sk[i as int], m[sk[i as int]])));
        }
        push_line(&mut lines, l);
        i = i + 1;
    }
    proof {
        assert(sk.take(ks@.len() as int) =~= sk);
    }
    lines
}

/// The lines of the transition ids (see [`transition_section`]).
fn transition_lines(transitions: &Vec<(String, Vec<(String, i64)>)>) -> (r: Vec<String>)
    ensures
        strs(r@) == transition_section(transitions_map(transitions@)),
{
    let names = names_of_pairs(transitions.as_slice());
    let ks = sorted_keys(names.as_slice());
    let ghost t = transitions_map(transitions@);
    proof {
        assert forall|x: Seq<char>| t.dom().contains(x) <==> last_index(transitions@, x) is Some by {
            lemma_transitions_map_last(transitions@, x);
        }
        lemma_names_of_map(transitions@, strs(ks@), t.dom());
        reveal_strlit("transitions:");
        reveal_strlit(" (none)");
    }
    let mut lines: Vec<String> = Vec::new();
    if ks.len() == 0 {
        let mut l = pad("transitions:", 20);
        l.append(" (none)");
        push_line(&mut lines, l);
        assert(strs(lines@) =~= transition_section(t));
        return lines;
    }
    push_line(&mut lines, String::from_str("transitions:"));
    let ghost sk = strs(ks@);
    proof {
        assert(sk.take(0) =~= Seq::<Seq<char>>::empty());
    }
    let mut i: usize = 0;
    while i < ks.len()
        invariant
            i <= ks@.len(),
            sk == strs(ks@),
            sk == sorted_seq_of(t.dom()),
            t == transitions_map(transitions@),
            forall|x: Seq<char>| sk.contains(x) <==> pair_names(transitions@).contains(x),
            strs(lines@) == seq!["transitions:"@] + project_lines(sk.take(i as int), t),
        decreases ks@.len() - i,
    {
        proof {
            assert(sk[i as int] == ks@[i as int]@);
            assert(sk.contains(sk[i as int]));
            lemma_last_index(transitions@, sk[i as int]);
            lemma_transitions_map_last(transitions@, sk[i as int]);
        }
        let idx = match find_last(transitions.as_slice(), ks[i].as_str()) {
            Some(k) => k,
            None => {
                return lines;
            },
        };
        let mut block = project_block_lines(ks[i].as_str(), &transitions[idx].1);
        let ghost before = lines@;
        let ghost added = block@;
        lines.append(&mut block);
        proof {
            assert(strs(lines@) =~= strs(before) + strs(added));
            let tk = sk.take(i + 1);
            assert(tk.drop_last() =~= sk.take(i as int));
            assert(tk.last() == sk[i as int]);
            assert(strs(added) == project_block(sk[i as int], t[sk[i as int]]));
            assert(strs(lines@) =~= seq!["transitions:"@] + project_lines(tk, t));
        }
        i = i + 1;
    }
    proof {
        assert(sk.take(ks@.len() as int) =~= sk);
    }
    lines
}

/// What `jira config show` prints (see [`show_config_spec`]).
pub fn show_config(c: &JiraConfig, path: &str) -> (r: Vec<String>)
    requires
        vstd::utf8::encode_utf8(c.token@).len() <= 4 || vstd::utf8::is_char_boundary(
            vstd::utf8::encode_utf8(c.token@),
            vstd::utf8::encode_utf8(c.token@).len() - 4,
        ),
    ensures
        strs(r@) == show_config_spec(*c, path@),
{
    let mut lines: Vec<String> = Vec::new();
    push_line(&mut lines, setting("namespace:", c.namespace.as_str()));
    push_line(&mut lines, setting("email:", c.email.as_str()));
    push_line(&mut lines, setting("auth_mode:", c.auth_mode.as_str()));
    push_line(&mut lines, setting("account-id:", c.account_id.as_str()));
    let board = match &c.board_id {
        Some(b) => b.as_str(),
        None => "",
    };
    push_line(&mut lines, setting("board-id:", board));
    let version = match &c.jira_version {
        Some(v) => v.as_str(),
        None => "",
    };
    push_line(&mut lines, setting("jira-version:", version));
    let masked = mask_token(c.token.as_str());
    push_line(&mut lines, setting("token:", masked.as_str()));
    let mut a = alias_lines(&c.alias);
    let ghost before_alias = lines@;
    let ghost alias_added = a@;
    lines.append(&mut a);
    let mut t = transition_lines(&c.transitions);
    let ghost before_t = lines@;
    let ghost t_added = t@;
    lines.append(&mut t);
    let ghost before_last = lines@;
    push_line(&mut lines, setting("config file:", path));
    proof {
        reveal_strlit("");
        assert(strs(before_t) =~= strs(before_alias) + strs(alias_added));
        assert(strs(before_last) =~= strs(before_t) + strs(t_added));
        assert(strs(lines@) =~= show_config_spec(*c, path@));
    }
    lines
}

} // verus!
