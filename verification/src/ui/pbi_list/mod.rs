//! The issue list screen, and the list printed without it.

pub mod app;
pub mod filter_editor;
pub mod footer;
pub mod table;

use vstd::prelude::*;
use vstd::string::StringSliceAdditionalSpecFns;
use crate::json::{Json, JsonV, json_pretty_text, lemma_view_items, lemma_view_members, stringify_pretty, view_items, view_members};
use crate::pbi::{Pbi, PbiV, pbi_views};
use crate::text::{byte_head, head_sliceable, join, join_spec, str_eq, str_head, strs, utf8};

verus! {

/// A column of the printed list: its title and width.
pub struct ColumnDef {
    pub title: &'static str,
    pub width: usize,
}

/// The title and width of the printed column `name`, if it is one.
pub open spec fn column_def_spec(name: Seq<char>) -> Option<(Seq<char>, nat)> {
    if name == "key"@ {
        Some((("Key"@), 10nat))
    } else if name == "resolution"@ {
        Some((("Resolution"@), 10nat))
    } else if name == "priority"@ {
        Some((("Priority"@), 10nat))
    } else if name == "assignee"@ {
        Some((("Assignee"@), 20nat))
    } else if name == "status"@ {
        Some((("Status"@), 15nat))
    } else if name == "components"@ {
        Some((("Components"@), 30nat))
    } else if name == "creator"@ {
        Some((("Creator"@), 15nat))
    } else if name == "reporter"@ {
        Some((("Reporter"@), 15nat))
    } else if name == "issuetype"@ {
        Some((("Issue Type"@), 10nat))
    } else if name == "project"@ {
        Some((("Project"@), 15nat))
    } else if name == "summary"@ {
        Some((("Summary"@), 100nat))
    } else {
        None
    }
}

/// The title and width of the printed column `name`, if it is one.
pub fn column_def(name: &str) -> (r: Option<ColumnDef>)
    ensures
        match r {
            Some(d) => column_def_spec(name@) == Some((d.title@, d.width as nat)),
            None => column_def_spec(name@) is None,
        },
{
    if str_eq(name, "key") {
        Some(ColumnDef { title: "Key", width: 10 })
    } else if str_eq(name, "resolution") {
        Some(ColumnDef { title: "Resolution", width: 10 })
    } else if str_eq(name, "priority") {
        Some(ColumnDef { title: "Priority", width: 10 })
    } else if str_eq(name, "assignee") {
        Some(ColumnDef { title: "Assignee", width: 20 })
    } else if str_eq(name, "status") {
        Some(ColumnDef { title: "Status", width: 15 })
    } else if str_eq(name, "components") {
        Some(ColumnDef { title: "Components", width: 30 })
    } else if str_eq(name, "creator") {
        Some(ColumnDef { title: "Creator", width: 15 })
    } else if str_eq(name, "reporter") {
        Some(ColumnDef { title: "Reporter", width: 15 })
    } else if str_eq(name, "issuetype") {
        Some(ColumnDef { title: "Issue Type", width: 10 })
    } else if str_eq(name, "project") {
        Some(ColumnDef { title: "Project", width: 15 })
    } else if str_eq(name, "summary") {
        Some(ColumnDef { title: "Summary", width: 100 })
    } else {
        None
    }
}

/// What the printed column `column` shows of an issue: missing values as
/// `-`, components joined with `, `.
pub open spec fn field_value_spec(p: PbiV, column: Seq<char>) -> Seq<char> {
    if column == "key"@ {
        p.key
    } else if column == "summary"@ {
        p.summary
    } else if column == "status"@ {
        p.status
    } else if column == "assignee"@ {
        p.assignee
    } else if column == "resolution"@ {
        match p.resolution {
            Some(x) => x,
            None => "-"@,
        }
    } else if column == "priority"@ {
        match p.priority {
            Some(x) => x,
            None => "-"@,
        }
    } else if column == "components"@ {
        join_spec(p.components, ", "@)
    } else if column == "creator"@ {
        p.creator
    } else if column == "reporter"@ {
        p.reporter
    } else if column == "issuetype"@ {
        p.issue_type
    } else if column == "project"@ {
        p.project
    } else {
        "-"@
    }
}

/// Each printed column shows the issue's field of the same name: the key,
/// summary, status, assignee, creator, reporter, issue type and project as
/// they are, the resolution and priority (or `-` when there is none), the
/// components joined with `, `; an unknown column shows `-`.
pub proof fn law_columns_show_their_field(p: PbiV)
    ensures
        field_value_spec(p, "key"@) == p.key,
        field_value_spec(p, "summary"@) == p.summary,
        field_value_spec(p, "status"@) == p.status,
        field_value_spec(p, "assignee"@) == p.assignee,
        field_value_spec(p, "resolution"@) == (match p.resolution {
            Some(x) => x,
            None => "-"@,
        }),
        field_value_spec(p, "priority"@) == (match p.priority {
            Some(x) => x,
            None => "-"@,
        }),
        field_value_spec(p, "components"@) == join_spec(p.components, ", "@),
        field_value_spec(p, "creator"@) == p.creator,
        field_value_spec(p, "reporter"@) == p.reporter,
        field_value_spec(p, "issuetype"@) == p.issue_type,
        field_value_spec(p, "project"@) == p.project,
        field_value_spec(p, "nothing"@) == "-"@,
{
    reveal_strlit("key");
    reveal_strlit("summary");
    reveal_strlit("status");
    reveal_strlit("assignee");
    reveal_strlit("resolution");
    reveal_strlit("priority");
    reveal_strlit("components");
    reveal_strlit("creator");
    reveal_strlit("reporter");
    reveal_strlit("issuetype");
    reveal_strlit("project");
    reveal_strlit("nothing");
    reveal_strlit("-");
    assert("key"@.len() == 3);
    assert("summary"@.len() == 7);
    assert("status"@.len() == 6);
    assert("assignee"@.len() == 8);
    assert("resolution"@.len() == 10);
    assert("priority"@.len() == 8);
    assert("components"@.len() == 10);
    assert("creator"@.len() == 7);
    assert("reporter"@.len() == 8);
    assert("issuetype"@.len() == 9);
    assert("project"@.len() == 7);
    assert("nothing"@.len() == 7);
    assert("summary"@[0] != "creator"@[0]);
    assert("summary"@[0] != "project"@[0]);
    assert("summary"@[0] != "nothing"@[0]);
    assert("creator"@[0] != "project"@[0]);
    assert("creator"@[0] != "nothing"@[0]);
    assert("project"@[0] != "nothing"@[0]);
    assert("assignee"@[0] != "priority"@[0]);
    assert("assignee"@[0] != "reporter"@[0]);
    assert("priority"@[0] != "reporter"@[0]);
    assert("resolution"@[0] != "components"@[0]);
}

/// What the printed column `column` shows of an issue.
pub fn field_value(pbi: &Pbi, column: &str) -> (r: String)
    ensures
        r@ == field_value_spec(pbi@, column@),
        column@ == "key"@ ==> r@ == pbi@.key,
        column@ == "summary"@ ==> r@ == pbi@.summary,
        column@ == "status"@ ==> r@ == pbi@.status,
        column@ == "assignee"@ ==> r@ == pbi@.assignee,
        column@ == "creator"@ ==> r@ == pbi@.creator,
        column@ == "reporter"@ ==> r@ == pbi@.reporter,
        column@ == "issuetype"@ ==> r@ == pbi@.issue_type,
        column@ == "project"@ ==> r@ == pbi@.project,
{
    proof {
        law_columns_show_their_field(pbi@);
    }
    if str_eq(column, "key") {
        pbi.key.clone()
    } else if str_eq(column, "summary") {
        pbi.summary.clone()
    } else if str_eq(column, "status") {
        pbi.status.clone()
    } else if str_eq(column, "assignee") {
        pbi.assignee.clone()
    } else if str_eq(column, "resolution") {
        match &pbi.resolution {
            Some(x) => x.clone(),
            None => "-".to_owned(),
        }
    } else if str_eq(column, "priority") {
        match &pbi.priority {
            Some(x) => x.clone(),
            None => "-".to_owned(),
        }
    } else if str_eq(column, "components") {
        assert(pbi.components@.map_values(|x: String| x@) =~= strs(pbi.components@));
        join(pbi.components.as_slice(), ", ")
    } else if str_eq(column, "creator") {
        pbi.creator.clone()
    } else if str_eq(column, "reporter") {
        pbi.reporter.clone()
    } else if str_eq(column, "issuetype") {
        pbi.issue_type.clone()
    } else if str_eq(column, "project") {
        pbi.project.clone()
    } else {
        "-".to_owned()
    }
}

/// The JSON object printed for an issue: for each column, its value as
/// text (the components as an array of strings); a repeated column keeps
/// its first place and its last value.
pub open spec fn issue_json(p: PbiV, columns: Seq<Seq<char>>) -> JsonV
    decreases columns.len(),
{
    if columns.len() == 0 {
        JsonV::Object(Seq::empty())
    } else {
        let col = columns.last();
        let v = if col == "components"@ {
            JsonV::Array(p.components.map_values(|c: Seq<char>| JsonV::Str(c)))
        } else {
            JsonV::Str(field_value_spec(p, col))
        };
        issue_json(p, columns.drop_last()).with_member(col, v)
    }
}

/// The JSON array printed for the issues.
pub open spec fn issues_json_spec(issues: Seq<PbiV>, columns: Seq<Seq<char>>) -> JsonV {
    JsonV::Array(issues.map_values(|p: PbiV| issue_json(p, columns)))
}

/// The JSON object printed for an issue.
fn issue_to_json(pbi: &Pbi, columns: &[&str]) -> (r: Json)
    ensures
        r@ == issue_json(pbi@, columns@.map_values(|c: &str| c@)),
{
    let ghost cols = columns@.map_values(|c: &str| c@);
    let mut data = Json::Object(Vec::new());
    proof {
        assert(view_members(Seq::<(String, Json)>::empty()) =~= Seq::<(Seq<char>, JsonV)>::empty());
        assert(cols.take(0) =~= Seq::<Seq<char>>::empty());
    }
    let mut i: usize = 0;
    while i < columns.len()
        invariant
            cols == columns@.map_values(|c: &str| c@),
            i <= columns@.len(),
            data@ == issue_json(pbi@, cols.take(i as int)),
        decreases columns@.len() - i,
    {
        let col = columns[i];
        proof {
            assert(cols.take(i + 1).drop_last() =~= cols.take(i as int));
            assert(cols.take(i + 1).last() == col@);
        }
        let v = if str_eq(col, "components") {
            let mut arr: Vec<Json> = Vec::new();
            let mut j: usize = 0;
            while j < pbi.components.len()
                invariant
                    j <= pbi.components@.len(),
                    arr@.len() == j,
                    forall|k: int| 0 <= k < j ==> #[trigger] arr@[k]@ == JsonV::Str(pbi.components@[k]@),
                decreases pbi.components@.len() - j,
            {
                arr.push(Json::Str(pbi.components[j].clone()));
                j = j + 1;
            }
            proof {
                lemma_view_items(arr@);
                assert forall|k: int| 0 <= k < arr@.len() implies #[trigger] view_items(arr@)[k] == pbi@.components.map_values(
                    |c: Seq<char>| JsonV::Str(c),
                )[k] by {
                    assert(arr@[k]@ == JsonV::Str(pbi.components@[k]@));
                    assert(view_items(arr@)[k] == crate::json::view_json(arr@[k]));
                    assert(pbi@.components[k] == pbi.components@[k]@);
                }
                assert(view_items(arr@) =~= pbi@.components.map_values(|c: Seq<char>| JsonV::Str(c)));
            }
            Json::Array(arr)
        } else {
            Json::Str(field_value(pbi, col))
        };
        data.set(col, v);
        i = i + 1;
    }
    assert(cols.take(columns@.len() as int) =~= cols);
    data
}

/// The issues as the JSON array printed for them.
pub fn issues_json(issues: &[Pbi], columns: &[&str]) -> (r: Json)
    ensures
        r@ == issues_json_spec(pbi_views(issues@), columns@.map_values(|c: &str| c@)),
{
    let ghost cols = columns@.map_values(|c: &str| c@);
    let mut out: Vec<Json> = Vec::new();
    let mut i: usize = 0;
    while i < issues.len()
        invariant
            cols == columns@.map_values(|c: &str| c@),
            i <= issues@.len(),
            out@.len() == i,
            forall|k: int| 0 <= k < i ==> #[trigger] out@[k]@ == issue_json(issues@[k]@, cols),
        decreases issues@.len() - i,
    {
        out.push(issue_to_json(&issues[i], columns));
        i = i + 1;
    }
    proof {
        lemma_view_items(out@);
        assert forall|k: int| 0 <= k < out@.len() implies #[trigger] view_items(out@)[k] == pbi_views(issues@).map_values(
            |p: PbiV| issue_json(p, cols),
        )[k] by {
            assert(view_items(out@)[k] == crate::json::view_json(out@[k]));
            assert(out@[k]@ == issue_json(issues@[k]@, cols));
            assert(pbi_views(issues@)[k] == issues@[k]@);
        }
        assert(view_items(out@) =~= pbi_views(issues@).map_values(|p: PbiV| issue_json(p, cols)));
    }
    Json::Array(out)
}

/// The text printed with `--json`: the array pretty-printed with four
/// spaces.
pub fn issues_json_text(issues: &[Pbi], columns: &[&str]) -> (r: String)
    ensures
        r@ == json_pretty_text(issues_json_spec(pbi_views(issues@), columns@.map_values(|c: &str| c@)), 4),
{
    let v = issues_json(issues, columns);
    stringify_pretty(&v, 4)
}

/// Cells ended by `|`, one after the other.
pub open spec fn cells_line(cells: Seq<Seq<char>>) -> Seq<char>
    decreases cells.len(),
{
    if cells.len() == 0 {
        Seq::empty()
    } else {
        cells_line(cells.drop_last()) + cells.last() + "|"@
    }
}

/// The first column that has no definition, if any.
pub open spec fn first_unknown(columns: Seq<Seq<char>>) -> Option<Seq<char>>
    decreases columns.len(),
{
    if columns.len() == 0 {
        None
    } else if column_def_spec(columns[0]) is None {
        Some(columns[0])
    } else {
        first_unknown(columns.drop_first())
    }
}

/// The width of a known column.
pub open spec fn width_of(column: Seq<char>) -> nat {
    match column_def_spec(column) {
        Some(d) => d.1,
        None => 0,
    }
}

/// The title of a known column.
pub open spec fn title_of(column: Seq<char>) -> Seq<char> {
    match column_def_spec(column) {
        Some(d) => d.0,
        None => Seq::empty(),
    }
}

/// The width of the table: each column and its `|`.
pub open spec fn total_width(columns: Seq<Seq<char>>) -> nat
    decreases columns.len(),
{
    if columns.len() == 0 {
        0
    } else {
        total_width(columns.drop_last()) + width_of(columns.last()) + 1
    }
}

/// The header line: each title padded to its column's width.
pub open spec fn header_line(columns: Seq<Seq<char>>) -> Seq<char> {
    cells_line(columns.map_values(|c: Seq<char>| crate::text::pad_right(title_of(c), width_of(c))))
}

/// The line of an issue: each value cut to its column's width (in bytes)
/// and padded to it.
pub open spec fn row_line(p: PbiV, columns: Seq<Seq<char>>) -> Seq<char> {
    cells_line(
        columns.map_values(
            |c: Seq<char>| crate::text::pad_right(byte_head(field_value_spec(p, c), width_of(c)), width_of(c)),
        ),
    )
}

/// Whether every value can be cut to its column's width at a character
/// boundary.
pub open spec fn rows_cuttable(issues: Seq<PbiV>, columns: Seq<Seq<char>>) -> bool {
    forall|i: int, j: int|
        0 <= i < issues.len() && 0 <= j < columns.len() ==> head_sliceable(
            field_value_spec(#[trigger] issues[i], #[trigger] columns[j]),
            width_of(columns[j]),
        )
}

/// The lines of the printed table: the header, a rule of dashes as wide as
/// the table, and one line per issue.
pub open spec fn table_lines_spec(issues: Seq<PbiV>, columns: Seq<Seq<char>>) -> Seq<Seq<char>> {
    seq![header_line(columns), Seq::new(total_width(columns), |i: int| '-')] + issues.map_values(
        |p: PbiV| row_line(p, columns),
    )
}

proof fn lemma_first_unknown(columns: Seq<Seq<char>>, i: int)
    requires
        0 <= i <= columns.len(),
        forall|j: int| 0 <= j < i ==> column_def_spec(#[trigger] columns[j]) is Some,
    ensures
        first_unknown(columns) == first_unknown(columns.skip(i)),
    decreases i,
{
    if i > 0 {
        assert(column_def_spec(columns[0]) is Some);
        assert forall|j: int| 0 <= j < i - 1 implies column_def_spec(#[trigger] columns.drop_first()[j]) is Some by {
            assert(columns.drop_first()[j] == columns[j + 1]);
        }
        lemma_first_unknown(columns.drop_first(), i - 1);
        assert(columns.drop_first().skip(i - 1) =~= columns.skip(i));
    } else {
        assert(columns.skip(0) =~= columns);
    }
}

/// The cells of one line, ended by `|`.
fn line_of(cells: &Vec<String>) -> (r: String)
    ensures
        r@ == cells_line(strs(cells@)),
{
    let mut s = String::new();
    let mut i: usize = 0;
    while i < cells.len()
        invariant
            i <= cells@.len(),
            s@ == cells_line(strs(cells@).take(i as int)),
        decreases cells@.len() - i,
    {
        proof {
            assert(strs(cells@).take(i + 1).drop_last() =~= strs(cells@).take(i as int));
            assert(strs(cells@).take(i + 1).last() == cells@[i as int]@);
        }
        s.append(cells[i].as_str());
        s.append("|");
        i = i + 1;
    }
    assert(strs(cells@).take(cells@.len() as int) =~= strs(cells@));
    s
}

/// The lines of the table printed for the issues, or the message for the
/// first column that has no definition.
pub fn table_lines(issues: &[Pbi], columns: &[&str]) -> (r: Result<Vec<String>, String>)
    requires
        rows_cuttable(pbi_views(issues@), columns@.map_values(|c: &str| c@)),
        columns@.len() * 101 <= usize::MAX,
    ensures
        match r {
            Ok(lines) => first_unknown(columns@.map_values(|c: &str| c@)) is None && strs(lines@) == table_lines_spec(
                pbi_views(issues@),
                columns@.map_values(|c: &str| c@),
            ),
            Err(m) => first_unknown(columns@.map_values(|c: &str| c@)) matches Some(c) && m@ == "Unknown display option '"@
                + c + "' passed."@,
        },
{
    let ghost cols = columns@.map_values(|c: &str| c@);
    let mut defs: Vec<ColumnDef> = Vec::new();
    let mut i: usize = 0;
    while i < columns.len()
        invariant
            cols == columns@.map_values(|c: &str| c@),
            i <= columns@.len(),
            defs@.len() == i,
            forall|j: int| 0 <= j < i ==> column_def_spec(#[trigger] cols[j]) == Some((defs@[j].title@, defs@[j].width as nat)),
        decreases columns@.len() - i,
    {
        match column_def(columns[i]) {
            Some(d) => {
                defs.push(d);
            },
            None => {
                proof {
                    lemma_first_unknown(cols, i as int);
                    assert(cols.skip(i as int)[0] == cols[i as int]);
                }
                let mut m = "Unknown display option '".to_owned();
                m.append(columns[i]);
                m.append("' passed.");
                return Err(m);
            },
        }
        i = i + 1;
    }
    proof {
        lemma_first_unknown(cols, cols.len() as int);
        assert(cols.skip(cols.len() as int) =~= Seq::<Seq<char>>::empty());
    }
    let mut header: Vec<String> = Vec::new();
    let mut total: usize = 0;
    let mut k: usize = 0;
    while k < defs.len()
        invariant
            cols == columns@.map_values(|c: &str| c@),
            defs@.len() == cols.len(),
            forall|j: int| 0 <= j < cols.len() ==> column_def_spec(#[trigger] cols[j]) == Some((defs@[j].title@, defs@[j].width as nat)),
            k <= defs@.len(),
            header@.len() == k,
            forall|j: int| 0 <= j < k ==> (#[trigger] header@[j])@ == crate::text::pad_right(title_of(cols[j]), width_of(cols[j])),
            total == total_width(cols.take(k as int)),
            total <= k * 101,
            cols.len() * 101 <= usize::MAX,
        decreases defs@.len() - k,
    {
        assert(cols.take(k + 1).drop_last() =~= cols.take(k as int));
        assert(column_def_spec(cols[k as int]) == Some((defs@[k as int].title@, defs@[k as int].width as nat)));
        assert(defs@[k as int].width <= 100);
        header.push(crate::text::pad(defs[k].title, defs[k].width));
        total = total + defs[k].width + 1;
        k = k + 1;
    }
    let mut lines: Vec<String> = Vec::new();
    proof {
        assert(strs(header@) =~= cols.map_values(|c: Seq<char>| crate::text::pad_right(title_of(c), width_of(c))));
        assert(cols.take(cols.len() as int) =~= cols);
    }
    lines.push(line_of(&header));
    lines.push(crate::text::repeat_char('-', total));
    let ghost iv = pbi_views(issues@);
    let mut n: usize = 0;
    while n < issues.len()
        invariant
            cols == columns@.map_values(|c: &str| c@),
            iv == pbi_views(issues@),
            rows_cuttable(iv, cols),
            defs@.len() == cols.len(),
            forall|j: int| 0 <= j < cols.len() ==> column_def_spec(#[trigger] cols[j]) == Some((defs@[j].title@, defs@[j].width as nat)),
            n <= issues@.len(),
            lines@.len() == n + 2,
            strs(lines@) == seq![header_line(cols), Seq::new(total_width(cols), |i: int| '-')] + iv.take(n as int).map_values(
                |p: PbiV| row_line(p, cols),
            ),
        decreases issues@.len() - n,
    {
        let mut cells: Vec<String> = Vec::new();
        let mut j: usize = 0;
        while j < defs.len()
            invariant
                cols == columns@.map_values(|c: &str| c@),
                iv == pbi_views(issues@),
                rows_cuttable(iv, cols),
                n < issues@.len(),
                defs@.len() == cols.len(),
                forall|m: int| 0 <= m < cols.len() ==> column_def_spec(#[trigger] cols[m]) == Some((defs@[m].title@, defs@[m].width as nat)),
                j <= defs@.len(),
                cells@.len() == j,
                forall|m: int| 0 <= m < j ==> (#[trigger] cells@[m])@ == crate::text::pad_right(
                    byte_head(field_value_spec(iv[n as int], cols[m]), width_of(cols[m])),
                    width_of(cols[m]),
                ),
            decreases defs@.len() - j,
        {
            assert(column_def_spec(cols[j as int]) == Some((defs@[j as int].title@, defs@[j as int].width as nat)));
            assert(iv[n as int] == issues@[n as int]@);
            assert(cols[j as int] == columns@[j as int]@);
            let value = field_value(&issues[n], columns[j]);
            assert(head_sliceable(field_value_spec(iv[n as int], cols[j as int]), width_of(cols[j as int])));
            let cut = str_head(value.as_str(), defs[j].width);
            cells.push(crate::text::pad(cut.as_str(), defs[j].width));
            j = j + 1;
        }
        proof {
            assert(strs(cells@) =~= cols.map_values(
                |c: Seq<char>| crate::text::pad_right(byte_head(field_value_spec(iv[n as int], c), width_of(c)), width_of(c)),
            ));
        }
        let line = line_of(&cells);
        let ghost before = strs(lines@);
        lines.push(line);
        proof {
            assert(iv.take(n + 1) =~= iv.take(n as int).push(iv[n as int]));
            assert(strs(lines@) =~= before.push(row_line(iv[n as int], cols)));
        }
        n = n + 1;
    }
    proof {
        assert(iv.take(issues@.len() as int) =~= iv);
    }
    Ok(lines)
}

/// The lines printed for the issues without the terminal screen: a note
/// when there are none, the JSON text with `--json`, the table otherwise
/// (or the message for an unknown column).
pub fn display_issues(issues: &[Pbi], columns: &[&str], show_json: bool) -> (r: Result<Vec<String>, String>)
    requires
        rows_cuttable(pbi_views(issues@), columns@.map_values(|c: &str| c@)),
        columns@.len() * 101 <= usize::MAX,
    ensures
        issues@.len() == 0 ==> (r matches Ok(lines) && strs(lines@) == seq!["No issues found for the filter."@]),
        issues@.len() > 0 && show_json ==> (r matches Ok(lines) && strs(lines@) == seq![
            json_pretty_text(issues_json_spec(pbi_views(issues@), columns@.map_values(|c: &str| c@)), 4),
        ]),
        issues@.len() > 0 && !show_json ==> match r {
            Ok(lines) => first_unknown(columns@.map_values(|c: &str| c@)) is None && strs(lines@) == table_lines_spec(
                pbi_views(issues@),
                columns@.map_values(|c: &str| c@),
            ),
            Err(m) => first_unknown(columns@.map_values(|c: &str| c@)) matches Some(c) && m@ == "Unknown display option '"@
                + c + "' passed."@,
        },
{
    if issues.len() == 0 {
        let mut v: Vec<String> = Vec::new();
        v.push("No issues found for the filter.".to_owned());
        assert(strs(v@) =~= seq!["No issues found for the filter."@]);
        return Ok(v);
    }
    if show_json {
        let mut v: Vec<String> = Vec::new();
        v.push(issues_json_text(issues, columns));
        assert(strs(v@) =~= seq![v@[0]@]);
        Ok(v)
    } else {
        table_lines(issues, columns)
    }
}

/// The columns that `--display` names: the text trimmed, split at commas.
pub fn display_columns(display: &str) -> (r: Vec<String>)
    ensures
        strs(r@) == crate::text::split_spec(crate::text::trim_spec(display@), ','),
{
    let t = crate::text::trim(display);
    let v = crate::text::split_char(t.as_str(), ',');
    assert(strs(v@) =~= v@.map_values(|x: String| x@));
    v
}

/// Whether a text's first `n` bytes end at a character boundary (see
/// [`head_sliceable`]).
pub fn is_head_sliceable(s: &str, n: usize) -> (r: bool)
    ensures
        r == head_sliceable(s@, n as nat),
{
    let len = s.as_bytes().len();
    assert(s.spec_bytes() == utf8(s@));
    len <= n || s.is_char_boundary(n)
}

/// Checks [`rows_cuttable`], so that the table can be printed.
pub fn check_rows_cuttable(issues: &[Pbi], columns: &[&str]) -> (r: bool)
    ensures
        r == rows_cuttable(pbi_views(issues@), columns@.map_values(|c: &str| c@)),
{
    let ghost cs = columns@.map_values(|c: &str| c@);
    let ghost ps = pbi_views(issues@);
    let mut i: usize = 0;
    while i < issues.len()
        invariant
            i <= issues@.len(),
            cs == columns@.map_values(|c: &str| c@),
            ps == pbi_views(issues@),
            ps.len() == issues@.len(),
            forall|a: int, b: int|
                0 <= a < i && 0 <= b < cs.len() ==> head_sliceable(
                    field_value_spec(#[trigger] ps[a], #[trigger] cs[b]),
                    width_of(cs[b]),
                ),
        decreases issues@.len() - i,
    {
        let mut j: usize = 0;
        while j < columns.len()
            invariant
                i < issues@.len(),
                j <= columns@.len(),
                cs == columns@.map_values(|c: &str| c@),
                ps == pbi_views(issues@),
                ps.len() == issues@.len(),
                forall|a: int, b: int|
                    0 <= a < i && 0 <= b < cs.len() ==> head_sliceable(
                        field_value_spec(#[trigger] ps[a], #[trigger] cs[b]),
                        width_of(cs[b]),
                    ),
                forall|b: int| 0 <= b < j ==> head_sliceable(field_value_spec(ps[i as int], #[trigger] cs[b]), width_of(cs[b])),
            decreases columns@.len() - j,
        {
            let v = field_value(&issues[i], columns[j]);
            let w: usize = match column_def(columns[j]) {
                Some(d) => d.width,
                None => 0,
            };
            assert(ps[i as int] == issues@[i as int]@);
            assert(cs[j as int] == columns@[j as int]@);
            if !is_head_sliceable(v.as_str(), w) {
                return false;
            }
            j = j + 1;
        }
        i = i + 1;
    }
    true
}

} // verus!
