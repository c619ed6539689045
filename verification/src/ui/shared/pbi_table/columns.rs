//! The columns of the issue table: their headers and widths.

use vstd::prelude::*;
use crate::text::utf8;
use crate::pbi::{Pbi, PbiV, elapsed_at, elapsed_text, pbi_elapsed_display};
use crate::dates::{Instant, instant_in_range};

verus! {

/// The built-in columns.
#[derive(Clone, Copy, Debug, PartialEq, Eq, Structural)]
pub enum PbiColumn {
    /// Whether the issue's details are loaded.
    Indicator,
    /// The issue type (Story, Bug, ...).
    Type,
    /// The issue key (PROJ-123).
    Key,
    /// The summary.
    Summary,
    /// The status.
    Status,
    /// The assignee.
    Assignee,
    /// The time since work started.
    Age,
    /// The priority.
    Priority,
}

/// The header of a built-in column.
pub open spec fn column_header(c: PbiColumn) -> Seq<char> {
    match c {
        PbiColumn::Indicator => ""@,
        PbiColumn::Type => "Type"@,
        PbiColumn::Key => "Key"@,
        PbiColumn::Summary => "Summary"@,
        PbiColumn::Status => "Status"@,
        PbiColumn::Assignee => "Assignee"@,
        PbiColumn::Age => "Age"@,
        PbiColumn::Priority => "Priority"@,
    }
}

/// The width a column asks for.
#[derive(Clone, Copy, Debug, PartialEq, Eq, Structural)]
pub enum ColumnWidth {
    /// Exactly this many cells.
    Length(u16),
    /// At least this many cells.
    Min(u16),
}

/// The width of a built-in column.
pub open spec fn column_width(c: PbiColumn) -> ColumnWidth {
    match c {
        PbiColumn::Indicator => ColumnWidth::Length(2),
        PbiColumn::Type => ColumnWidth::Length(12),
        PbiColumn::Key => ColumnWidth::Length(12),
        PbiColumn::Summary => ColumnWidth::Min(40),
        PbiColumn::Status => ColumnWidth::Length(18),
        PbiColumn::Assignee => ColumnWidth::Length(20),
        PbiColumn::Age => ColumnWidth::Length(5),
        PbiColumn::Priority => ColumnWidth::Length(10),
    }
}

impl PbiColumn {
    /// The header of the column.
    pub fn header(&self) -> (r: &'static str)
        ensures
            r@ == column_header(*self),
    {
        match self {
            PbiColumn::Indicator => "",
            PbiColumn::Type => "Type",
            PbiColumn::Key => "Key",
            PbiColumn::Summary => "Summary",
            PbiColumn::Status => "Status",
            PbiColumn::Assignee => "Assignee",
            PbiColumn::Age => "Age",
            PbiColumn::Priority => "Priority",
        }
    }

    /// The width of the column.
    pub fn constraint(&self) -> (r: ColumnWidth)
        ensures
            r == column_width(*self),
    {
        match self {
            PbiColumn::Indicator => ColumnWidth::Length(2),
            PbiColumn::Type => ColumnWidth::Length(12),
            PbiColumn::Key => ColumnWidth::Length(12),
            PbiColumn::Summary => ColumnWidth::Min(40),
            PbiColumn::Status => ColumnWidth::Length(18),
            PbiColumn::Assignee => ColumnWidth::Length(20),
            PbiColumn::Age => ColumnWidth::Length(5),
            PbiColumn::Priority => ColumnWidth::Length(10),
        }
    }
}

/// A column added by a plugin: its name, and the number under which the
/// script engine keeps the function that computes its values.
pub struct CustomColumn {
    pub name: String,
    pub id: u64,
}

impl CustomColumn {
    /// A copy of the column.
    pub fn copy(&self) -> (r: CustomColumn)
        ensures
            r == *self,
    {
        CustomColumn { name: self.name.clone(), id: self.id }
    }
}

/// A column of the table.
pub enum TableColumn {
    BuiltIn(PbiColumn),
    Custom(CustomColumn),
}

/// A plugin column is as wide as its name's bytes and two more, between 10
/// and 20 cells.
pub open spec fn custom_width(name: Seq<char>) -> u16 {
    let w = utf8(name).len() + 2;
    if w < 10 {
        10
    } else if w > 20 {
        20
    } else {
        w as u16
    }
}

/// The header of a column.
pub open spec fn table_column_header(c: TableColumn) -> Seq<char> {
    match c {
        TableColumn::BuiltIn(b) => column_header(b),
        TableColumn::Custom(x) => x.name@,
    }
}

/// The width of a column.
pub open spec fn table_column_width(c: TableColumn) -> ColumnWidth {
    match c {
        TableColumn::BuiltIn(b) => column_width(b),
        TableColumn::Custom(x) => ColumnWidth::Length(custom_width(x.name@)),
    }
}

impl TableColumn {
    /// The header of the column.
    pub fn header(&self) -> (r: String)
        ensures
            r@ == table_column_header(*self),
    {
        match self {
            TableColumn::BuiltIn(column) => column.header().to_owned(),
            TableColumn::Custom(column) => column.name.clone(),
        }
    }

    /// The width of the column.
    pub fn constraint(&self) -> (r: ColumnWidth)
        ensures
            r == table_column_width(*self),
    {
        match self {
            TableColumn::BuiltIn(column) => column.constraint(),
            TableColumn::Custom(column) => {
                let n = column.name.as_str().as_bytes().len();
                let w: u16 = if n < 8 {
                    10
                } else if n > 18 {
                    20
                } else {
                    (n + 2) as u16
                };
                ColumnWidth::Length(w)
            },
        }
    }
}

/// Which columns the table shows.
pub struct ColumnConfig {
    pub columns: Vec<TableColumn>,
}

/// The columns of the sprint and list views.
pub open spec fn default_columns() -> Seq<PbiColumn> {
    seq![
        PbiColumn::Indicator,
        PbiColumn::Type,
        PbiColumn::Key,
        PbiColumn::Summary,
        PbiColumn::Status,
        PbiColumn::Assignee,
        PbiColumn::Age,
    ]
}

impl ColumnConfig {
    /// The columns of the sprint view.
    pub fn sprint_view() -> (r: ColumnConfig)
        ensures
            r.columns@.len() == 7,
            forall|i: int| 0 <= i < 7 ==> #[trigger] r.columns@[i] == TableColumn::BuiltIn(default_columns()[i]),
    {
        let mut columns: Vec<TableColumn> = Vec::new();
        columns.push(TableColumn::BuiltIn(PbiColumn::Indicator));
        columns.push(TableColumn::BuiltIn(PbiColumn::Type));
        columns.push(TableColumn::BuiltIn(PbiColumn::Key));
        columns.push(TableColumn::BuiltIn(PbiColumn::Summary));
        columns.push(TableColumn::BuiltIn(PbiColumn::Status));
        columns.push(TableColumn::BuiltIn(PbiColumn::Assignee));
        columns.push(TableColumn::BuiltIn(PbiColumn::Age));
        ColumnConfig { columns }
    }

    /// The columns of the list view (those of the sprint view).
    pub fn list_view() -> (r: ColumnConfig)
        ensures
            r.columns@.len() == 7,
            forall|i: int| 0 <= i < 7 ==> #[trigger] r.columns@[i] == TableColumn::BuiltIn(default_columns()[i]),
    {
        Self::sprint_view()
    }

    /// No columns.
    pub fn new() -> (r: ColumnConfig)
        ensures
            r.columns@.len() == 0,
    {
        ColumnConfig { columns: Vec::new() }
    }

    /// The headers of the columns, in order.
    pub fn headers(&self) -> (r: Vec<String>)
        ensures
            r@.len() == self.columns@.len(),
            forall|i: int| 0 <= i < r@.len() ==> (#[trigger] r@[i])@ == table_column_header(self.columns@[i]),
    {
        let mut out: Vec<String> = Vec::new();
        let mut i: usize = 0;
        while i < self.columns.len()
            invariant
                i <= self.columns@.len(),
                out@.len() == i,
                forall|j: int| 0 <= j < i ==> (#[trigger] out@[j])@ == table_column_header(self.columns@[j]),
            decreases self.columns@.len() - i,
        {
            out.push(self.columns[i].header());
            i = i + 1;
        }
        out
    }

    /// The widths of the columns, in order.
    pub fn constraints(&self) -> (r: Vec<ColumnWidth>)
        ensures
            r@.len() == self.columns@.len(),
            forall|i: int| 0 <= i < r@.len() ==> #[trigger] r@[i] == table_column_width(self.columns@[i]),
    {
        let mut out: Vec<ColumnWidth> = Vec::new();
        let mut i: usize = 0;
        while i < self.columns.len()
            invariant
                i <= self.columns@.len(),
                out@.len() == i,
                forall|j: int| 0 <= j < i ==> #[trigger] out@[j] == table_column_width(self.columns@[j]),
            decreases self.columns@.len() - i,
        {
            out.push(self.columns[i].constraint());
            i = i + 1;
        }
        out
    }

    /// Whether the built-in `column` is shown.
    pub fn has_column(&self, column: PbiColumn) -> (r: bool)
        ensures
            r == exists|i: int| 0 <= i < self.columns@.len() && self.columns@[i] == TableColumn::BuiltIn(column),
    {
        let mut i: usize = 0;
        while i < self.columns.len()
            invariant
                i <= self.columns@.len(),
                forall|j: int| 0 <= j < i ==> self.columns@[j] != TableColumn::BuiltIn(column),
            decreases self.columns@.len() - i,
        {
            match &self.columns[i] {
                TableColumn::BuiltIn(c) => {
                    if *c == column {
                        return true;
                    }
                },
                TableColumn::Custom(_) => {},
            }
            i = i + 1;
        }
        false
    }

    /// Adds a plugin column at the end.
    pub fn add_custom(&mut self, column: CustomColumn)
        ensures
            final(self).columns@ == old(self).columns@.push(TableColumn::Custom(column)),
    {
        self.columns.push(TableColumn::Custom(column));
    }
}

impl Default for ColumnConfig {
    /// The columns of the list view.
    fn default() -> (r: ColumnConfig)
        ensures
            r.columns@.len() == 7,
            forall|i: int| 0 <= i < 7 ==> #[trigger] r.columns@[i] == TableColumn::BuiltIn(default_columns()[i]),
    {
        Self::list_view()
    }
}

/// The text of a built-in column for an issue, but for the age, which
/// depends on the clock (see [`builtin_cell`]).
pub open spec fn cell_text(column: PbiColumn, p: PbiV) -> Seq<char> {
    match column {
        PbiColumn::Indicator => " "@,
        PbiColumn::Type => p.issue_type,
        PbiColumn::Key => p.key,
        PbiColumn::Summary => p.summary,
        PbiColumn::Status => p.status,
        PbiColumn::Assignee => p.assignee,
        PbiColumn::Priority => match p.priority {
            Some(x) => x,
            None => Seq::empty(),
        },
        PbiColumn::Age => Seq::empty(),
    }
}

/// The text of a built-in column for an issue: a blank indicator, the
/// issue's type, key, summary, status, assignee or priority, or the time
/// spent on it until now.
pub fn builtin_cell(column: PbiColumn, pbi: &Pbi) -> (r: String)
    ensures
        column != PbiColumn::Age ==> r@ == cell_text(column, pbi@),
        column == PbiColumn::Age ==> exists|now: Instant|
            instant_in_range(now) && r@ == elapsed_text(
                #[trigger] elapsed_at(pbi.status@, crate::json::opt_view(pbi.in_progress_at), crate::json::opt_view(pbi.resolved_at), now),
            ),
{
    proof {
        reveal_strlit(" ");
    }
    match column {
        PbiColumn::Indicator => String::from_str(" "),
        PbiColumn::Type => pbi.issue_type.clone(),
        PbiColumn::Key => pbi.key.clone(),
        PbiColumn::Summary => pbi.summary.clone(),
        PbiColumn::Status => pbi.status.clone(),
        PbiColumn::Assignee => pbi.assignee.clone(),
        PbiColumn::Age => pbi_elapsed_display(pbi),
        PbiColumn::Priority => match &pbi.priority {
            Some(x) => x.clone(),
            None => String::new(),
        },
    }
}

} // verus!
