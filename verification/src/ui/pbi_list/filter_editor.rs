//! The filter editor pop-up: pick a field, type its value, apply.

use vstd::prelude::*;
use crate::lists::{
    FILTER_FIELD_COUNT, ListFilter, ListFilterV, field_key, field_label, filter_fields_spec,
    law_set_display_keeps_filter,
};
use crate::text::{pad, pad_right};
use crate::text::str_eq;
use crate::ui::keys::Key;

verus! {

/// What the editor asks of the issue list.
pub enum FilterEditorAction {
    /// Apply this filter (and fetch the issues again).
    Apply(Box<ListFilter>),
    /// Close the editor.
    Close,
}

/// What the editor is doing.
#[derive(Clone, Copy, Debug, PartialEq, Eq, Structural)]
pub enum EditorMode {
    /// Choosing a field in the list.
    PickField,
    /// Typing the value of a field.
    TypeValue { field_idx: usize },
}

/// The value of the editor's state.
pub struct FilterEditorV {
    pub filter: ListFilterV,
    pub mode: EditorMode,
    pub selected: Option<usize>,
    pub input: Seq<char>,
}

/// The value of an action.
pub enum EditorActionV {
    Apply(ListFilterV),
    Close,
}

/// The value of an optional action.
pub open spec fn action_view(a: Option<FilterEditorAction>) -> Option<EditorActionV> {
    match a {
        Some(FilterEditorAction::Apply(f)) => Some(EditorActionV::Apply(f@)),
        Some(FilterEditorAction::Close) => Some(EditorActionV::Close),
        None => None,
    }
}

/// The key of the field at `idx`.
pub open spec fn key_at(idx: usize) -> Seq<char> {
    filter_fields_spec()[idx as int].0
}

/// A key while a field is being chosen: `j`/Down and `k`/Up move through
/// the fields (wrapping around), Enter edits the selected field starting
/// from its current value, `d`/Delete clears it, `m` toggles "assigned to
/// me", `F` applies the filter and Esc closes the editor.
pub open spec fn pick_field_step(s: FilterEditorV, key: Key) -> (FilterEditorV, Option<EditorActionV>) {
    let total = FILTER_FIELD_COUNT as int;
    if key == Key::Down || key == Key::Char('j') {
        (
            FilterEditorV {
                selected: Some(
                    match s.selected {
                        Some(i) => if i + 1 >= total {
                            0
                        } else {
                            (i + 1) as usize
                        },
                        None => 0,
                    },
                ),
                ..s
            },
            None,
        )
    } else if key == Key::Up || key == Key::Char('k') {
        (
            FilterEditorV {
                selected: Some(
                    match s.selected {
                        Some(i) => if i == 0 {
                            (total - 1) as usize
                        } else {
                            (i - 1) as usize
                        },
                        None => 0,
                    },
                ),
                ..s
            },
            None,
        )
    } else if key == Key::Enter {
        match s.selected {
            Some(idx) => (
                FilterEditorV {
                    input: s.filter.display(key_at(idx)),
                    mode: EditorMode::TypeValue { field_idx: idx },
                    ..s
                },
                None,
            ),
            None => (s, None),
        }
    } else if key == Key::Char('d') || key == Key::Delete {
        match s.selected {
            Some(idx) => (FilterEditorV { filter: s.filter.with_field(key_at(idx), Seq::empty()), ..s }, None),
            None => (s, None),
        }
    } else if key == Key::Char('m') {
        (FilterEditorV { filter: ListFilterV { me: !s.filter.me, ..s.filter }, ..s }, None)
    } else if key == Key::Char('F') {
        (s, Some(EditorActionV::Apply(s.filter)))
    } else if key == Key::Esc {
        (s, Some(EditorActionV::Close))
    } else {
        (s, None)
    }
}

/// A key while a value is typed: characters are added, Backspace removes
/// the last one, Enter sets the field from the text (comma-separated
/// values) and Esc drops the text; both go back to choosing a field.
pub open spec fn type_value_step(s: FilterEditorV, key: Key, idx: usize) -> (FilterEditorV, Option<EditorActionV>) {
    match key {
        Key::Char(c) => (FilterEditorV { input: s.input.push(c), ..s }, None),
        Key::Backspace => (
            FilterEditorV {
                input: if s.input.len() > 0 {
                    s.input.drop_last()
                } else {
                    s.input
                },
                ..s
            },
            None,
        ),
        Key::Enter => (
            FilterEditorV {
                filter: s.filter.set_text(key_at(idx), s.input),
                input: Seq::empty(),
                mode: EditorMode::PickField,
                ..s
            },
            None,
        ),
        Key::Esc => (FilterEditorV { input: Seq::empty(), mode: EditorMode::PickField, ..s }, None),
        _ => (s, None),
    }
}

/// What a key does to the editor, and what it asks of the list.
pub open spec fn editor_step(s: FilterEditorV, key: Key) -> (FilterEditorV, Option<EditorActionV>) {
    match s.mode {
        EditorMode::PickField => pick_field_step(s, key),
        EditorMode::TypeValue { field_idx } => type_value_step(s, key, field_idx),
    }
}

/// A field's value as the list shows it: `  value`, or a dash when empty.
pub open spec fn value_text(v: Seq<char>) -> Seq<char> {
    if v.len() == 0 {
        "  \u{2014}"@
    } else {
        "  "@ + v
    }
}

/// The filter editor.
pub struct FilterEditor {
    filter: ListFilter,
    mode: EditorMode,
    selected: Option<usize>,
    input: String,
}

impl View for FilterEditor {
    type V = FilterEditorV;

    closed spec fn view(&self) -> FilterEditorV {
        FilterEditorV { filter: self.filter@, mode: self.mode, selected: self.selected, input: self.input@ }
    }
}

/// The selection and the edited field always name one of the fields.
pub open spec fn editor_wf(s: FilterEditorV) -> bool {
    &&& (s.selected matches Some(i) ==> i < FILTER_FIELD_COUNT)
    &&& (s.mode matches EditorMode::TypeValue { field_idx } ==> field_idx < FILTER_FIELD_COUNT)
}

impl FilterEditor {
    #[verifier::type_invariant]
    closed spec fn inv(self) -> bool {
        editor_wf(self@)
    }

    /// An editor for `filter`, with the first field selected.
    pub fn new(filter: ListFilter) -> (r: FilterEditor)
        ensures
            r@ == (FilterEditorV {
                filter: filter@,
                mode: EditorMode::PickField,
                selected: Some(0),
                input: Seq::empty(),
            }),
    {
        FilterEditor { filter, mode: EditorMode::PickField, selected: Some(0), input: String::new() }
    }

    /// Handles a key (see [`editor_step`]).
    pub fn handle_key(&mut self, key: Key) -> (r: Option<FilterEditorAction>)
        ensures
            (final(self)@, action_view(r)) == editor_step(old(self)@, key),
    {
        proof {
            use_type_invariant(&*self);
        }
        match self.mode {
            EditorMode::PickField => self.handle_pick_field(key),
            EditorMode::TypeValue { field_idx } => self.handle_type_value(key, field_idx),
        }
    }

    fn handle_pick_field(&mut self, key: Key) -> (r: Option<FilterEditorAction>)
        requires
            old(self)@.mode == EditorMode::PickField,
            editor_wf(old(self)@),
        ensures
            (final(self)@, action_view(r)) == pick_field_step(old(self)@, key),
    {
        let total = FILTER_FIELD_COUNT;
        if key == Key::Down || key == Key::Char('j') {
            let next = match self.selected {
                Some(i) => if i + 1 >= total {
                    0
                } else {
                    i + 1
                },
                None => 0,
            };
            self.selected = Some(next);
            None
        } else if key == Key::Up || key == Key::Char('k') {
            let prev = match self.selected {
                Some(i) => if i == 0 {
                    total - 1
                } else {
                    i - 1
                },
                None => 0,
            };
            self.selected = Some(prev);
            None
        } else if key == Key::Enter {
            match self.selected {
                Some(idx) => {
                    let shown = self.filter.get_display(field_key(idx));
                    self.input = shown;
                    self.mode = EditorMode::TypeValue { field_idx: idx };
                },
                None => {},
            }
            None
        } else if key == Key::Char('d') || key == Key::Delete {
            match self.selected {
                Some(idx) => {
                    let mut f = self.filter.copy();
                    f.clear_field(field_key(idx));
                    self.filter = f;
                },
                None => {},
            }
            None
        } else if key == Key::Char('m') {
            let mut f = self.filter.copy();
            f.me = !f.me;
            self.filter = f;
            None
        } else if key == Key::Char('F') {
            Some(FilterEditorAction::Apply(Box::new(self.filter.copy())))
        } else if key == Key::Esc {
            Some(FilterEditorAction::Close)
        } else {
            None
        }
    }

    fn handle_type_value(&mut self, key: Key, field_idx: usize) -> (r: Option<FilterEditorAction>)
        requires
            old(self)@.mode == (EditorMode::TypeValue { field_idx }),
            editor_wf(old(self)@),
        ensures
            (final(self)@, action_view(r)) == type_value_step(old(self)@, key, field_idx),
    {
        match key {
            Key::Char(c) => {
                let mut s = self.input.clone();
                s.push(c);
                self.input = s;
                None
            },
            Key::Backspace => {
                let cs = crate::text::chars_of(self.input.as_str());
                if cs.len() > 0 {
                    self.input = crate::text::string_of_range(cs.as_slice(), 0, cs.len() - 1);
                    assert(self.input@ =~= old(self)@.input.drop_last());
                }
                None
            },
            Key::Enter => {
                let mut f = self.filter.copy();
                f.set_from_str(field_key(field_idx), self.input.as_str());
                self.filter = f;
                self.input = String::new();
                self.mode = EditorMode::PickField;
                None
            },
            Key::Esc => {
                self.input = String::new();
                self.mode = EditorMode::PickField;
                None
            },
            _ => None,
        }
    }

    /// The filter being edited.
    pub fn filter(&self) -> (r: &ListFilter)
        ensures
            r@ == self@.filter,
    {
        &self.filter
    }

    /// The selected field, if any.
    pub fn selected(&self) -> (r: Option<usize>)
        ensures
            r == self@.selected,
            r matches Some(i) ==> i < FILTER_FIELD_COUNT,
    {
        proof {
            use_type_invariant(self);
        }
        self.selected
    }

    /// The rows of the field list: each label padded to 14 characters, and
    /// `  value`, or `  —` for a field without value.
    pub fn field_rows(&self) -> (r: Vec<(String, String)>)
        ensures
            r@.len() == FILTER_FIELD_COUNT,
            forall|i: int| 0 <= i < FILTER_FIELD_COUNT ==> (#[trigger] r@[i]).0@ == pad_right(filter_fields_spec()[i].1, 14)
                && r@[i].1@ == value_text(self@.filter.display(filter_fields_spec()[i].0)),
    {
        let mut rows: Vec<(String, String)> = Vec::new();
        let mut i: usize = 0;
        while i < FILTER_FIELD_COUNT
            invariant
                i <= FILTER_FIELD_COUNT,
                rows@.len() == i,
                forall|j: int| 0 <= j < i ==> (#[trigger] rows@[j]).0@ == pad_right(filter_fields_spec()[j].1, 14)
                    && rows@[j].1@ == value_text(self@.filter.display(filter_fields_spec()[j].0)),
            decreases FILTER_FIELD_COUNT - i,
        {
            let label = pad(field_label(i), 14);
            let value = self.filter.get_display(field_key(i));
            let shown = if value.as_str().unicode_len() == 0 {
                "  \u{2014}".to_owned()
            } else {
                let mut t = "  ".to_owned();
                t.append(value.as_str());
                t
            };
            rows.push((label, shown));
            i = i + 1;
        }
        rows
    }

    /// The hint under the label of the field being edited.
    pub fn hint(&self) -> (r: &'static str)
        ensures
            (self@.mode matches EditorMode::TypeValue { field_idx } && (filter_fields_spec()[field_idx as int].0
                == "text"@ || filter_fields_spec()[field_idx as int].0 == "jql"@)) ==> r@ == "Single value"@,
            (self@.mode matches EditorMode::TypeValue { field_idx } && !(filter_fields_spec()[field_idx as int].0
                == "text"@ || filter_fields_spec()[field_idx as int].0 == "jql"@)) ==> r@
                == "Separate multiple values with commas"@,
    {
        proof {
            use_type_invariant(self);
        }
        match self.mode {
            EditorMode::TypeValue { field_idx } => {
                let k = field_key(field_idx);
                if str_eq(k, "text") || str_eq(k, "jql") {
                    "Single value"
                } else {
                    "Separate multiple values with commas"
                }
            },
            EditorMode::PickField => "",
        }
    }

    /// The title of the pop-up: ` Filters `, or the label of the field
    /// being edited.
    pub fn title(&self) -> (r: &'static str)
        ensures
            r@ == (match self@.mode {
                EditorMode::PickField => " Filters "@,
                EditorMode::TypeValue { field_idx } => filter_fields_spec()[field_idx as int].1,
            }),
    {
        proof {
            use_type_invariant(self);
        }
        match self.mode {
            EditorMode::PickField => " Filters ",
            EditorMode::TypeValue { field_idx } => field_label(field_idx),
        }
    }

    /// The text of the input box: what was typed, then a cursor.
    pub fn input_text(&self) -> (r: String)
        ensures
            r@ == self@.input + "_"@,
    {
        let mut s = self.input.clone();
        s.append("_");
        s
    }
}

/// Opening a field with Enter and confirming it with Enter, without typing,
/// leaves the filter as it was (for a value that reads back unchanged) and
/// returns to the field list.
pub proof fn law_edit_without_typing_keeps_filter(s: FilterEditorV, idx: usize)
    requires
        s.mode == EditorMode::PickField,
        s.selected == Some(idx),
        idx < FILTER_FIELD_COUNT,
        s.filter.field_clean(key_at(idx)),
    ensures
        editor_step(editor_step(s, Key::Enter).0, Key::Enter).0.filter == s.filter,
        editor_step(editor_step(s, Key::Enter).0, Key::Enter).0.mode == EditorMode::PickField,
{
    law_set_display_keeps_filter(s.filter, key_at(idx));
}

} // verus!
