//! The detail view of one issue: keys, scrolling, and the texts and colours
//! it shows.

use vstd::prelude::*;
use crate::json::opt_view;
use crate::pbi::{Pbi, PbiV};
use crate::text::{byte_head, contains, contains_spec, head_sliceable, join, join_spec, str_eq, str_head, strs, to_lowercase, unicode_lowercase};
use crate::ui::keys::Key;

verus! {

/// What the detail view asks of its screen.
#[derive(Clone, Copy, Debug, PartialEq, Eq, Structural)]
pub enum PbiDetailAction {
    /// Go back to the list.
    Back,
    /// Open the raw JSON in the editor.
    ShowRaw,
}

/// The colours of the detail view's texts.
#[derive(Clone, Copy, Debug, PartialEq, Eq, Structural)]
pub enum TextColor {
    Green,
    Blue,
    Magenta,
    Red,
    White,
    LightRed,
    Yellow,
    LightBlue,
    DarkGray,
}

/// The colour of a lowercased status: green when done or closed, blue in
/// progress, magenta in review, red when blocked, green when resolved,
/// white otherwise (the first that applies).
pub open spec fn status_color_lower(s: Seq<char>) -> TextColor {
    if contains_spec(s, "done"@) || contains_spec(s, "closed"@) {
        TextColor::Green
    } else if contains_spec(s, "progress"@) {
        TextColor::Blue
    } else if contains_spec(s, "review"@) {
        TextColor::Magenta
    } else if contains_spec(s, "blocked"@) {
        TextColor::Red
    } else if contains_spec(s, "resolved"@) {
        TextColor::Green
    } else {
        TextColor::White
    }
}

/// The colour of an already lowercased status.
pub fn status_color_of_lower(s: &str) -> (r: TextColor)
    ensures
        r == status_color_lower(s@),
{
    if contains(s, "done") || contains(s, "closed") {
        TextColor::Green
    } else if contains(s, "progress") {
        TextColor::Blue
    } else if contains(s, "review") {
        TextColor::Magenta
    } else if contains(s, "blocked") {
        TextColor::Red
    } else if contains(s, "resolved") {
        TextColor::Green
    } else {
        TextColor::White
    }
}

/// The colour of a status (case-insensitively).
pub fn status_color(status: &str) -> (r: TextColor)
    ensures
        r == status_color_lower(unicode_lowercase(status@)),
{
    let lower = to_lowercase(status);
    status_color_of_lower(lower.as_str())
}

/// The colour of a lowercased priority.
pub open spec fn priority_color_lower(p: Seq<char>) -> TextColor {
    if p == "highest"@ || p == "critical"@ {
        TextColor::Red
    } else if p == "high"@ {
        TextColor::LightRed
    } else if p == "medium"@ {
        TextColor::Yellow
    } else if p == "low"@ {
        TextColor::LightBlue
    } else if p == "lowest"@ {
        TextColor::DarkGray
    } else {
        TextColor::White
    }
}

/// The colour of an already lowercased priority.
pub fn priority_color_of_lower(p: &str) -> (r: TextColor)
    ensures
        r == priority_color_lower(p@),
{
    if str_eq(p, "highest") || str_eq(p, "critical") {
        TextColor::Red
    } else if str_eq(p, "high") {
        TextColor::LightRed
    } else if str_eq(p, "medium") {
        TextColor::Yellow
    } else if str_eq(p, "low") {
        TextColor::LightBlue
    } else if str_eq(p, "lowest") {
        TextColor::DarkGray
    } else {
        TextColor::White
    }
}

/// The colour of a priority (case-insensitively).
pub fn priority_color(priority: &str) -> (r: TextColor)
    ensures
        r == priority_color_lower(unicode_lowercase(priority@)),
{
    let lower = to_lowercase(priority);
    priority_color_of_lower(lower.as_str())
}

/// `s` with every `T` replaced by a space.
pub open spec fn t_to_space(s: Seq<char>) -> Seq<char> {
    s.map_values(|c: char| if c == 'T' {
        ' '
    } else {
        c
    })
}

/// A Jira timestamp shortened to `YYYY-MM-DD HH:MM`: its first 16 bytes,
/// with `T` replaced by a space.
pub open spec fn short_timestamp(ts: Seq<char>) -> Seq<char> {
    t_to_space(byte_head(ts, 16))
}

/// Shortens a Jira timestamp such as `2026-03-08T09:15:00.000+0000` to
/// `2026-03-08 09:15`.
pub fn format_timestamp(ts: &str) -> (r: String)
    requires
        head_sliceable(ts@, 16),
    ensures
        r@ == short_timestamp(ts@),
{
    let head = str_head(ts, 16);
    let cs = crate::text::chars_of(head.as_str());
    let mut out = String::new();
    let mut i: usize = 0;
    while i < cs.len()
        invariant
            cs@ == head@,
            i <= cs@.len(),
            out@ == t_to_space(head@).take(i as int),
        decreases cs@.len() - i,
    {
        let c = cs[i];
        out.push(if c == 'T' {
            ' '
        } else {
            c
        });
        i = i + 1;
        assert(out@ =~= t_to_space(head@).take(i as int));
    }
    assert(t_to_space(head@).take(cs@.len() as int) =~= t_to_space(head@));
    out
}

/// The detail view of an issue, scrolled down `desc_scroll` lines in its
/// description.
pub struct PbiDetailView {
    pub pbi: Pbi,
    pub desc_scroll: u16,
}

/// `a + 1`, at most `u16::MAX`.
pub open spec fn inc_sat(a: u16) -> u16 {
    if a == u16::MAX {
        a
    } else {
        (a + 1) as u16
    }
}

/// `a - 1`, at least 0.
pub open spec fn dec_sat(a: u16) -> u16 {
    if a == 0 {
        a
    } else {
        (a - 1) as u16
    }
}

/// What a key does in the detail view: the new scroll position, and what
/// is asked of the screen. `h`, Left and Esc go back, `r`/`R` show the raw
/// JSON, `j`/Down and `k`/Up scroll.
pub open spec fn detail_step(scroll: u16, key: Key) -> (u16, Option<PbiDetailAction>) {
    if key == Key::Left || key == Key::Char('h') || key == Key::Esc {
        (scroll, Some(PbiDetailAction::Back))
    } else if key == Key::Char('r') || key == Key::Char('R') {
        (scroll, Some(PbiDetailAction::ShowRaw))
    } else if key == Key::Down || key == Key::Char('j') {
        (inc_sat(scroll), None)
    } else if key == Key::Up || key == Key::Char('k') {
        (dec_sat(scroll), None)
    } else {
        (scroll, None)
    }
}

/// A dash for a missing text.
pub open spec fn or_dash(t: Option<Seq<char>>) -> Seq<char> {
    match t {
        Some(x) => x,
        None => "\u{2014}"@,
    }
}

impl PbiDetailView {
    /// The view of `pbi`, at the top of its description.
    pub fn new(pbi: Pbi) -> (r: PbiDetailView)
        ensures
            r.pbi@ == pbi@,
            r.desc_scroll == 0,
    {
        PbiDetailView { pbi, desc_scroll: 0 }
    }

    /// Handles a key (see [`detail_step`]).
    pub fn handle_key(&mut self, key: Key) -> (r: Option<PbiDetailAction>)
        ensures
            (final(self).desc_scroll, r) == detail_step(old(self).desc_scroll, key),
            final(self).pbi@ == old(self).pbi@,
    {
        if key == Key::Left || key == Key::Char('h') || key == Key::Esc {
            Some(PbiDetailAction::Back)
        } else if key == Key::Char('r') || key == Key::Char('R') {
            Some(PbiDetailAction::ShowRaw)
        } else if key == Key::Down || key == Key::Char('j') {
            self.scroll_down();
            None
        } else if key == Key::Up || key == Key::Char('k') {
            self.scroll_up();
            None
        } else {
            None
        }
    }

    /// Scrolls the description down one line.
    pub fn scroll_down(&mut self)
        ensures
            final(self).desc_scroll == inc_sat(old(self).desc_scroll),
            final(self).pbi@ == old(self).pbi@,
    {
        self.desc_scroll = self.desc_scroll.saturating_add(1);
    }

    /// Scrolls the description up one line.
    pub fn scroll_up(&mut self)
        ensures
            final(self).desc_scroll == dec_sat(old(self).desc_scroll),
            final(self).pbi@ == old(self).pbi@,
    {
        self.desc_scroll = self.desc_scroll.saturating_sub(1);
    }

    /// The labels joined with `, `, or a dash.
    pub fn labels_text(&self) -> (r: String)
        ensures
            r@ == (if self.pbi@.labels.len() == 0 {
                "\u{2014}"@
            } else {
                join_spec(self.pbi@.labels, ", "@)
            }),
    {
        if self.pbi.labels.len() == 0 {
            "\u{2014}".to_owned()
        } else {
            assert(self.pbi.labels@.map_values(|x: String| x@) =~= strs(self.pbi.labels@));
            join(self.pbi.labels.as_slice(), ", ")
        }
    }

    /// The priority, or a dash.
    pub fn priority_text(&self) -> (r: String)
        ensures
            r@ == or_dash(self.pbi@.priority),
    {
        match &self.pbi.priority {
            Some(p) => p.clone(),
            None => "\u{2014}".to_owned(),
        }
    }

    /// The description, or a hint to load it.
    pub fn description_text(&self) -> (r: String)
        ensures
            r@ == (match self.pbi@.description {
                Some(d) => d,
                None => "No description loaded. Press  f  to fetch details."@,
            }),
    {
        match &self.pbi.description {
            Some(d) => d.clone(),
            None => "No description loaded. Press  f  to fetch details.".to_owned(),
        }
    }

    /// The start time shortened, or a dash.
    pub fn in_progress_text(&self) -> (r: String)
        requires
            self.pbi@.in_progress_at matches Some(t) ==> head_sliceable(t, 16),
        ensures
            r@ == or_dash(
                match self.pbi@.in_progress_at {
                    Some(t) => Some(short_timestamp(t)),
                    None => None,
                },
            ),
    {
        match &self.pbi.in_progress_at {
            Some(t) => format_timestamp(t.as_str()),
            None => "\u{2014}".to_owned(),
        }
    }

    /// The resolution time shortened, or a dash.
    pub fn resolved_text(&self) -> (r: String)
        requires
            self.pbi@.resolved_at matches Some(t) ==> head_sliceable(t, 16),
        ensures
            r@ == or_dash(
                match self.pbi@.resolved_at {
                    Some(t) => Some(short_timestamp(t)),
                    None => None,
                },
            ),
    {
        match &self.pbi.resolved_at {
            Some(t) => format_timestamp(t.as_str()),
            None => "\u{2014}".to_owned(),
        }
    }
}

} // verus!
