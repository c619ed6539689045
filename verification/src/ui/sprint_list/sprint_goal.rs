//! The sprint title bar and the optional sprint-goal block.

use vstd::prelude::*;
use crate::ui::components::ui_boxed_title::UiBoxedTitle;
use crate::ui::components::ui_title::UiTitle;

verus! {

/// The sprint's name and goal.
pub struct SprintGoalWidget {
    pub sprint_name: String,
    pub sprint_goal: String,
}

impl SprintGoalWidget {
    pub fn new(sprint_name: String, sprint_goal: String) -> (r: SprintGoalWidget)
        ensures
            r.sprint_name@ == sprint_name@,
            r.sprint_goal@ == sprint_goal@,
    {
        SprintGoalWidget { sprint_name, sprint_goal }
    }

    /// The rows the goal block takes: none without a goal.
    pub fn goal_height(&self) -> (r: u16)
        ensures
            r == (if self.sprint_goal@.len() == 0 {
                0u16
            } else {
                3u16
            }),
    {
        if self.sprint_goal.unicode_len() == 0 {
            0
        } else {
            3
        }
    }

    /// The title bar: ` Sprint: ` and the sprint's name.
    pub fn title(&self) -> (r: UiTitle)
        ensures
            r.label@ == " Sprint: "@,
            r.description@ == self.sprint_name@,
    {
        UiTitle::new(" Sprint: ", self.sprint_name.as_str())
    }

    /// The goal block, titled ` Goal `; none without a goal.
    pub fn goal(&self) -> (r: Option<UiBoxedTitle>)
        ensures
            match r {
                Some(b) => self.sprint_goal@.len() > 0 && b.title@ == " Goal "@ && b.content@ == self.sprint_goal@,
                None => self.sprint_goal@.len() == 0,
            },
    {
        if self.sprint_goal.unicode_len() == 0 {
            None
        } else {
            Some(UiBoxedTitle::new(" Goal ", self.sprint_goal.as_str()))
        }
    }
}

} // verus!
