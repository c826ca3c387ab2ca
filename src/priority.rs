use vstd::prelude::*;

verus! {

/// The unified priority scale, from lowest to highest.
#[derive(Clone, Copy, Debug, PartialEq, Eq, Structural)]
pub enum Priority {
    Unset,
    Low,
    Normal,
    High,
    Urgent,
}

/// Position of a priority on the unified scale.
pub open spec fn rank(p: Priority) -> int {
    match p {
        Priority::Unset => 0,
        Priority::Low => 1,
        Priority::Normal => 2,
        Priority::High => 3,
        Priority::Urgent => 4,
    }
}

/// The task manager's priority table: its scale runs from 1 (plain) to 4
/// (most pressing); any other value, and a missing one, is `Normal`.
pub open spec fn todoist_priority_spec(raw: usize) -> Priority {
    if raw == 1 {
        Priority::Low
    } else if raw == 2 {
        Priority::Normal
    } else if raw == 3 {
        Priority::High
    } else if raw == 4 {
        Priority::Urgent
    } else {
        Priority::Normal
    }
}

impl Priority {
    pub fn rank(&self) -> (r: u8)
        ensures
            r as int == rank(*self),
    {
        match self {
            Priority::Unset => 0,
            Priority::Low => 1,
            Priority::Normal => 2,
            Priority::High => 3,
            Priority::Urgent => 4,
        }
    }
}

/// Maps the task manager's numeric priority onto the unified scale.
/// Values outside the table fall back to `Normal`; no value is an error.
pub fn todoist_priority(raw: usize) -> (p: Priority)
    ensures
        p == todoist_priority_spec(raw),
        !(1 <= raw <= 4) ==> p == Priority::Normal,
{
    match raw {
        1 => Priority::Low,
        2 => Priority::Normal,
        3 => Priority::High,
        4 => Priority::Urgent,
        _ => Priority::Normal,
    }
}

} // verus!
