use vstd::prelude::*;
use crate::datetext::{parse_date, parse_date_spec, parse_datetime_spec, parse_utc_datetime};
use crate::priority::{todoist_priority, todoist_priority_spec};
use crate::schedule::ScheduleItem;
use crate::text::{decimal, decimal_text};
use crate::timestamp::{Due, local_midnight, valid_offset};
use crate::todoist_client::{Task, TodoistDate};

verus! {

/// The tag of items that come from the task manager.
pub const TODOIST_SOURCE: &'static str = "todoist";

/// A task that could not be turned into a schedule item: its due date is
/// not in a form that can be read.
#[derive(Clone, Copy, Debug, PartialEq, Eq, Structural)]
pub struct MappingError {
    pub task_id: usize,
}

/// Whether a due date can be read: its instant when a time is set, else
/// its date.
pub open spec fn due_readable(d: TodoistDate) -> bool {
    match d.datetime {
        Some(s) => parse_datetime_spec(s@) is Some,
        None => parse_date_spec(d.date@) is Some,
    }
}

/// The due point of a readable due date: the instant when a time is set,
/// else the start of the date in a zone `offset` minutes east of UTC.
pub open spec fn due_value(d: TodoistDate, offset: int) -> Due {
    match d.datetime {
        Some(s) => Due { timestamp: parse_datetime_spec(s@)->0 as i64, has_time: true },
        None => Due {
            timestamp: local_midnight(parse_date_spec(d.date@)->0, offset) as i64,
            has_time: false,
        },
    }
}

pub open spec fn task_mappable(t: Task) -> bool {
    t.due is None || due_readable(t.due->0)
}

/// `it` is what task `t` becomes, date-only dues read in a zone `offset`
/// minutes east of UTC.
pub open spec fn item_matches(it: ScheduleItem, t: Task, offset: int) -> bool {
    &&& it.id@ == "todoist:"@ + decimal(t.id as nat)
    &&& it.title@ == t.content@
    &&& it.due == (if t.due is Some {
        Some(due_value(t.due->0, offset))
    } else {
        None
    })
    &&& it.priority == todoist_priority_spec(t.priority)
    &&& it.completed == t.completed
    &&& it.source@ == "todoist"@
    &&& it.url is Some && it.url->0@ == t.url@
}

/// The tasks of `s` that can be mapped, in order.
pub open spec fn mappable_tasks(s: Seq<Task>) -> Seq<Task>
    decreases s.len(),
{
    if s.len() == 0 {
        Seq::empty()
    } else if task_mappable(s.last()) {
        mappable_tasks(s.drop_last()).push(s.last())
    } else {
        mappable_tasks(s.drop_last())
    }
}

/// Reads a due date into a due point; `None` when it cannot be read.
pub fn task_due(d: &TodoistDate, offset_minutes: i32) -> (r: Option<Due>)
    requires
        valid_offset(offset_minutes as int),
    ensures
        r is Some <==> due_readable(*d),
        r is Some ==> r->0 == due_value(*d, offset_minutes as int),
{
    match &d.datetime {
        Some(s) => match parse_utc_datetime(s.as_str()) {
            Some(t) => Some(Due::at_instant(t)),
            None => None,
        },
        None => match parse_date(d.date.as_str()) {
            Some(date) => Some(Due::date_only(date, offset_minutes)),
            None => None,
        },
    }
}

/// Turns a task into a schedule item: id `todoist:<id>`, the task's text as
/// title, its due point, its priority on the unified scale and its link.
pub fn task_to_item(task: Task, offset_minutes: i32) -> (r: Result<ScheduleItem, MappingError>)
    requires
        valid_offset(offset_minutes as int),
    ensures
        r is Ok <==> task_mappable(task),
        r is Ok ==> item_matches(r->Ok_0, task, offset_minutes as int),
        r is Err ==> r->Err_0.task_id == task.id,
{
    let due = match &task.due {
        Some(d) => match task_due(d, offset_minutes) {
            Some(v) => Some(v),
            None => return Err(MappingError { task_id: task.id }),
        },
        None => None,
    };
    let digits = decimal_text(task.id);
    let id = String::from_str("todoist:").concat(digits.as_str());
    let priority = todoist_priority(task.priority);
    let Task { content, completed, url, .. } = task;
    proof {
        reveal_strlit("todoist");
    }
    Ok(
        ScheduleItem {
            id,
            title: content,
            due,
            priority,
            completed,
            source: String::from_str(TODOIST_SOURCE),
            url: Some(url),
        },
    )
}

/// Turns tasks into schedule items, in order, skipping those whose due date
/// cannot be read. Completed tasks are kept.
pub fn tasks_to_schedule(tasks: Vec<Task>, offset_minutes: i32) -> (r: Vec<ScheduleItem>)
    requires
        valid_offset(offset_minutes as int),
    ensures
        r@.len() == mappable_tasks(tasks@).len(),
        forall|k: int|
            0 <= k < r@.len() ==> item_matches(
                #[trigger] r@[k],
                mappable_tasks(tasks@)[k],
                offset_minutes as int,
            ),
{
    let ghost orig = tasks@;
    let n = tasks.len();
    let mut rest = tasks;
    let mut out: Vec<ScheduleItem> = Vec::new();
    let mut j: usize = 0;
    while j < n
        invariant
            valid_offset(offset_minutes as int),
            n == orig.len(),
            j <= n,
            rest@ == orig.subrange(j as int, n as int),
            out@.len() == mappable_tasks(orig.subrange(0, j as int)).len(),
            forall|k: int|
                0 <= k < out@.len() ==> item_matches(
                    #[trigger] out@[k],
                    mappable_tasks(orig.subrange(0, j as int))[k],
                    offset_minutes as int,
                ),
        decreases n - j,
    {
        let t = rest.remove(0);
        let ghost tg = t;
        proof {
            assert(orig.subrange(0, j + 1).drop_last() =~= orig.subrange(0, j as int));
            assert(orig.subrange(0, j + 1).last() == t);
        }
        match task_to_item(t, offset_minutes) {
            Ok(it) => {
                out.push(it);
                proof {
                    let m = mappable_tasks(orig.subrange(0, j + 1));
                    assert(m == mappable_tasks(orig.subrange(0, j as int)).push(tg));
                    assert forall|k: int| 0 <= k < out@.len() implies item_matches(
                        #[trigger] out@[k],
                        m[k],
                        offset_minutes as int,
                    ) by {
                        if k < out@.len() - 1 {
                            assert(m[k] == mappable_tasks(orig.subrange(0, j as int))[k]);
                        }
                    }
                }
            },
            Err(_) => {},
        }
        j = j + 1;
    }
    proof {
        assert(orig.subrange(0, n as int) =~= orig);
    }
    out
}

} // verus!
