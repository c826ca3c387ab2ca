use unified_schedule::aggregate::{
    classify, is_emergency, Aggregator, Policy, SourceError, SourceReport, DEFAULT_WINDOW_SECS,
};
use unified_schedule::datetext::{parse_date, parse_utc_datetime};
use unified_schedule::priority::{todoist_priority, Priority};
use unified_schedule::schedule::{sort_schedule, ScheduleItem};
use unified_schedule::text::{decimal_text, same_text};
use unified_schedule::timestamp::{days_from_civil_exec, CivilDate, Due};
use unified_schedule::todoist_client::{
    find_project, select_tasks, Project, Task, TodoistDate, TodoistRestClient,
};
use unified_schedule::todoist_scheduler::{task_due, task_to_item, tasks_to_schedule, MappingError};

const JAN1_2024: i64 = 1704067200;

fn item(id: &str, due: Option<Due>, priority: Priority, completed: bool) -> ScheduleItem {
    ScheduleItem {
        id: id.to_string(),
        title: format!("title of {}", id),
        due,
        priority,
        completed,
        source: "test".to_string(),
        url: None,
    }
}

fn ids(items: &[ScheduleItem]) -> Vec<String> {
    items.iter().map(|i| i.id.clone()).collect()
}

fn ok_report(source: &str, items: Vec<ScheduleItem>) -> SourceReport {
    SourceReport { source: source.to_string(), outcome: Ok(items) }
}

fn failed_report(source: &str) -> SourceReport {
    SourceReport {
        source: source.to_string(),
        outcome: Err(SourceError::SourceUnavailable { reason: "connection refused".to_string() }),
    }
}

fn task(id: usize, project_id: usize, priority: usize, due: Option<TodoistDate>) -> Task {
    Task {
        id,
        project_id,
        section_id: 0,
        content: format!("task {}", id),
        completed: false,
        label_ids: vec![],
        parent: None,
        order: None,
        priority,
        due,
        url: format!("https://todoist.com/showTask?id={}", id),
    }
}

fn date_only(date: &str) -> TodoistDate {
    TodoistDate { string: date.to_string(), date: date.to_string(), datetime: None, timezone: None }
}

fn timed(date: &str, datetime: &str) -> TodoistDate {
    TodoistDate {
        string: datetime.to_string(),
        date: date.to_string(),
        datetime: Some(datetime.to_string()),
        timezone: Some("Europe/Berlin".to_string()),
    }
}

fn project(id: usize, name: &str) -> Project {
    Project { comment_count: 0, id, name: name.to_string(), color: 30, shared: false }
}

#[test]
fn date_only_due_is_local_midnight() {
    let d = CivilDate { year: 2024, month: 1, day: 1 };
    let utc = Due::date_only(d, 0);
    assert_eq!(utc.timestamp, JAN1_2024);
    assert!(!utc.has_time);
    let berlin = Due::date_only(d, 60);
    assert_eq!(berlin.timestamp, JAN1_2024 - 3600);
    assert_eq!((berlin.timestamp + 60 * 60) % 86400, 0);
    let new_york = Due::date_only(d, -300);
    assert_eq!(new_york.timestamp, JAN1_2024 + 5 * 3600);
}

#[test]
fn day_numbers() {
    assert_eq!(days_from_civil_exec(CivilDate { year: 1970, month: 1, day: 1 }), 0);
    assert_eq!(days_from_civil_exec(CivilDate { year: 2024, month: 1, day: 1 }), 19723);
    assert_eq!(days_from_civil_exec(CivilDate { year: 2024, month: 3, day: 1 }), 19783);
    assert_eq!(days_from_civil_exec(CivilDate { year: 1969, month: 12, day: 31 }), -1);
    assert_eq!(days_from_civil_exec(CivilDate { year: 2000, month: 3, day: 1 }), 11017);
}

#[test]
fn parses_dates() {
    assert_eq!(parse_date("2024-01-01"), Some(CivilDate { year: 2024, month: 1, day: 1 }));
    assert_eq!(parse_date("2024-02-29"), Some(CivilDate { year: 2024, month: 2, day: 29 }));
    assert_eq!(parse_date("2023-02-29"), None);
    assert_eq!(parse_date("2024-04-31"), None);
    assert_eq!(parse_date("2024-13-01"), None);
    assert_eq!(parse_date("2024-1-01"), None);
    assert_eq!(parse_date("2024-01-01T"), None);
    assert_eq!(parse_date(""), None);
}

#[test]
fn parses_utc_datetimes() {
    assert_eq!(parse_utc_datetime("2024-01-01T09:00:00Z"), Some(JAN1_2024 + 9 * 3600));
    assert_eq!(parse_utc_datetime("2016-09-01T12:00:00.000000Z"), Some(1472731200));
    assert_eq!(parse_utc_datetime("2024-01-01T24:00:00Z"), None);
    assert_eq!(parse_utc_datetime("2024-01-01T09:00:00"), None);
    assert_eq!(parse_utc_datetime("2024-01-01T09:00:00.Z"), None);
    assert_eq!(parse_utc_datetime("2024-01-01T09:00:00+01:00"), None);
}

#[test]
fn priority_table() {
    assert_eq!(todoist_priority(1), Priority::Low);
    assert_eq!(todoist_priority(2), Priority::Normal);
    assert_eq!(todoist_priority(3), Priority::High);
    assert_eq!(todoist_priority(4), Priority::Urgent);
    assert_eq!(Priority::Urgent.rank(), 4);
    assert_eq!(Priority::Unset.rank(), 0);
}

#[test]
fn unknown_priority_is_normal() {
    assert_eq!(todoist_priority(0), Priority::Normal);
    assert_eq!(todoist_priority(5), Priority::Normal);
    assert_eq!(todoist_priority(usize::MAX), Priority::Normal);
}

#[test]
fn emergency_rules() {
    let now = JAN1_2024;
    let w = DEFAULT_WINDOW_SECS;
    assert!(is_emergency(None, Priority::Urgent, now, w));
    assert!(!is_emergency(None, Priority::High, now, w));
    assert!(is_emergency(Some(Due::at_instant(now)), Priority::Low, now, w));
    assert!(is_emergency(Some(Due::at_instant(now + w)), Priority::Low, now, w));
    assert!(!is_emergency(Some(Due::at_instant(now + w + 1)), Priority::Low, now, w));
    assert!(!is_emergency(Some(Due::at_instant(now - 1)), Priority::Low, now, w));
    let day = Due::date_only(CivilDate { year: 2024, month: 1, day: 1 }, 0);
    assert!(!is_emergency(Some(day), Priority::Normal, now, w));
}

#[test]
fn emergency_is_repeatable() {
    let due = Some(Due::at_instant(JAN1_2024 + 100));
    let first = is_emergency(due, Priority::Normal, JAN1_2024, 3600);
    for _ in 0..5 {
        assert_eq!(is_emergency(due, Priority::Normal, JAN1_2024, 3600), first);
    }
    assert!(first);
}

#[test]
fn sort_order_rules() {
    let t = JAN1_2024;
    let items = vec![
        item("z", None, Priority::Low, false),
        item("c", Some(Due::at_instant(t + 10)), Priority::Low, false),
        item("b", Some(Due::at_instant(t)), Priority::Low, false),
        item("a", Some(Due::at_instant(t)), Priority::Low, false),
        item("d", Some(Due::at_instant(t)), Priority::High, false),
        item("y", None, Priority::Urgent, false),
    ];
    let sorted = sort_schedule(items);
    assert_eq!(ids(&sorted), vec!["d", "a", "b", "c", "y", "z"]);
    assert!(sorted[0].sorts_before(&sorted[1]));
    assert!(!sorted[1].sorts_before(&sorted[0]));
}

#[test]
fn sorting_is_idempotent() {
    let t = JAN1_2024;
    let items = vec![
        item("b2", Some(Due::at_instant(t + 5)), Priority::Normal, false),
        item("a1", None, Priority::Normal, false),
        item("b1", Some(Due::at_instant(t + 5)), Priority::Normal, false),
    ];
    let once = sort_schedule(items);
    let once_ids = ids(&once);
    let twice = sort_schedule(once);
    assert_eq!(ids(&twice), once_ids);
    assert_eq!(once_ids, vec!["b1", "b2", "a1"]);
}

#[test]
fn order_is_total_on_distinct_ids() {
    let a = item("a", Some(Due::at_instant(5)), Priority::Normal, false);
    let b = item("ab", Some(Due::at_instant(5)), Priority::Normal, false);
    assert!(a.sorts_before(&b) != b.sorts_before(&a));
    assert!(!a.sorts_before(&a));
}

#[test]
fn completed_items_are_dropped() {
    let reports = vec![
        ok_report("one", vec![item("a", None, Priority::Low, true), item("b", None, Priority::Low, false)]),
        ok_report("two", vec![item("c", None, Priority::Low, true)]),
    ];
    let s = Aggregator::new().merge(reports, JAN1_2024).unwrap();
    assert_eq!(s.entries.len(), 1);
    assert_eq!(s.entries[0].item.id, "b");
    assert!(s.entries.iter().all(|e| !e.item.completed));
}

#[test]
fn best_effort_keeps_the_other_sources() {
    let t = JAN1_2024;
    let reports = vec![
        ok_report("alpha", vec![item("alpha:2", Some(Due::at_instant(t + 7200)), Priority::Low, false)]),
        failed_report("beta"),
        ok_report("gamma", vec![
            item("gamma:1", Some(Due::at_instant(t + 3600)), Priority::Low, false),
            item("gamma:3", None, Priority::Low, false),
        ]),
    ];
    let s = Aggregator::new().merge(reports, t).unwrap();
    let got: Vec<String> = s.entries.iter().map(|e| e.item.id.clone()).collect();
    assert_eq!(got, vec!["gamma:1", "alpha:2", "gamma:3"]);
    assert_eq!(s.failures.len(), 1);
    assert_eq!(s.failures[0].source, "beta");
    assert!(matches!(s.failures[0].error, SourceError::SourceUnavailable { .. }));
}

#[test]
fn strict_fails_on_any_source() {
    let reports = vec![
        ok_report("alpha", vec![item("alpha:1", None, Priority::Low, false)]),
        SourceReport {
            source: "beta".to_string(),
            outcome: Err(SourceError::NotFound { collection: "Inbox".to_string() }),
        },
        failed_report("gamma"),
    ];
    let r = Aggregator::new().with_policy(Policy::Strict).merge(reports, JAN1_2024);
    let err = r.unwrap_err();
    assert_eq!(err.source, "beta");
    match err.error {
        SourceError::NotFound { collection } => assert_eq!(collection, "Inbox"),
        other => panic!("unexpected error {:?}", other),
    }
}

#[test]
fn strict_succeeds_without_failures() {
    let reports = vec![ok_report("alpha", vec![item("alpha:1", None, Priority::Low, false)])];
    let s = Aggregator::new().with_policy(Policy::Strict).merge(reports, JAN1_2024).unwrap();
    assert_eq!(s.entries.len(), 1);
    assert!(s.failures.is_empty());
}

#[test]
fn two_source_scenario() {
    let nine = JAN1_2024 + 9 * 3600;
    let eight = JAN1_2024 + 8 * 3600;
    let reports = vec![
        ok_report("A", vec![item("a1", Some(Due::at_instant(nine)), Priority::Normal, false)]),
        ok_report("B", vec![item("b1", None, Priority::Urgent, false)]),
    ];
    let agg = Aggregator::new().with_window(24 * 3600);
    let s = agg.merge(reports, eight).unwrap();
    assert_eq!(s.entries.len(), 2);
    assert_eq!(s.entries[0].item.id, "a1");
    assert!(s.entries[0].emergency);
    assert_eq!(s.entries[1].item.id, "b1");
    assert!(s.entries[1].emergency);
}

#[test]
fn classify_keeps_order() {
    let items = vec![
        item("x", None, Priority::Low, false),
        item("y", None, Priority::Urgent, false),
    ];
    let e = classify(items, 0, 10);
    assert_eq!(e[0].item.id, "x");
    assert!(!e[0].emergency);
    assert!(e[1].emergency);
}

#[test]
fn text_helpers() {
    assert!(same_text("abc", "abc"));
    assert!(!same_text("abc", "abd"));
    assert!(!same_text("abc", "ab"));
    assert_eq!(decimal_text(0), "0");
    assert_eq!(decimal_text(1234), "1234");
    assert_eq!(decimal_text(usize::MAX), usize::MAX.to_string());
}

#[test]
fn client_state() {
    let mut c = TodoistRestClient::new("SECRET-REDACTED".to_string());
    assert_eq!(c.authorization(), "Bearer SECRET-REDACTED");
    assert!(c.needs_projects());
    c.store_projects(vec![project(7, "Work"), project(9, "Home"), project(11, "Work")]);
    assert!(!c.needs_projects());
    assert_eq!(c.cached_projects().len(), 3);
    assert_eq!(c.resolve_project("Work").unwrap(), 7);
    assert_eq!(c.resolve_project("Home").unwrap(), 9);
    match c.resolve_project("Garden") {
        Err(SourceError::NotFound { collection }) => assert_eq!(collection, "Garden"),
        other => panic!("unexpected {:?}", other),
    }
}

#[test]
fn project_lookup_and_task_filter() {
    let projects = vec![project(1, "Inbox"), project(2, "Work")];
    assert_eq!(find_project(&projects, "Work"), Some(2));
    assert_eq!(find_project(&projects, "work"), None);
    let tasks = vec![task(10, 2, 1, None), task(11, 1, 1, None), task(12, 2, 1, None)];
    let kept = select_tasks(tasks, 2);
    let kept_ids: Vec<usize> = kept.iter().map(|t| t.id).collect();
    assert_eq!(kept_ids, vec![10, 12]);
}

#[test]
fn task_becomes_item() {
    let t = task(42, 2, 4, Some(date_only("2024-01-01")));
    let it = task_to_item(t, 60).unwrap();
    assert_eq!(it.id, "todoist:42");
    assert_eq!(it.title, "task 42");
    assert_eq!(it.priority, Priority::Urgent);
    assert_eq!(it.source, "todoist");
    assert_eq!(it.url.as_deref(), Some("https://todoist.com/showTask?id=42"));
    assert_eq!(it.due, Some(Due { timestamp: JAN1_2024 - 3600, has_time: false }));
    let timed_task = task(43, 2, 9, Some(timed("2024-01-01", "2024-01-01T09:00:00Z")));
    let it = task_to_item(timed_task, 60).unwrap();
    assert_eq!(it.due, Some(Due { timestamp: JAN1_2024 + 9 * 3600, has_time: true }));
    assert_eq!(it.priority, Priority::Normal);
    let undated = task_to_item(task(44, 2, 1, None), 0).unwrap();
    assert_eq!(undated.due, None);
}

#[test]
fn unreadable_due_is_a_mapping_error() {
    let t = task(5, 2, 1, Some(date_only("tomorrow")));
    assert_eq!(task_to_item(t, 0).unwrap_err(), MappingError { task_id: 5 });
    assert_eq!(task_due(&timed("2024-01-01", "09:00"), 0), None);
}

#[test]
fn mapping_skips_unreadable_tasks() {
    let tasks = vec![
        task(1, 2, 1, Some(date_only("2024-01-01"))),
        task(2, 2, 1, Some(date_only("2024-99-01"))),
        task(3, 2, 3, None),
    ];
    let items = tasks_to_schedule(tasks, 0);
    assert_eq!(ids(&items), vec!["todoist:1", "todoist:3"]);
}
