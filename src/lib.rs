//! Aggregation of tasks and events from several scheduling providers into
//! one ordered schedule, with an urgency classification of each entry.

pub mod priority;
pub mod timestamp;
pub mod datetext;
pub mod schedule;
pub mod aggregate;
pub mod text;
pub mod todoist_client;
pub mod todoist_scheduler;
