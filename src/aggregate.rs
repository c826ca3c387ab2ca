use vstd::prelude::*;
use crate::priority::Priority;
use crate::schedule::{ScheduleItem, sorted, sort_schedule};
use crate::timestamp::Due;

verus! {

broadcast use vstd::seq_lib::group_to_multiset_ensures;

/// The default lookahead for urgency: 24 hours, in seconds.
pub const DEFAULT_WINDOW_SECS: i64 = 86400;

/// Why a source could not deliver its items.
#[derive(Clone, Debug)]
pub enum SourceError {
    /// The named collection does not exist at the provider.
    NotFound { collection: String },
    /// The provider could not be reached, or refused the credentials.
    SourceUnavailable { reason: String },
}

/// What one source delivered: its items, or the reason it failed.
#[derive(Debug)]
pub struct SourceReport {
    pub source: String,
    pub outcome: Result<Vec<ScheduleItem>, SourceError>,
}

/// A source that failed, with its error.
#[derive(Clone, Debug)]
pub struct SourceFailure {
    pub source: String,
    pub error: SourceError,
}

/// What to do when a source fails.
#[derive(Clone, Copy, Debug, PartialEq, Eq, Structural)]
pub enum Policy {
    /// Any failure aborts the aggregation, with no partial output.
    Strict,
    /// Failures are recorded and the other sources are used.
    BestEffort,
}

/// An item of the schedule and whether it is time-critical.
#[derive(Clone, Debug)]
pub struct ScheduledEntry {
    pub item: ScheduleItem,
    pub emergency: bool,
}

/// The merged schedule: ordered entries, and the sources that failed.
#[derive(Clone, Debug)]
pub struct Schedule {
    pub entries: Vec<ScheduledEntry>,
    pub failures: Vec<SourceFailure>,
}

/// Merges the outputs of several sources.
#[derive(Clone, Copy, Debug)]
pub struct Aggregator {
    pub policy: Policy,
    /// Lookahead for urgency, in seconds.
    pub window_secs: i64,
}

/// An item is an emergency when it is `Urgent`, or when it has a time of day
/// that falls from `now` to `now + window` inclusive.
pub open spec fn emergency(due: Option<Due>, priority: Priority, now: int, window: int) -> bool {
    priority == Priority::Urgent || (due is Some && due->0.has_time && now <= due->0.timestamp
        && due->0.timestamp <= now + window)
}

/// Urgency depends on due point, priority, current time and window alone:
/// the same four values always give the same verdict.
pub proof fn lemma_emergency_deterministic(
    due1: Option<Due>,
    priority1: Priority,
    now1: int,
    window1: int,
    due2: Option<Due>,
    priority2: Priority,
    now2: int,
    window2: int,
)
    requires
        due1 == due2,
        priority1 == priority2,
        now1 == now2,
        window1 == window2,
    ensures
        emergency(due1, priority1, now1, window1) == emergency(due2, priority2, now2, window2),
{
}

/// The items of `s` that are not completed, in order.
pub open spec fn open_items(s: Seq<ScheduleItem>) -> Seq<ScheduleItem>
    decreases s.len(),
{
    if s.len() == 0 {
        Seq::empty()
    } else if s.last().completed {
        open_items(s.drop_last())
    } else {
        open_items(s.drop_last()).push(s.last())
    }
}

/// What one report contributes: its open items, or nothing when it failed.
pub open spec fn contributed(r: SourceReport) -> Seq<ScheduleItem> {
    match r.outcome {
        Ok(v) => open_items(v@),
        Err(_) => Seq::empty(),
    }
}

/// The open items of all sources that succeeded, source after source.
pub open spec fn gathered(reports: Seq<SourceReport>) -> Seq<ScheduleItem>
    decreases reports.len(),
{
    if reports.len() == 0 {
        Seq::empty()
    } else {
        gathered(reports.drop_last()) + contributed(reports.last())
    }
}

/// With three sources of which exactly one fails, what is merged is the
/// open items of the other two, in source order, and the one failure
/// recorded names the failed source with its error.
pub proof fn lemma_one_of_three_fails(s: Seq<SourceReport>, f: int)
    requires
        s.len() == 3,
        0 <= f < 3,
        s[f].outcome is Err,
        forall|k: int| 0 <= k < 3 && k != f ==> (#[trigger] s[k]).outcome is Ok,
    ensures
        contributed(s[f]) == Seq::<ScheduleItem>::empty(),
        gathered(s) == contributed(s[0]) + contributed(s[1]) + contributed(s[2]),
        failures_of(s) == seq![SourceFailure { source: s[f].source, error: s[f].outcome->Err_0 }],
{
    let s2 = s.drop_last();
    let s1 = s2.drop_last();
    let s0 = s1.drop_last();
    assert(s0.len() == 0);
    assert(s1.last() == s[0] && s2.last() == s[1] && s.last() == s[2]);
    assert(gathered(s0) =~= Seq::<ScheduleItem>::empty());
    assert(gathered(s1) =~= contributed(s[0]));
    assert(gathered(s2) =~= contributed(s[0]) + contributed(s[1]));
    assert(gathered(s) =~= contributed(s[0]) + contributed(s[1]) + contributed(s[2]));
    assert(failures_of(s0) =~= Seq::<SourceFailure>::empty());
    let one = seq![SourceFailure { source: s[f].source, error: s[f].outcome->Err_0 }];
    if f == 0 {
        assert(s[1].outcome is Ok && s[2].outcome is Ok);
        assert(failures_of(s1) =~= one);
        assert(failures_of(s2) =~= one);
    } else if f == 1 {
        assert(s[0].outcome is Ok && s[2].outcome is Ok);
        assert(failures_of(s1) =~= Seq::<SourceFailure>::empty());
        assert(failures_of(s2) =~= one);
    } else {
        assert(s[0].outcome is Ok && s[1].outcome is Ok);
        assert(failures_of(s1) =~= Seq::<SourceFailure>::empty());
        assert(failures_of(s2) =~= Seq::<SourceFailure>::empty());
    }
    assert(failures_of(s) =~= one);
}

/// The failed sources with their errors, in order.
pub open spec fn failures_of(reports: Seq<SourceReport>) -> Seq<SourceFailure>
    decreases reports.len(),
{
    if reports.len() == 0 {
        Seq::empty()
    } else {
        match reports.last().outcome {
            Ok(_) => failures_of(reports.drop_last()),
            Err(e) => failures_of(reports.drop_last()).push(
                SourceFailure { source: reports.last().source, error: e },
            ),
        }
    }
}

pub open spec fn entry_items(s: Seq<ScheduledEntry>) -> Seq<ScheduleItem> {
    Seq::new(s.len(), |k: int| s[k].item)
}

pub proof fn lemma_open_items_are_open(s: Seq<ScheduleItem>)
    ensures
        forall|k: int| 0 <= k < open_items(s).len() ==> !(#[trigger] open_items(s)[k]).completed,
    decreases s.len(),
{
    if s.len() > 0 {
        lemma_open_items_are_open(s.drop_last());
    }
}

pub proof fn lemma_gathered_are_open(reports: Seq<SourceReport>)
    ensures
        forall|k: int| 0 <= k < gathered(reports).len() ==> !(#[trigger] gathered(reports)[k]).completed,
    decreases reports.len(),
{
    if reports.len() > 0 {
        lemma_gathered_are_open(reports.drop_last());
        if let Ok(v) = reports.last().outcome {
            lemma_open_items_are_open(v@);
        }
        let a = gathered(reports.drop_last());
        let b = gathered(reports);
        assert forall|k: int| 0 <= k < b.len() implies !(#[trigger] b[k]).completed by {
            if k < a.len() {
                assert(b[k] == a[k]);
            }
        }
    }
}

proof fn lemma_failures_split(s: Seq<SourceReport>, t: Seq<SourceReport>)
    ensures
        failures_of(s + t) == failures_of(s) + failures_of(t),
    decreases t.len(),
{
    if t.len() == 0 {
        assert(s + t =~= s);
        assert(failures_of(s) + failures_of(t) =~= failures_of(s));
    } else {
        lemma_failures_split(s, t.drop_last());
        assert((s + t).drop_last() =~= s + t.drop_last());
        assert((s + t).last() == t.last());
        match t.last().outcome {
            Ok(_) => {},
            Err(e) => {
                assert(failures_of(s + t) =~= failures_of(s) + failures_of(t));
            },
        }
    }
}

/// Whether an item is time-critical: `Urgent`, or timed within the window
/// that starts at `now`.
pub fn is_emergency(due: Option<Due>, priority: Priority, now: i64, window: i64) -> (r: bool)
    ensures
        r == emergency(due, priority, now as int, window as int),
{
    if priority == Priority::Urgent {
        return true;
    }
    match due {
        Some(d) => d.has_time && now <= d.timestamp && (d.timestamp as i128 - now as i128)
            <= window as i128,
        None => false,
    }
}

/// Appends the items of `items` that are not completed.
fn append_open_items(acc: &mut Vec<ScheduleItem>, items: Vec<ScheduleItem>)
    ensures
        final(acc)@ == old(acc)@ + open_items(items@),
{
    let ghost start = acc@;
    let ghost orig = items@;
    let n = items.len();
    let mut rest = items;
    let mut j: usize = 0;
    while j < n
        invariant
            n == orig.len(),
            j <= n,
            rest@ == orig.subrange(j as int, n as int),
            acc@ == start + open_items(orig.subrange(0, j as int)),
        decreases n - j,
    {
        let it = rest.remove(0);
        proof {
            assert(orig.subrange(0, j + 1).drop_last() =~= orig.subrange(0, j as int));
            assert(orig.subrange(0, j + 1).last() == it);
        }
        if !it.completed {
            acc.push(it);
            proof {
                assert(acc@ =~= start + open_items(orig.subrange(0, j + 1)));
            }
        }
        j = j + 1;
    }
    proof {
        assert(orig.subrange(0, n as int) =~= orig);
    }
}

/// Pairs each item with its urgency, keeping the order.
pub fn classify(items: Vec<ScheduleItem>, now: i64, window: i64) -> (r: Vec<ScheduledEntry>)
    ensures
        entry_items(r@) == items@,
        forall|k: int|
            0 <= k < r@.len() ==> (#[trigger] r@[k]).emergency == emergency(
                r@[k].item.due,
                r@[k].item.priority,
                now as int,
                window as int,
            ),
{
    let ghost orig = items@;
    let n = items.len();
    let mut rest = items;
    let mut out: Vec<ScheduledEntry> = Vec::new();
    let mut j: usize = 0;
    while j < n
        invariant
            n == orig.len(),
            j <= n,
            rest@ == orig.subrange(j as int, n as int),
            entry_items(out@) == orig.subrange(0, j as int),
            forall|k: int|
                0 <= k < out@.len() ==> (#[trigger] out@[k]).emergency == emergency(
                    out@[k].item.due,
                    out@[k].item.priority,
                    now as int,
                    window as int,
                ),
        decreases n - j,
    {
        let it = rest.remove(0);
        assert(it == orig[j as int]);
        let e = is_emergency(it.due, it.priority, now, window);
        let ghost before = out@;
        out.push(ScheduledEntry { item: it, emergency: e });
        proof {
            assert(out@ == before.push(ScheduledEntry { item: it, emergency: e }));
            assert(entry_items(before).len() == before.len());
            assert(before.len() == j);
            assert(entry_items(out@).len() == j + 1);
            assert forall|k: int| 0 <= k < j + 1 implies #[trigger] entry_items(out@)[k] == orig.subrange(0, j + 1)[k] by {
                if k < j {
                    assert(entry_items(before)[k] == orig.subrange(0, j as int)[k]);
                }
            }
            assert(entry_items(out@) =~= orig.subrange(0, j + 1));
        }
        j = j + 1;
    }
    proof {
        assert(orig.subrange(0, n as int) =~= orig);
    }
    out
}

impl Aggregator {
    /// Best effort, with a lookahead of 24 hours.
    pub fn new() -> (r: Aggregator)
        ensures
            r.policy == Policy::BestEffort,
            r.window_secs == DEFAULT_WINDOW_SECS,
    {
        Aggregator { policy: Policy::BestEffort, window_secs: DEFAULT_WINDOW_SECS }
    }

    pub fn with_policy(self, policy: Policy) -> (r: Aggregator)
        ensures
            r.policy == policy,
            r.window_secs == self.window_secs,
    {
        Aggregator { policy, window_secs: self.window_secs }
    }

    pub fn with_window(self, window_secs: i64) -> (r: Aggregator)
        ensures
            r.policy == self.policy,
            r.window_secs == window_secs,
    {
        Aggregator { policy: self.policy, window_secs }
    }

    /// Merges what the sources delivered into one schedule: completed items
    /// are dropped, the rest are ordered and classified at time `now`.
    /// Under `Strict` the first failed source is the error; under
    /// `BestEffort` failures are listed beside the schedule.
    pub fn merge(&self, reports: Vec<SourceReport>, now: i64) -> (r: Result<Schedule, SourceFailure>)
        ensures
            self.policy == Policy::BestEffort ==> r is Ok,
            self.policy == Policy::Strict ==> (r is Err <==> failures_of(reports@).len() > 0),
            r is Err ==> r->Err_0 == failures_of(reports@)[0],
            r is Ok ==> {
                let s = r->Ok_0;
                &&& entry_items(s.entries@).to_multiset() == gathered(reports@).to_multiset()
                &&& sorted(entry_items(s.entries@))
                &&& s.failures@ == failures_of(reports@)
                &&& forall|k: int|
                    0 <= k < s.entries@.len() ==> !(#[trigger] s.entries@[k]).item.completed
                &&& forall|k: int|
                    0 <= k < s.entries@.len() ==> (#[trigger] s.entries@[k]).emergency
                        == emergency(
                        s.entries@[k].item.due,
                        s.entries@[k].item.priority,
                        now as int,
                        self.window_secs as int,
                    )
            },
    {
        let ghost orig = reports@;
        let n = reports.len();
        let mut rest = reports;
        let mut items: Vec<ScheduleItem> = Vec::new();
        let mut failures: Vec<SourceFailure> = Vec::new();
        let mut i: usize = 0;
        while i < n
            invariant
                orig == reports@,
                n == orig.len(),
                i <= n,
                rest@ == orig.subrange(i as int, n as int),
                items@ == gathered(orig.subrange(0, i as int)),
                failures@ == failures_of(orig.subrange(0, i as int)),
                self.policy == Policy::Strict ==> failures@.len() == 0,
            decreases n - i,
        {
            let report = rest.remove(0);
            proof {
                assert(report == orig[i as int]);
                assert(orig.subrange(0, i + 1).drop_last() =~= orig.subrange(0, i as int));
                assert(orig.subrange(0, i + 1).last() == report);
            }
            let SourceReport { source, outcome } = report;
            match outcome {
                Ok(found) => {
                    append_open_items(&mut items, found);
                },
                Err(error) => {
                    let failure = SourceFailure { source, error };
                    if self.policy == Policy::Strict {
                        proof {
                            let pre = orig.subrange(0, i + 1);
                            let post = orig.subrange(i + 1, n as int);
                            lemma_failures_split(pre, post);
                            assert(pre + post =~= orig);
                            assert(pre.last().outcome == Err::<Vec<ScheduleItem>, SourceError>(failure.error));
                            assert(pre.last().source == failure.source);
                            assert(failures_of(pre.drop_last()).len() == 0);
                            assert(failures_of(pre) =~= seq![failure]);
                            assert(failures_of(orig) =~= seq![failure] + failures_of(post));
                        }
                        return Err(failure);
                    }
                    failures.push(failure);
                },
            }
            i = i + 1;
        }
        proof {
            assert(orig.subrange(0, n as int) =~= orig);
            lemma_gathered_are_open(orig);
        }
        let ordered = sort_schedule(items);
        let ghost ordered_view = ordered@;
        let entries = classify(ordered, now, self.window_secs);
        proof {
            assert forall|k: int| 0 <= k < entries@.len() implies !(
            #[trigger] entries@[k]).item.completed by {
                assert(entry_items(entries@)[k] == entries@[k].item);
                let x = ordered_view[k];
                assert(ordered_view.to_multiset().count(x) > 0);
                assert(gathered(orig).contains(x));
            }
        }
        Ok(Schedule { entries, failures })
    }
}

} // verus!
