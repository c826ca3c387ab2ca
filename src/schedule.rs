use vstd::prelude::*;
use crate::priority::{Priority, rank};
use crate::timestamp::Due;

verus! {

broadcast use vstd::seq_lib::group_to_multiset_ensures;

/// One task or event, in the form shared by all providers.
#[derive(Clone, Debug)]
pub struct ScheduleItem {
    /// Provider tag and native id, unique across providers.
    pub id: String,
    pub title: String,
    pub due: Option<Due>,
    pub priority: Priority,
    pub completed: bool,
    /// The provider the item came from.
    pub source: String,
    pub url: Option<String>,
}

/// Lexicographic order of texts by code point; a proper prefix comes first.
pub open spec fn text_lt(a: Seq<char>, b: Seq<char>) -> bool
    decreases a.len(),
{
    if b.len() == 0 {
        false
    } else if a.len() == 0 {
        true
    } else if a[0] != b[0] {
        (a[0] as u32) < (b[0] as u32)
    } else {
        text_lt(a.drop_first(), b.drop_first())
    }
}

/// Among items due at the same moment (or both undated): higher priority
/// first, then by id.
pub open spec fn tie_precedes(a: ScheduleItem, b: ScheduleItem) -> bool {
    rank(a.priority) > rank(b.priority) || (rank(a.priority) == rank(b.priority) && text_lt(
        a.id@,
        b.id@,
    ))
}

/// The schedule order: earlier due first, undated items after all dated ones,
/// ties broken by `tie_precedes`.
pub open spec fn precedes(a: ScheduleItem, b: ScheduleItem) -> bool {
    match (a.due, b.due) {
        (Some(x), Some(y)) => x.timestamp < y.timestamp || (x.timestamp == y.timestamp
            && tie_precedes(a, b)),
        (Some(_), None) => true,
        (None, Some(_)) => false,
        (None, None) => tie_precedes(a, b),
    }
}

/// The fields the order looks at: due instant (or none), priority and id.
pub open spec fn same_place(a: ScheduleItem, b: ScheduleItem) -> bool {
    &&& (a.due is Some <==> b.due is Some)
    &&& (a.due is Some ==> a.due->0.timestamp == b.due->0.timestamp)
    &&& a.priority == b.priority
    &&& a.id@ == b.id@
}

pub open spec fn sorted(s: Seq<ScheduleItem>) -> bool {
    forall|i: int, j: int| 0 <= i < j < s.len() ==> !precedes(#[trigger] s[j], #[trigger] s[i])
}

pub proof fn lemma_text_lt_trichotomy(a: Seq<char>, b: Seq<char>)
    ensures
        text_lt(a, b) || text_lt(b, a) || a == b,
        !(text_lt(a, b) && text_lt(b, a)),
        text_lt(a, b) ==> a != b,
    decreases a.len(),
{
    if a.len() == 0 && b.len() == 0 {
        assert(a =~= b);
    } else if a.len() > 0 && b.len() > 0 && a[0] != b[0] {
        vstd::utf8::char_u32_cast(a[0], a[0] as u32);
        vstd::utf8::char_u32_cast(b[0], b[0] as u32);
    } else if a.len() > 0 && b.len() > 0 && a[0] == b[0] {
        lemma_text_lt_trichotomy(a.drop_first(), b.drop_first());
        if a.drop_first() == b.drop_first() {
            assert(a =~= seq![a[0]] + a.drop_first());
            assert(b =~= seq![b[0]] + b.drop_first());
        }
    }
}

pub proof fn lemma_text_lt_transitive(a: Seq<char>, b: Seq<char>, c: Seq<char>)
    requires
        text_lt(a, b),
        text_lt(b, c),
    ensures
        text_lt(a, c),
    decreases a.len(),
{
    if a.len() > 0 && a[0] == b[0] && b[0] == c[0] {
        lemma_text_lt_transitive(a.drop_first(), b.drop_first(), c.drop_first());
    }
}

/// Any two items are ordered one way or the other, or stand at the same
/// place; exactly one of the three holds. So in a schedule whose ids are
/// distinct, every two items are ordered.
pub proof fn lemma_order_total(a: ScheduleItem, b: ScheduleItem)
    ensures
        precedes(a, b) || precedes(b, a) || same_place(a, b),
        !(precedes(a, b) && precedes(b, a)),
        !(precedes(a, b) && same_place(a, b)),
        !(precedes(b, a) && same_place(a, b)),
        a.id@ != b.id@ ==> (precedes(a, b) || precedes(b, a)),
{
    lemma_text_lt_trichotomy(a.id@, b.id@);
}

/// In a sorted schedule, an item with a different id from a later one
/// strictly precedes it, and never the other way round.
pub proof fn lemma_sorted_distinct_ids_strict(s: Seq<ScheduleItem>, i: int, j: int)
    requires
        sorted(s),
        0 <= i < j < s.len(),
        s[i].id@ != s[j].id@,
    ensures
        precedes(s[i], s[j]),
        !precedes(s[j], s[i]),
{
    lemma_order_total(s[i], s[j]);
}

pub proof fn lemma_order_transitive(a: ScheduleItem, b: ScheduleItem, c: ScheduleItem)
    requires
        precedes(a, b),
        precedes(b, c),
    ensures
        precedes(a, c),
{
    if tie_precedes(a, b) && tie_precedes(b, c) && rank(a.priority) == rank(b.priority) && rank(
        b.priority,
    ) == rank(c.priority) {
        lemma_text_lt_transitive(a.id@, b.id@, c.id@);
    }
}

proof fn lemma_insert_keeps_sorted(s: Seq<ScheduleItem>, p: int, x: ScheduleItem)
    requires
        sorted(s),
        0 <= p <= s.len(),
        forall|k: int| 0 <= k < p ==> !precedes(x, #[trigger] s[k]),
        p < s.len() ==> precedes(x, s[p]),
    ensures
        sorted(s.insert(p, x)),
{
    let t = s.insert(p, x);
    assert forall|i: int, j: int| 0 <= i < j < t.len() implies !precedes(
        #[trigger] t[j],
        #[trigger] t[i],
    ) by {
        if i == p {
            if precedes(t[j], x) {
                lemma_order_transitive(t[j], x, s[p]);
                lemma_order_total(s[p], s[p]);
                assert(t[j] == s[j - 1]);
                if j - 1 > p {
                    assert(!precedes(s[j - 1], s[p]));
                }
            }
        } else if j == p {
            assert(t[i] == s[i]);
        } else if j < p {
            assert(t[i] == s[i] && t[j] == s[j]);
        } else if i < p {
            assert(t[i] == s[i] && t[j] == s[j - 1]);
        } else {
            assert(t[i] == s[i - 1] && t[j] == s[j - 1]);
        }
    }
}

/// Whether `a` comes before `b` in text order.
fn text_lt_exec(a: &str, b: &str) -> (r: bool)
    ensures
        r == text_lt(a@, b@),
{
    let la = a.unicode_len();
    let lb = b.unicode_len();
    let mut i: usize = 0;
    assert(a@.skip(0) =~= a@ && b@.skip(0) =~= b@);
    while i < la && i < lb
        invariant
            la == a@.len(),
            lb == b@.len(),
            i <= la,
            i <= lb,
            text_lt(a@, b@) == text_lt(a@.skip(i as int), b@.skip(i as int)),
        decreases la - i,
    {
        let ca = a.get_char(i);
        let cb = b.get_char(i);
        if ca != cb {
            assert(a@.skip(i as int)[0] == ca && b@.skip(i as int)[0] == cb);
            return (ca as u32) < (cb as u32);
        }
        assert(a@.skip(i as int).drop_first() =~= a@.skip(i + 1));
        assert(b@.skip(i as int).drop_first() =~= b@.skip(i + 1));
        i = i + 1;
    }
    i == la && i < lb
}

impl ScheduleItem {
    /// Whether this item comes strictly before `other` in a schedule.
    pub fn sorts_before(&self, other: &ScheduleItem) -> (r: bool)
        ensures
            r == precedes(*self, *other),
    {
        let tie = {
            let ra = self.priority.rank();
            let rb = other.priority.rank();
            ra > rb || (ra == rb && text_lt_exec(self.id.as_str(), other.id.as_str()))
        };
        match (&self.due, &other.due) {
            (Some(x), Some(y)) => x.timestamp < y.timestamp || (x.timestamp == y.timestamp && tie),
            (Some(_), None) => true,
            (None, Some(_)) => false,
            (None, None) => tie,
        }
    }
}

/// Orders items by the schedule order. The sort is stable, so a sequence
/// that is already in order comes back unchanged.
pub fn sort_schedule(items: Vec<ScheduleItem>) -> (r: Vec<ScheduleItem>)
    ensures
        r@.to_multiset() == items@.to_multiset(),
        sorted(r@),
        sorted(items@) ==> r@ == items@,
{
    let ghost orig = items@;
    let n = items.len();
    let mut rest = items;
    let mut out: Vec<ScheduleItem> = Vec::new();
    let mut i: usize = 0;
    while i < n
        invariant
            n == orig.len(),
            i <= n,
            rest@ == orig.subrange(i as int, n as int),
            out@.to_multiset() == orig.subrange(0, i as int).to_multiset(),
            sorted(out@),
            out@.len() == i,
            sorted(orig) ==> out@ == orig.subrange(0, i as int),
        decreases n - i,
    {
        let x = rest.remove(0);
        assert(x == orig[i as int]);
        let mut p: usize = 0;
        while p < out.len() && !x.sorts_before(&out[p])
            invariant
                p <= out@.len(),
                forall|k: int| 0 <= k < p ==> !precedes(x, #[trigger] out@[k]),
            decreases out@.len() - p,
        {
            p = p + 1;
        }
        proof {
            lemma_insert_keeps_sorted(out@, p as int, x);
            assert(orig.subrange(0, i + 1) =~= orig.subrange(0, i as int).push(x));
            if sorted(orig) && p < out@.len() {
                assert(out@[p as int] == orig[p as int]);
                assert(!precedes(orig[i as int], orig[p as int]));
            }
            if p == out@.len() {
                assert(out@.insert(p as int, x) =~= out@.push(x));
            }
        }
        out.insert(p, x);
        i = i + 1;
    }
    proof {
        assert(orig.subrange(0, n as int) =~= orig);
    }
    out
}

} // verus!
