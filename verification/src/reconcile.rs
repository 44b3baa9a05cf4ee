// Reconciliation: bringing the visibility store in line with the names
// that a trace mentions.

use crate::name_order::{
    compare_names, lemma_name_asymmetric, lemma_name_total, lemma_name_transitive, name_precedes,
    NameOrder,
};
use crate::trace::{
    events_view, lemma_entered_name_not_empty, lines, parse_trace, trace_events, TraceEvent,
    TraceLine,
};
use crate::visibility_info::{
    entries_view, lemma_sorted_shows, mentions, shows, sorted_by_name, VisibilityEntry,
    VisibilityInfo,
};
use vstd::prelude::*;
use vstd::string::*;

verus! {

/// Whether the trace enters the function `name`.
pub open spec fn enters(events: Seq<TraceEvent>, name: Seq<char>) -> bool {
    events.contains(TraceEvent::Enter(name))
}

/// Whether `result` is the reconciliation of `old` with a trace: it holds
/// one entry for each function that the trace enters and no other, in the
/// order of the names, each with the flag that `old` gives the name.
pub open spec fn is_reconciled(
    result: Seq<(Seq<char>, bool)>,
    old: Seq<(Seq<char>, bool)>,
    events: Seq<TraceEvent>,
) -> bool {
    &&& sorted_by_name(result)
    &&& forall|name: Seq<char>| #[trigger] mentions(result, name) <==> enters(events, name)
    &&& forall|i: int|
        0 <= i < result.len() ==> (#[trigger] result[i]).1 == shows(old, result[i].0)
}

proof fn lemma_sorted_first_is_least(entries: Seq<(Seq<char>, bool)>, name: Seq<char>)
    requires
        sorted_by_name(entries),
        entries.len() > 0,
        mentions(entries, name),
    ensures
        name == entries[0].0 || name_precedes(entries[0].0, name),
{
    let i = choose|i: int| 0 <= i < entries.len() && (#[trigger] entries[i]).0 == name;
    if i > 0 {
        assert(name_precedes(entries[0].0, entries[i].0));
    }
}

proof fn lemma_mentions_tail(entries: Seq<(Seq<char>, bool)>, name: Seq<char>)
    requires
        sorted_by_name(entries),
        entries.len() > 0,
    ensures
        sorted_by_name(entries.drop_first()),
        mentions(entries.drop_first(), name) <==> mentions(entries, name) && name != entries[0].0,
{
    let tail = entries.drop_first();
    assert forall|i: int, j: int| 0 <= i < j < tail.len() implies name_precedes(
        (#[trigger] tail[i]).0,
        (#[trigger] tail[j]).0,
    ) by {
        assert(tail[i] == entries[i + 1]);
        assert(tail[j] == entries[j + 1]);
    }
    if mentions(tail, name) {
        let i = choose|i: int| 0 <= i < tail.len() && (#[trigger] tail[i]).0 == name;
        assert(entries[i + 1].0 == name);
        assert(name_precedes(entries[0].0, entries[i + 1].0));
        lemma_name_asymmetric(entries[0].0, name);
    }
    if mentions(entries, name) && name != entries[0].0 {
        let i = choose|i: int| 0 <= i < entries.len() && (#[trigger] entries[i]).0 == name;
        assert(tail[i - 1].0 == name);
    }
}

/// Two sorted sequences of entries that mention the same names, and give
/// each name the flag that one rule gives it, are the same sequence.
pub proof fn lemma_sorted_entries_unique(
    a: Seq<(Seq<char>, bool)>,
    b: Seq<(Seq<char>, bool)>,
    flag: spec_fn(Seq<char>) -> bool,
)
    requires
        sorted_by_name(a),
        sorted_by_name(b),
        forall|name: Seq<char>| #[trigger] mentions(a, name) <==> mentions(b, name),
        forall|i: int| 0 <= i < a.len() ==> (#[trigger] a[i]).1 == flag(a[i].0),
        forall|i: int| 0 <= i < b.len() ==> (#[trigger] b[i]).1 == flag(b[i].0),
    ensures
        a == b,
    decreases a.len(),
{
    if a.len() == 0 {
        if b.len() > 0 {
            assert(mentions(b, b[0].0));
            assert(mentions(a, b[0].0));
        }
        assert(a =~= b);
    } else {
        assert(mentions(a, a[0].0));
        assert(mentions(b, a[0].0));
        assert(mentions(b, b[0].0));
        assert(mentions(a, b[0].0));
        lemma_sorted_first_is_least(b, a[0].0);
        lemma_sorted_first_is_least(a, b[0].0);
        if a[0].0 != b[0].0 {
            lemma_name_asymmetric(a[0].0, b[0].0);
        }
        assert(a[0].1 == flag(a[0].0));
        assert(b[0].1 == flag(b[0].0));
        assert(a[0] == b[0]);
        let ta = a.drop_first();
        let tb = b.drop_first();
        assert forall|name: Seq<char>| #[trigger] mentions(ta, name) <==> mentions(tb, name) by {
            lemma_mentions_tail(a, name);
            lemma_mentions_tail(b, name);
        }
        lemma_mentions_tail(a, a[0].0);
        lemma_mentions_tail(b, b[0].0);
        assert forall|i: int| 0 <= i < ta.len() implies (#[trigger] ta[i]).1 == flag(ta[i].0) by {
            assert(ta[i] == a[i + 1]);
        }
        assert forall|i: int| 0 <= i < tb.len() implies (#[trigger] tb[i]).1 == flag(tb[i].0) by {
            assert(tb[i] == b[i + 1]);
        }
        lemma_sorted_entries_unique(ta, tb, flag);
        assert(a =~= seq![a[0]] + ta);
        assert(b =~= seq![b[0]] + tb);
    }
}

/// A store and a trace have one reconciliation only.
pub proof fn lemma_reconciliation_unique(
    a: Seq<(Seq<char>, bool)>,
    b: Seq<(Seq<char>, bool)>,
    old: Seq<(Seq<char>, bool)>,
    events: Seq<TraceEvent>,
)
    requires
        is_reconciled(a, old, events),
        is_reconciled(b, old, events),
    ensures
        a == b,
{
    assert forall|name: Seq<char>| #[trigger] mentions(a, name) <==> mentions(b, name) by {
        assert(mentions(a, name) <==> enters(events, name));
        assert(mentions(b, name) <==> enters(events, name));
    }
    lemma_sorted_entries_unique(a, b, |name: Seq<char>| shows(old, name));
}

/// Reconciliation keeps what is hidden: a function that the store hides and
/// the trace enters is hidden in the result.
pub proof fn lemma_reconcile_keeps_hidden(
    old: Seq<(Seq<char>, bool)>,
    trace: Seq<char>,
    result: Seq<(Seq<char>, bool)>,
    name: Seq<char>,
)
    requires
        is_reconciled(result, old, trace_events(trace)),
        old.contains((name, false)),
        enters(trace_events(trace), name),
    ensures
        result.contains((name, false)),
{
    assert(mentions(result, name));
    let i = choose|i: int| 0 <= i < result.len() && (#[trigger] result[i]).0 == name;
    assert(result[i].1 == shows(old, result[i].0));
    assert(result[i] == (name, false));
}

/// Reconciliation keeps what is shown: a function that the trace enters,
/// and of which the store holds shown entries only, is shown in the result.
pub proof fn lemma_reconcile_keeps_shown(
    old: Seq<(Seq<char>, bool)>,
    trace: Seq<char>,
    result: Seq<(Seq<char>, bool)>,
    name: Seq<char>,
)
    requires
        is_reconciled(result, old, trace_events(trace)),
        old.contains((name, true)),
        !old.contains((name, false)),
        enters(trace_events(trace), name),
    ensures
        result.contains((name, true)),
{
    assert(mentions(result, name));
    let i = choose|i: int| 0 <= i < result.len() && (#[trigger] result[i]).0 == name;
    assert(result[i].1 == shows(old, result[i].0));
    assert(result[i] == (name, true));
}

/// Reconciliation shows what is new: a function that the trace enters and
/// the store does not know is shown in the result.
pub proof fn lemma_reconcile_shows_new(
    old: Seq<(Seq<char>, bool)>,
    trace: Seq<char>,
    result: Seq<(Seq<char>, bool)>,
    name: Seq<char>,
)
    requires
        is_reconciled(result, old, trace_events(trace)),
        !mentions(old, name),
        enters(trace_events(trace), name),
    ensures
        result.contains((name, true)),
{
    assert(mentions(result, name));
    let i = choose|i: int| 0 <= i < result.len() && (#[trigger] result[i]).0 == name;
    assert(result[i].1 == shows(old, result[i].0));
    if old.contains((name, false)) {
        let j = choose|j: int| 0 <= j < old.len() && old[j] == (name, false);
        assert(old[j].0 == name);
    }
    assert(result[i] == (name, true));
}

/// Reconciliation drops what is stale: a function that the trace does not
/// enter has no entry in the result.
pub proof fn lemma_reconcile_drops_stale(
    old: Seq<(Seq<char>, bool)>,
    trace: Seq<char>,
    result: Seq<(Seq<char>, bool)>,
    name: Seq<char>,
)
    requires
        is_reconciled(result, old, trace_events(trace)),
        !enters(trace_events(trace), name),
    ensures
        !mentions(result, name),
        !result.contains((name, true)),
        !result.contains((name, false)),
{
    assert(mentions(result, name) <==> enters(trace_events(trace), name));
    if result.contains((name, true)) {
        let i = choose|i: int| 0 <= i < result.len() && result[i] == (name, true);
        assert(result[i].0 == name);
    }
    if result.contains((name, false)) {
        let i = choose|i: int| 0 <= i < result.len() && result[i] == (name, false);
        assert(result[i].0 == name);
    }
}

/// Reconciliation is idempotent: to reconcile the result with the same
/// trace once more changes nothing.
pub proof fn lemma_reconcile_idempotent(
    old: Seq<(Seq<char>, bool)>,
    trace: Seq<char>,
    once: Seq<(Seq<char>, bool)>,
    twice: Seq<(Seq<char>, bool)>,
)
    requires
        is_reconciled(once, old, trace_events(trace)),
        is_reconciled(twice, once, trace_events(trace)),
    ensures
        twice == once,
{
    assert forall|i: int| 0 <= i < once.len() implies (#[trigger] once[i]).1 == shows(
        once,
        once[i].0,
    ) by {
        lemma_sorted_shows(once, i);
    }
    assert(is_reconciled(once, once, trace_events(trace)));
    lemma_reconciliation_unique(twice, once, once, trace_events(trace));
}

/// The result of a reconciliation stands in the order of the names, and
/// holds no name twice.
pub proof fn lemma_reconcile_sorted(
    old: Seq<(Seq<char>, bool)>,
    trace: Seq<char>,
    result: Seq<(Seq<char>, bool)>,
)
    requires
        is_reconciled(result, old, trace_events(trace)),
    ensures
        sorted_by_name(result),
        forall|i: int, j: int|
            0 <= i < j < result.len() ==> (#[trigger] result[i]).0 != (#[trigger] result[j]).0,
{
    assert forall|i: int, j: int| 0 <= i < j < result.len() implies (#[trigger] result[i]).0 != (
    #[trigger] result[j]).0 by {
        assert(name_precedes(result[i].0, result[j].0));
        lemma_name_asymmetric(result[i].0, result[j].0);
    }
}

/// Every entry of a reconciled store has a name: each line that enters a
/// function names it, so that reconciliation never fails for want of a
/// name.
pub proof fn lemma_reconcile_names_not_empty(
    old: Seq<(Seq<char>, bool)>,
    trace: Seq<char>,
    result: Seq<(Seq<char>, bool)>,
    i: int,
)
    requires
        is_reconciled(result, old, trace_events(trace)),
        0 <= i < result.len(),
    ensures
        result[i].0.len() > 0,
{
    assert(mentions(result, result[i].0));
    assert(enters(trace_events(trace), result[i].0));
    lemma_entered_name_not_empty(lines(trace), result[i].0);
}

impl VisibilityInfo {
    /// Reconciles the store with the trace `debug_info`: the result holds
    /// one entry for each function that the trace enters, with the flag
    /// that this store gives the name, in the order of the names.
    pub fn update_by_debug_info(self, debug_info: &str) -> (updated: Self)
        ensures
            is_reconciled(updated@, self@, trace_events(debug_info@)),
            sorted_by_name(updated@),
    {
        let records = parse_trace(debug_info);
        self.update_by_records(&records)
    }

    /// The reconciliation of the store with the records of a trace. The
    /// store itself is left as it is.
    pub fn update_by_records(&self, records: &Vec<TraceLine>) -> (updated: Self)
        ensures
            is_reconciled(updated@, self@, events_view(records@)),
    {
        let ghost events = events_view(records@);
        let sorted = self.is_sorted();
        let mut entries: Vec<VisibilityEntry> = Vec::new();
        let mut k: usize = 0;
        while k < records.len()
            invariant
                k <= records.len(),
                sorted ==> sorted_by_name(self@),
                events == events_view(records@),
                is_reconciled(entries_view(entries@), self@, events.take(k as int)),
            decreases records.len() - k,
        {
            let ghost before = entries_view(entries@);
            let ghost seen = events.take(k as int);
            let ghost next = events.take(k + 1);
            assert(next.drop_last() =~= seen);
            assert(next.last() == events[k as int]);
            assert(events[k as int] == records@[k as int]@);
            assert forall|name: Seq<char>| enters(next, name) <==> (enters(seen, name)
                || events[k as int] == TraceEvent::Enter(name)) by {
                if enters(next, name) {
                    let i = choose|i: int|
                        0 <= i < next.len() && next[i] == TraceEvent::Enter(name);
                    if i < k {
                        assert(seen[i] == TraceEvent::Enter(name));
                    }
                }
                if enters(seen, name) {
                    let i = choose|i: int|
                        0 <= i < seen.len() && seen[i] == TraceEvent::Enter(name);
                    assert(next[i] == TraceEvent::Enter(name));
                }
                if events[k as int] == TraceEvent::Enter(name) {
                    assert(next[k as int] == TraceEvent::Enter(name));
                }
            }
            match &records[k] {
                TraceLine::Enter(name) => {
                    let at = Self::position_of(&entries, name.as_str());
                    if at < entries.len() && compare_names(
                        entries[at].func_name.as_str(),
                        name.as_str(),
                    ) == NameOrder::Same {
                        assert(mentions(before, name@)) by {
                            assert(before[at as int].0 == name@);
                        }
                    } else {
                        let entry = VisibilityEntry {
                            func_name: name.clone(),
                            visibility: self.is_visible_in(name.as_str(), sorted),
                        };
                        entries.insert(at, entry);
                        proof {
                            lemma_insert_entry(before, at as int, entry@, self@);
                            assert(entries_view(entries@) =~= before.insert(at as int, entry@));
                        }
                    }
                },
                _ => {},
            }
            k += 1;
        }
        assert(events.take(k as int) =~= events);
        VisibilityInfo { entries }
    }

    /// The index of the first entry whose name does not come before `name`,
    /// found by bisection in entries that stand in the order of the names.
    fn position_of(entries: &Vec<VisibilityEntry>, name: &str) -> (at: usize)
        requires
            sorted_by_name(entries_view(entries@)),
        ensures
            at <= entries.len(),
            forall|i: int| 0 <= i < at ==> name_precedes(entries_view(entries@)[i].0, name@),
            at < entries.len() ==> !name_precedes(entries_view(entries@)[at as int].0, name@),
    {
        let ghost names = entries_view(entries@);
        let mut low: usize = 0;
        let mut high: usize = entries.len();
        while low < high
            invariant
                low <= high <= entries.len(),
                names == entries_view(entries@),
                sorted_by_name(names),
                forall|i: int| 0 <= i < low ==> name_precedes((#[trigger] names[i]).0, name@),
                forall|i: int|
                    high <= i < names.len() ==> !name_precedes((#[trigger] names[i]).0, name@),
            decreases high - low,
        {
            let middle = low + (high - low) / 2;
            if compare_names(entries[middle].func_name.as_str(), name) == NameOrder::Before {
                assert forall|i: int| 0 <= i < middle + 1 implies name_precedes(
                    (#[trigger] names[i]).0,
                    name@,
                ) by {
                    if i < middle {
                        assert(name_precedes(names[i].0, names[middle as int].0));
                        lemma_name_transitive(names[i].0, names[middle as int].0, name@);
                    }
                }
                low = middle + 1;
            } else {
                assert forall|i: int| middle <= i < names.len() implies !name_precedes(
                    (#[trigger] names[i]).0,
                    name@,
                ) by {
                    if middle < i && name_precedes(names[i].0, name@) {
                        assert(name_precedes(names[middle as int].0, names[i].0));
                        lemma_name_transitive(names[middle as int].0, names[i].0, name@);
                    }
                }
                high = middle;
            }
        }
        low
    }
}

/// Putting a new name at its place keeps the order, adds that name to the
/// names mentioned, and keeps the flags of the others.
proof fn lemma_insert_entry(
    before: Seq<(Seq<char>, bool)>,
    at: int,
    entry: (Seq<char>, bool),
    old: Seq<(Seq<char>, bool)>,
)
    requires
        sorted_by_name(before),
        0 <= at <= before.len(),
        forall|i: int| 0 <= i < at ==> name_precedes(before[i].0, entry.0),
        at < before.len() ==> !name_precedes(before[at].0, entry.0) && before[at].0 != entry.0,
        entry.1 == shows(old, entry.0),
        forall|i: int| 0 <= i < before.len() ==> (#[trigger] before[i]).1 == shows(old, before[i].0),
    ensures
        sorted_by_name(before.insert(at, entry)),
        forall|name: Seq<char>| #[trigger]
            mentions(before.insert(at, entry), name) <==> (mentions(before, name) || name
                == entry.0),
        forall|i: int|
            0 <= i < before.insert(at, entry).len() ==> (#[trigger] before.insert(at, entry)[i]).1
                == shows(old, before.insert(at, entry)[i].0),
{
    let after = before.insert(at, entry);
    assert forall|i: int, j: int| 0 <= i < j < after.len() implies name_precedes(
        (#[trigger] after[i]).0,
        (#[trigger] after[j]).0,
    ) by {
        if j < at {
            assert(after[i] == before[i] && after[j] == before[j]);
        } else if j == at {
            assert(after[i] == before[i]);
        } else if i == at {
            assert(after[j] == before[j - 1]);
            lemma_name_total(before[at].0, entry.0);
            if j - 1 > at {
                assert(name_precedes(before[at].0, before[j - 1].0));
                lemma_name_transitive(entry.0, before[at].0, before[j - 1].0);
            }
        } else if i < at {
            assert(after[i] == before[i] && after[j] == before[j - 1]);
        } else {
            assert(after[i] == before[i - 1] && after[j] == before[j - 1]);
        }
    }
    assert forall|name: Seq<char>| #[trigger]
        mentions(after, name) <==> (mentions(before, name) || name == entry.0) by {
        if mentions(after, name) {
            let i = choose|i: int| 0 <= i < after.len() && (#[trigger] after[i]).0 == name;
            if i < at {
                assert(before[i].0 == name);
            } else if i > at {
                assert(before[i - 1].0 == name);
            }
        }
        if mentions(before, name) {
            let i = choose|i: int| 0 <= i < before.len() && (#[trigger] before[i]).0 == name;
            if i < at {
                assert(after[i].0 == name);
            } else {
                assert(after[i + 1].0 == name);
            }
        }
        if name == entry.0 {
            assert(after[at].0 == name);
        }
    }
    assert forall|i: int| 0 <= i < after.len() implies (#[trigger] after[i]).1 == shows(
        old,
        after[i].0,
    ) by {
        if i < at {
            assert(after[i] == before[i]);
        } else if i > at {
            assert(after[i] == before[i - 1]);
        }
    }
}

} // verus!
