// The filtered visibility list: the entries whose names pass the search
// filter, and the flipping of one of them.

use crate::pattern::{filter_passes, passes};
use crate::visibility_info::{entries_view, flipped, VisibilityEntry, VisibilityInfo};
use regex::Regex;
use vstd::prelude::*;
use vstd::string::*;

verus! {

/// The indices of the entries whose names pass the filter, in rising
/// order.
pub open spec fn filtered_positions(
    entries: Seq<(Seq<char>, bool)>,
    filter: Option<Regex>,
) -> Seq<int>
    decreases entries.len(),
{
    if entries.len() == 0 {
        Seq::empty()
    } else {
        let before = filtered_positions(entries.drop_last(), filter);
        if passes(filter, entries.last().0) {
            before.push(entries.len() - 1)
        } else {
            before
        }
    }
}

/// The filtered positions are indices of entries that pass, and they rise.
pub proof fn lemma_filtered_positions(entries: Seq<(Seq<char>, bool)>, filter: Option<Regex>)
    ensures
        filtered_positions(entries, filter).len() <= entries.len(),
        forall|k: int|
            0 <= k < filtered_positions(entries, filter).len() ==> {
                let at = #[trigger] filtered_positions(entries, filter)[k];
                0 <= at < entries.len() && passes(filter, entries[at].0)
            },
        forall|j: int, k: int|
            0 <= j < k < filtered_positions(entries, filter).len() ==> filtered_positions(
                entries,
                filter,
            )[j] < filtered_positions(entries, filter)[k],
        forall|i: int|
            0 <= i < entries.len() && passes(filter, (#[trigger] entries[i]).0)
                ==> filtered_positions(entries, filter).contains(i),
    decreases entries.len(),
{
    if entries.len() > 0 {
        let head = entries.drop_last();
        let before = filtered_positions(head, filter);
        let all = filtered_positions(entries, filter);
        lemma_filtered_positions(head, filter);
        assert forall|k: int| 0 <= k < all.len() implies {
            let at = #[trigger] all[k];
            0 <= at < entries.len() && passes(filter, entries[at].0)
        } by {
            if k < before.len() {
                assert(all[k] == before[k]);
                assert(entries[before[k]] == head[before[k]]);
            }
        }
        assert forall|j: int, k: int| 0 <= j < k < all.len() implies all[j] < all[k] by {
            assert(all[j] == before[j]);
            if k < before.len() {
                assert(all[k] == before[k]);
            }
        }
        assert forall|i: int|
            0 <= i < entries.len() && passes(filter, (#[trigger] entries[i]).0) implies all.contains(
            i,
        ) by {
            if i < head.len() {
                assert(head[i] == entries[i]);
                assert(before.contains(i));
                let k = choose|k: int| 0 <= k < before.len() && before[k] == i;
                assert(all[k] == i);
            } else {
                assert(all[all.len() - 1] == i);
            }
        }
    }
}

/// The filtered positions of the first entries are the first of the
/// filtered positions of all.
pub proof fn lemma_filtered_positions_prefix(
    entries: Seq<(Seq<char>, bool)>,
    filter: Option<Regex>,
    n: int,
)
    requires
        0 <= n <= entries.len(),
    ensures
        filtered_positions(entries.take(n), filter).is_prefix_of(
            filtered_positions(entries, filter),
        ),
    decreases entries.len() - n,
{
    if n == entries.len() {
        assert(entries.take(n) =~= entries);
    } else {
        lemma_filtered_positions_prefix(entries, filter, n + 1);
        assert(entries.take(n + 1).drop_last() =~= entries.take(n));
    }
}

/// The filtered positions are a matter of the names alone.
pub proof fn lemma_filtered_positions_by_names(
    a: Seq<(Seq<char>, bool)>,
    b: Seq<(Seq<char>, bool)>,
    filter: Option<Regex>,
)
    requires
        a.len() == b.len(),
        forall|i: int| 0 <= i < a.len() ==> (#[trigger] a[i]).0 == b[i].0,
    ensures
        filtered_positions(a, filter) == filtered_positions(b, filter),
    decreases a.len(),
{
    if a.len() > 0 {
        assert(a.last().0 == b.last().0);
        lemma_filtered_positions_by_names(a.drop_last(), b.drop_last(), filter);
    }
}

impl VisibilityInfo {
    /// The number of entries whose names pass the filter.
    pub fn count_filtered(&self, filter: &Option<Regex>) -> (count: usize)
        ensures
            count == filtered_positions(self@, *filter).len(),
    {
        let mut count: usize = 0;
        let mut i: usize = 0;
        while i < self.entries.len()
            invariant
                i <= self.entries.len(),
                count <= i,
                count == filtered_positions(self@.take(i as int), *filter).len(),
            decreases self.entries.len() - i,
        {
            assert(self@.take(i + 1).drop_last() =~= self@.take(i as int));
            if filter_passes(filter, self.entries[i].func_name.as_str()) {
                count += 1;
            }
            i += 1;
        }
        assert(self@.take(i as int) =~= self@);
        count
    }

    /// The position in the store of the entry that stands at `index` among
    /// those whose names pass the filter, if there are that many.
    pub fn nth_filtered(&self, filter: &Option<Regex>, index: usize) -> (position: Option<usize>)
        ensures
            match position {
                Some(at) => index < filtered_positions(self@, *filter).len() && at
                    == filtered_positions(self@, *filter)[index as int] && at < self@.len()
                    && passes(*filter, self@[at as int].0),
                None => index >= filtered_positions(self@, *filter).len(),
            },
    {
        proof {
            lemma_filtered_positions(self@, *filter);
        }
        let mut count: usize = 0;
        let mut i: usize = 0;
        while i < self.entries.len()
            invariant
                i <= self.entries.len(),
                count <= i,
                count <= index,
                count == filtered_positions(self@.take(i as int), *filter).len(),
            decreases self.entries.len() - i,
        {
            proof {
                assert(self@.take(i + 1).drop_last() =~= self@.take(i as int));
                lemma_filtered_positions_prefix(self@, *filter, i + 1);
            }
            if filter_passes(filter, self.entries[i].func_name.as_str()) {
                if count == index {
                    assert(filtered_positions(self@.take(i + 1), *filter)[index as int] == i);
                    return Some(i);
                }
                count += 1;
            }
            i += 1;
        }
        assert(self@.take(i as int) =~= self@);
        None
    }

    /// Flips the flag of the entry that stands at `index` among those whose
    /// names pass the filter. Without such an entry nothing changes.
    pub fn toggle_filtered(&mut self, filter: &Option<Regex>, index: usize)
        ensures
            index < filtered_positions(old(self)@, *filter).len() ==> final(self)@ == old(
                self,
            )@.update(
                filtered_positions(old(self)@, *filter)[index as int],
                flipped(old(self)@[filtered_positions(old(self)@, *filter)[index as int]]),
            ),
            index >= filtered_positions(old(self)@, *filter).len() ==> final(self)@ == old(self)@,
            filtered_positions(final(self)@, *filter) == filtered_positions(old(self)@, *filter),
    {
        match self.nth_filtered(filter, index) {
            Some(at) => {
                self.toggle(at);
                proof {
                    lemma_filtered_positions_by_names(old(self)@, self@, *filter);
                }
            },
            None => {},
        }
    }

    /// The entries whose names pass the filter, in the order of the store.
    pub fn filtered_entries(&self, filter: &Option<Regex>) -> (shown: Vec<VisibilityEntry>)
        ensures
            entries_view(shown@) == filtered_positions(self@, *filter).map_values(
                |at: int| self@[at],
            ),
    {
        let mut shown: Vec<VisibilityEntry> = Vec::new();
        let mut i: usize = 0;
        assert(entries_view(shown@) =~= filtered_positions(self@.take(0), *filter).map_values(
            |at: int| self@[at],
        ));
        while i < self.entries.len()
            invariant
                i <= self.entries.len(),
                entries_view(shown@) == filtered_positions(
                    self@.take(i as int),
                    *filter,
                ).map_values(|at: int| self@[at]),
            decreases self.entries.len() - i,
        {
            assert(self@.take(i + 1).drop_last() =~= self@.take(i as int));
            let ghost before = shown@;
            if filter_passes(filter, self.entries[i].func_name.as_str()) {
                let entry = VisibilityEntry {
                    func_name: self.entries[i].func_name.clone(),
                    visibility: self.entries[i].visibility,
                };
                shown.push(entry);
                assert(entries_view(shown@) =~= entries_view(before).push(self@[i as int]));
                assert(entries_view(shown@) =~= filtered_positions(
                    self@.take(i + 1),
                    *filter,
                ).map_values(|at: int| self@[at]));
            }
            i += 1;
        }
        assert(self@.take(i as int) =~= self@);
        shown
    }
}

} // verus!
