// The visibility store: one flag per function name.

use crate::name_order::{
    compare_names, lemma_name_asymmetric, lemma_name_transitive, name_precedes, NameOrder,
};
use vstd::prelude::*;
use vstd::string::*;

verus! {

/// The visibility of one function: its name, and whether its calls are
/// shown.
#[derive(Clone, Debug, PartialEq, Eq)]
pub struct VisibilityEntry {
    pub func_name: String,
    pub visibility: bool,
}

/// The visibility entries of a trace, in the order in which they are kept.
#[derive(Clone, Debug)]
pub struct VisibilityInfo {
    pub entries: Vec<VisibilityEntry>,
}

impl View for VisibilityEntry {
    type V = (Seq<char>, bool);

    open spec fn view(&self) -> (Seq<char>, bool) {
        (self.func_name@, self.visibility)
    }
}

/// The name and flag of each entry.
pub open spec fn entries_view(entries: Seq<VisibilityEntry>) -> Seq<(Seq<char>, bool)> {
    entries.map_values(|e: VisibilityEntry| e@)
}

impl View for VisibilityInfo {
    type V = Seq<(Seq<char>, bool)>;

    open spec fn view(&self) -> Seq<(Seq<char>, bool)> {
        entries_view(self.entries@)
    }
}

impl From<(String, bool)> for VisibilityEntry {
    /// The entry of a name and a flag.
    fn from(pair: (String, bool)) -> (entry: Self) {
        VisibilityEntry { func_name: pair.0, visibility: pair.1 }
    }
}

impl vstd::std_specs::convert::FromSpecImpl<(String, bool)> for VisibilityEntry {
    open spec fn obeys_from_spec() -> bool {
        true
    }

    open spec fn from_spec(pair: (String, bool)) -> Self {
        VisibilityEntry { func_name: pair.0, visibility: pair.1 }
    }
}

impl From<Vec<VisibilityEntry>> for VisibilityInfo {
    /// The store of the given entries, as they stand.
    fn from(entries: Vec<VisibilityEntry>) -> (info: Self) {
        VisibilityInfo { entries }
    }
}

impl vstd::std_specs::convert::FromSpecImpl<Vec<VisibilityEntry>> for VisibilityInfo {
    open spec fn obeys_from_spec() -> bool {
        true
    }

    open spec fn from_spec(entries: Vec<VisibilityEntry>) -> Self {
        VisibilityInfo { entries }
    }
}

impl Default for VisibilityInfo {
    /// The store without entries.
    fn default() -> (info: Self)
        ensures
            info@ == Seq::<(Seq<char>, bool)>::empty(),
    {
        let info = VisibilityInfo { entries: Vec::new() };
        assert(info@ =~= Seq::<(Seq<char>, bool)>::empty());
        info
    }
}

/// Whether some entry has the name `name`.
pub open spec fn mentions(entries: Seq<(Seq<char>, bool)>, name: Seq<char>) -> bool {
    exists|i: int| 0 <= i < entries.len() && (#[trigger] entries[i]).0 == name
}

/// Whether the calls of `name` are shown: they are, unless an entry hides
/// them. A name without an entry is shown.
pub open spec fn shows(entries: Seq<(Seq<char>, bool)>, name: Seq<char>) -> bool {
    !entries.contains((name, false))
}

/// Whether the entries stand in the strict order of their names. No name
/// then occurs twice.
pub open spec fn sorted_by_name(entries: Seq<(Seq<char>, bool)>) -> bool {
    forall|i: int, j: int|
        0 <= i < j < entries.len() ==> name_precedes(
            (#[trigger] entries[i]).0,
            (#[trigger] entries[j]).0,
        )
}

/// The entry with its flag flipped.
pub open spec fn flipped(entry: (Seq<char>, bool)) -> (Seq<char>, bool) {
    (entry.0, !entry.1)
}

/// In a sorted sequence, the flag that a mentioned name is given is the
/// flag of its one entry.
pub proof fn lemma_sorted_shows(entries: Seq<(Seq<char>, bool)>, i: int)
    requires
        sorted_by_name(entries),
        0 <= i < entries.len(),
    ensures
        shows(entries, entries[i].0) == entries[i].1,
{
    let name = entries[i].0;
    if entries.contains((name, false)) {
        let j = choose|j: int| 0 <= j < entries.len() && entries[j] == (name, false);
        if j < i {
            assert(name_precedes(entries[j].0, entries[i].0));
            lemma_name_asymmetric(entries[j].0, entries[i].0);
        } else if i < j {
            assert(name_precedes(entries[i].0, entries[j].0));
            lemma_name_asymmetric(entries[i].0, entries[j].0);
        }
    } else {
        if !entries[i].1 {
            assert(entries[i] == (name, false));
        }
    }
}

impl VisibilityEntry {
    /// An entry for `func_name` with the flag `visibility`.
    pub fn new(func_name: String, visibility: bool) -> (entry: Self)
        ensures
            entry@ == (func_name@, visibility),
    {
        VisibilityEntry { func_name, visibility }
    }
}

impl VisibilityInfo {
    /// The number of entries.
    pub fn len(&self) -> (n: usize)
        ensures
            n == self@.len(),
    {
        self.entries.len()
    }

    /// Whether the calls of `name` are shown.
    pub fn is_visible(&self, name: &str) -> (visible: bool)
        ensures
            visible == shows(self@, name@),
    {
        let mut i: usize = 0;
        while i < self.entries.len()
            invariant
                i <= self.entries.len(),
                forall|j: int| 0 <= j < i ==> self@[j] != (name@, false),
            decreases self.entries.len() - i,
        {
            if !self.entries[i].visibility && compare_names(
                self.entries[i].func_name.as_str(),
                name,
            ) == NameOrder::Same {
                assert(self@[i as int] == (name@, false));
                return false;
            }
            i += 1;
        }
        true
    }

    /// Whether the entries stand in the strict order of their names.
    pub fn is_sorted(&self) -> (sorted: bool)
        ensures
            sorted == sorted_by_name(self@),
    {
        let mut i: usize = 1;
        while i < self.entries.len()
            invariant
                1 <= i,
                forall|a: int, b: int|
                    0 <= a < b < i && b < self@.len() ==> name_precedes(
                        (#[trigger] self@[a]).0,
                        (#[trigger] self@[b]).0,
                    ),
            decreases self.entries.len() - i,
        {
            if compare_names(
                self.entries[i - 1].func_name.as_str(),
                self.entries[i].func_name.as_str(),
            ) != NameOrder::Before {
                assert(!name_precedes(self@[i - 1].0, self@[i as int].0));
                return false;
            }
            assert forall|a: int, b: int| 0 <= a < b < i + 1 && b < self@.len() implies name_precedes(
                (#[trigger] self@[a]).0,
                (#[trigger] self@[b]).0,
            ) by {
                if b == i && a < i - 1 {
                    assert(name_precedes(self@[a].0, self@[i - 1].0));
                    lemma_name_transitive(self@[a].0, self@[i - 1].0, self@[i as int].0);
                }
            }
            i += 1;
        }
        true
    }

    /// The position of the entry of `name` in a store that stands in the
    /// order of the names.
    pub(crate) fn find_sorted(&self, name: &str) -> (found: Option<usize>)
        requires
            sorted_by_name(self@),
        ensures
            match found {
                Some(at) => at < self@.len() && self@[at as int].0 == name@,
                None => !mentions(self@, name@),
            },
    {
        let mut low: usize = 0;
        let mut high: usize = self.entries.len();
        while low < high
            invariant
                low <= high <= self.entries.len(),
                sorted_by_name(self@),
                forall|i: int| 0 <= i < low ==> name_precedes((#[trigger] self@[i]).0, name@),
                forall|i: int|
                    high <= i < self@.len() ==> name_precedes(name@, (#[trigger] self@[i]).0),
            decreases high - low,
        {
            let middle = low + (high - low) / 2;
            match compare_names(self.entries[middle].func_name.as_str(), name) {
                NameOrder::Same => {
                    return Some(middle);
                },
                NameOrder::Before => {
                    assert forall|i: int| 0 <= i < middle + 1 implies name_precedes(
                        (#[trigger] self@[i]).0,
                        name@,
                    ) by {
                        if i < middle {
                            assert(name_precedes(self@[i].0, self@[middle as int].0));
                            lemma_name_transitive(self@[i].0, self@[middle as int].0, name@);
                        }
                    }
                    low = middle + 1;
                },
                NameOrder::After => {
                    assert forall|i: int| middle <= i < self@.len() implies name_precedes(
                        name@,
                        (#[trigger] self@[i]).0,
                    ) by {
                        if middle < i {
                            assert(name_precedes(self@[middle as int].0, self@[i].0));
                            lemma_name_transitive(name@, self@[middle as int].0, self@[i].0);
                        }
                    }
                    high = middle;
                },
            }
        }
        assert(!mentions(self@, name@)) by {
            if mentions(self@, name@) {
                let i = choose|i: int| 0 <= i < self@.len() && (#[trigger] self@[i]).0 == name@;
                if i < low {
                    lemma_name_asymmetric(self@[i].0, name@);
                } else {
                    lemma_name_asymmetric(name@, self@[i].0);
                }
            }
        }
        None
    }

    /// Whether the calls of `name` are shown, found by bisection where the
    /// store is known to stand in the order of the names.
    pub(crate) fn is_visible_in(&self, name: &str, sorted: bool) -> (visible: bool)
        requires
            sorted ==> sorted_by_name(self@),
        ensures
            visible == shows(self@, name@),
    {
        if sorted {
            match self.find_sorted(name) {
                Some(at) => {
                    proof {
                        lemma_sorted_shows(self@, at as int);
                    }
                    self.entries[at].visibility
                },
                None => {
                    assert(!self@.contains((name@, false))) by {
                        if self@.contains((name@, false)) {
                            let i = choose|i: int|
                                0 <= i < self@.len() && self@[i] == (name@, false);
                            assert(self@[i].0 == name@);
                        }
                    }
                    true
                },
            }
        } else {
            self.is_visible(name)
        }
    }

    /// Flips the flag of the entry at `index`. Without such an entry
    /// nothing changes.
    pub fn toggle(&mut self, index: usize)
        ensures
            index < old(self)@.len() ==> final(self)@ == old(self)@.update(
                index as int,
                flipped(old(self)@[index as int]),
            ),
            index >= old(self)@.len() ==> final(self)@ == old(self)@,
    {
        if index < self.entries.len() {
            let entry = &mut self.entries[index];
            entry.visibility = !entry.visibility;
            assert(self@ =~= old(self)@.update(index as int, flipped(old(self)@[index as int])));
        }
    }
}

} // verus!
