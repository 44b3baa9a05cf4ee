// The depth-aware visibility filter: which records of a trace are shown,
// and at which depth.

use crate::trace::{events_view, parse_trace, trace_events, TraceEvent, TraceLine};
use crate::visibility_info::{shows, sorted_by_name, VisibilityInfo};
use vstd::prelude::*;
use vstd::string::*;

verus! {

/// What a shown line holds.
pub enum LabelView {
    /// The name of an entered function.
    Function(Seq<char>),
    /// The text of a reported value.
    Value(Seq<char>),
}

impl LabelView {
    /// The text of the label.
    pub open spec fn text(self) -> Seq<char> {
        match self {
            LabelView::Function(name) => name,
            LabelView::Value(text) => text,
        }
    }
}

/// A shown line: its nesting depth and what it holds.
pub struct RenderLineView {
    pub depth: nat,
    pub label: LabelView,
}

/// What a shown line holds.
#[derive(Clone, Debug, PartialEq, Eq)]
pub enum RenderKind {
    /// The name of an entered function.
    FunctionLabel(String),
    /// The text of a reported value.
    ValueLabel(String),
}

/// A shown line: its nesting depth and what it holds.
#[derive(Clone, Debug, PartialEq, Eq)]
pub struct RenderLine {
    pub depth: usize,
    pub kind: RenderKind,
}

impl View for RenderKind {
    type V = LabelView;

    open spec fn view(&self) -> LabelView {
        match self {
            RenderKind::FunctionLabel(name) => LabelView::Function(name@),
            RenderKind::ValueLabel(text) => LabelView::Value(text@),
        }
    }
}

impl View for RenderLine {
    type V = RenderLineView;

    open spec fn view(&self) -> RenderLineView {
        RenderLineView { depth: self.depth as nat, label: self.kind@ }
    }
}

/// What each line of a vector of shown lines holds.
pub open spec fn lines_view(lines: Seq<RenderLine>) -> Seq<RenderLineView> {
    lines.map_values(|l: RenderLine| l@)
}

/// The state of the filter between two records.
pub struct FilterState {
    /// The number of functions entered and not yet left.
    pub depth: nat,
    /// Whether records are shown at present.
    pub display: bool,
    /// The depth at which the last shown function was entered. Leaving a
    /// function at this depth switches the display on again.
    pub display_depth: nat,
}

/// The state before the first record: depth 0, display on.
pub open spec fn initial_state() -> FilterState {
    FilterState { depth: 0, display: true, display_depth: 0 }
}

/// The state after `event`.
///
/// Entering a hidden function switches the display off; entering a shown
/// one while the display is on records the depth. Either way the depth
/// grows by one. Leaving a function takes the depth down by one, and
/// switches the display on where the depth recorded is reached. A record
/// that leaves a function at depth 0 has no function to leave, and changes
/// nothing.
pub open spec fn step(
    state: FilterState,
    event: TraceEvent,
    info: Seq<(Seq<char>, bool)>,
) -> FilterState {
    match event {
        TraceEvent::Enter(name) => FilterState {
            depth: state.depth + 1,
            display: state.display && shows(info, name),
            display_depth: if state.display && shows(info, name) {
                state.depth
            } else {
                state.display_depth
            },
        },
        TraceEvent::Exit => if state.depth == 0 {
            state
        } else {
            FilterState {
                depth: (state.depth - 1) as nat,
                display: state.display || state.depth - 1 == state.display_depth,
                display_depth: state.display_depth,
            }
        },
        TraceEvent::Value(_) => state,
    }
}

/// The line that `event` adds to the display, if it adds one: the name of
/// a shown function that is entered while the display is on, or a value
/// that is reported while the display is on, at the depth before the
/// record.
pub open spec fn emitted(
    state: FilterState,
    event: TraceEvent,
    info: Seq<(Seq<char>, bool)>,
) -> Option<RenderLineView> {
    match event {
        TraceEvent::Enter(name) => if state.display && shows(info, name) {
            Some(RenderLineView { depth: state.depth, label: LabelView::Function(name) })
        } else {
            None
        },
        TraceEvent::Exit => None,
        TraceEvent::Value(text) => if state.display {
            Some(RenderLineView { depth: state.depth, label: LabelView::Value(text) })
        } else {
            None
        },
    }
}

/// The state after all of `events`.
pub open spec fn state_after(events: Seq<TraceEvent>, info: Seq<(Seq<char>, bool)>) -> FilterState
    decreases events.len(),
{
    if events.len() == 0 {
        initial_state()
    } else {
        step(state_after(events.drop_last(), info), events.last(), info)
    }
}

/// The lines that `events` show, in their order.
pub open spec fn rendered(events: Seq<TraceEvent>, info: Seq<(Seq<char>, bool)>) -> Seq<
    RenderLineView,
>
    decreases events.len(),
{
    if events.len() == 0 {
        Seq::empty()
    } else {
        let before = rendered(events.drop_last(), info);
        match emitted(state_after(events.drop_last(), info), events.last(), info) {
            Some(line) => before.push(line),
            None => before,
        }
    }
}

/// The depth never exceeds the number of records read.
pub proof fn lemma_depth_bounded(events: Seq<TraceEvent>, info: Seq<(Seq<char>, bool)>)
    ensures
        state_after(events, info).depth <= events.len(),
        rendered(events, info).len() <= events.len(),
    decreases events.len(),
{
    if events.len() > 0 {
        lemma_depth_bounded(events.drop_last(), info);
    }
}

/// A hidden function hides what it calls: where a trace enters a hidden
/// function, enters another inside it, shown or not, and leaves both, no
/// line is shown, and the filter is back in its first state.
pub proof fn lemma_hidden_function_hides_callee(
    outer: Seq<char>,
    inner: Seq<char>,
    info: Seq<(Seq<char>, bool)>,
)
    requires
        !shows(info, outer),
    ensures
        rendered(
            seq![
                TraceEvent::Enter(outer),
                TraceEvent::Enter(inner),
                TraceEvent::Exit,
                TraceEvent::Exit,
            ],
            info,
        ) == Seq::<RenderLineView>::empty(),
        state_after(
            seq![
                TraceEvent::Enter(outer),
                TraceEvent::Enter(inner),
                TraceEvent::Exit,
                TraceEvent::Exit,
            ],
            info,
        ) == initial_state(),
{
    let events = seq![
        TraceEvent::Enter(outer),
        TraceEvent::Enter(inner),
        TraceEvent::Exit,
        TraceEvent::Exit,
    ];
    let none = events.take(0);
    let one = events.take(1);
    let two = events.take(2);
    let three = events.take(3);
    assert(one.drop_last() =~= none);
    assert(two.drop_last() =~= one);
    assert(three.drop_last() =~= two);
    assert(events.drop_last() =~= three);
    assert(state_after(none, info) == initial_state());
    assert(rendered(none, info).len() == 0);
    assert(!state_after(one, info).display);
    assert(rendered(one, info).len() == 0);
    assert(state_after(two, info) == (FilterState { depth: 2, display: false, display_depth: 0 }));
    assert(rendered(two, info).len() == 0);
    assert(rendered(three, info).len() == 0);
    assert(rendered(events, info) =~= Seq::<RenderLineView>::empty());
}

/// The display comes back at the depth at which it went off: where a
/// trace enters two hidden functions one inside the other, leaves both and
/// enters a shown function, that function alone is shown, at depth 0.
pub proof fn lemma_display_restored_after_hidden(
    outer: Seq<char>,
    inner: Seq<char>,
    next: Seq<char>,
    info: Seq<(Seq<char>, bool)>,
)
    requires
        !shows(info, outer),
        !shows(info, inner),
        shows(info, next),
    ensures
        rendered(
            seq![
                TraceEvent::Enter(outer),
                TraceEvent::Enter(inner),
                TraceEvent::Exit,
                TraceEvent::Exit,
                TraceEvent::Enter(next),
            ],
            info,
        ) == seq![RenderLineView { depth: 0, label: LabelView::Function(next) }],
{
    let events = seq![
        TraceEvent::Enter(outer),
        TraceEvent::Enter(inner),
        TraceEvent::Exit,
        TraceEvent::Exit,
        TraceEvent::Enter(next),
    ];
    lemma_hidden_function_hides_callee(outer, inner, info);
    assert(events.drop_last() =~= seq![
        TraceEvent::Enter(outer),
        TraceEvent::Enter(inner),
        TraceEvent::Exit,
        TraceEvent::Exit,
    ]);
    assert(rendered(events, info) =~= seq![
        RenderLineView { depth: 0, label: LabelView::Function(next) },
    ]);
}

/// How much deeper the trace stands after `events`: the number of
/// functions entered less the number of functions left.
pub open spec fn nesting(events: Seq<TraceEvent>) -> int
    decreases events.len(),
{
    if events.len() == 0 {
        0
    } else {
        nesting(events.drop_last()) + match events.last() {
            TraceEvent::Enter(_) => 1int,
            TraceEvent::Exit => -1int,
            TraceEvent::Value(_) => 0int,
        }
    }
}

/// Whether `events` stay inside the function that was entered just before
/// them: at no point have they left more functions than they entered.
pub open spec fn stays_inside(events: Seq<TraceEvent>) -> bool {
    forall|n: int| 0 <= n <= events.len() ==> nesting(#[trigger] events.take(n)) >= 0
}

/// In a trace that never leaves more functions than it entered, the depth
/// is the number of functions entered and not yet left.
pub proof fn lemma_depth_is_nesting(events: Seq<TraceEvent>, info: Seq<(Seq<char>, bool)>)
    requires
        stays_inside(events),
    ensures
        state_after(events, info).depth == nesting(events),
    decreases events.len(),
{
    assert(events.take(events.len() as int) =~= events);
    if events.len() > 0 {
        let shorter = events.drop_last();
        assert forall|n: int| 0 <= n <= shorter.len() implies nesting(
            #[trigger] shorter.take(n),
        ) >= 0 by {
            assert(shorter.take(n) =~= events.take(n));
        }
        assert(shorter.take(shorter.len() as int) =~= shorter);
        lemma_depth_is_nesting(shorter, info);
    }
}

/// A hidden function hides its subtree, whatever the flags of the
/// functions called in it: where a hidden function is entered at a depth
/// that is not less than the depth recorded for the last shown entry,
/// nothing is shown for as long as the trace stays inside it.
pub proof fn lemma_hidden_function_hides_subtree(
    before: Seq<TraceEvent>,
    hidden: Seq<char>,
    inside: Seq<TraceEvent>,
    info: Seq<(Seq<char>, bool)>,
)
    requires
        !shows(info, hidden),
        state_after(before, info).display_depth <= state_after(before, info).depth,
        stays_inside(inside),
    ensures
        rendered(before.push(TraceEvent::Enter(hidden)) + inside, info) == rendered(before, info),
        state_after(before.push(TraceEvent::Enter(hidden)) + inside, info) == (FilterState {
            depth: (state_after(before, info).depth + 1 + nesting(inside)) as nat,
            display: false,
            display_depth: state_after(before, info).display_depth,
        }),
        nesting(inside) >= 0,
    decreases inside.len(),
{
    let entered = before.push(TraceEvent::Enter(hidden));
    let all = entered + inside;
    assert(inside.take(inside.len() as int) =~= inside);
    if inside.len() == 0 {
        assert(all =~= entered);
        assert(entered.drop_last() =~= before);
    } else {
        let shorter = inside.drop_last();
        assert forall|n: int| 0 <= n <= shorter.len() implies nesting(
            #[trigger] shorter.take(n),
        ) >= 0 by {
            assert(shorter.take(n) =~= inside.take(n));
        }
        lemma_hidden_function_hides_subtree(before, hidden, shorter, info);
        assert(all.drop_last() =~= entered + shorter);
        assert(all.last() == inside.last());
    }
}

/// The display comes back where it went off: where a hidden function is
/// entered at the very depth recorded for the last shown entry, the record
/// that leaves it switches the display on again, at the depth at which the
/// function was entered, and nothing of the function was shown.
pub proof fn lemma_display_restored_on_leaving(
    before: Seq<TraceEvent>,
    hidden: Seq<char>,
    inside: Seq<TraceEvent>,
    info: Seq<(Seq<char>, bool)>,
)
    requires
        !shows(info, hidden),
        state_after(before, info).display_depth == state_after(before, info).depth,
        stays_inside(inside),
        nesting(inside) == 0,
    ensures
        rendered((before.push(TraceEvent::Enter(hidden)) + inside).push(TraceEvent::Exit), info)
            == rendered(before, info),
        state_after((before.push(TraceEvent::Enter(hidden)) + inside).push(TraceEvent::Exit), info)
            == (FilterState {
            depth: state_after(before, info).depth,
            display: true,
            display_depth: state_after(before, info).display_depth,
        }),
{
    let within = before.push(TraceEvent::Enter(hidden)) + inside;
    lemma_hidden_function_hides_subtree(before, hidden, inside, info);
    assert(within.push(TraceEvent::Exit).drop_last() =~= within);
}

/// The running state of one pass over the records.
struct Pass {
    depth: usize,
    display: bool,
    display_depth: usize,
}

impl View for Pass {
    type V = FilterState;

    closed spec fn view(&self) -> FilterState {
        FilterState {
            depth: self.depth as nat,
            display: self.display,
            display_depth: self.display_depth as nat,
        }
    }
}

impl Pass {
    fn new() -> (pass: Pass)
        ensures
            pass@ == initial_state(),
    {
        Pass { depth: 0, display: true, display_depth: 0 }
    }

    /// Takes the pass over one record, and says whether the record is
    /// shown.
    fn advance(&mut self, record: &TraceLine, info: &VisibilityInfo, sorted: bool) -> (shown:
        bool)
        requires
            old(self).depth < usize::MAX,
            sorted ==> sorted_by_name(info@),
        ensures
            final(self)@ == step(old(self)@, record@, info@),
            shown == emitted(old(self)@, record@, info@).is_some(),
    {
        match record {
            TraceLine::Enter(name) => {
                let shown = self.display && info.is_visible_in(name.as_str(), sorted);
                if shown {
                    self.display_depth = self.depth;
                }
                self.display = shown;
                self.depth = self.depth + 1;
                shown
            },
            TraceLine::Exit => {
                if self.depth > 0 {
                    self.depth = self.depth - 1;
                    if self.depth == self.display_depth {
                        self.display = true;
                    }
                }
                false
            },
            TraceLine::Value(_) => self.display,
        }
    }
}

/// The text that stands for a nesting depth: `| ` once for each level.
pub open spec fn indent_text(depth: nat) -> Seq<char>
    decreases depth,
{
    if depth == 0 {
        Seq::empty()
    } else {
        indent_text((depth - 1) as nat) + "| "@
    }
}

impl RenderLine {
    /// The text that is put before the label to show the depth.
    pub fn indent(&self) -> (text: String)
        ensures
            text@ == indent_text(self.depth as nat),
    {
        let mut text = String::new();
        let mut level: usize = 0;
        while level < self.depth
            invariant
                level <= self.depth,
                text@ == indent_text(level as nat),
            decreases self.depth - level,
        {
            text.append("| ");
            level += 1;
        }
        text
    }

    /// The label of the line: the function's name, or the value's text.
    pub fn label(&self) -> (text: &str)
        ensures
            text@ == self@.label.text(),
    {
        match &self.kind {
            RenderKind::FunctionLabel(name) => name.as_str(),
            RenderKind::ValueLabel(text) => text.as_str(),
        }
    }
}

/// The lines that the records show under the visibility `info`.
pub fn render_records(records: &Vec<TraceLine>, info: &VisibilityInfo) -> (lines: Vec<RenderLine>)
    ensures
        lines_view(lines@) == rendered(events_view(records@), info@),
{
    let ghost events = events_view(records@);
    let sorted = info.is_sorted();
    let mut lines: Vec<RenderLine> = Vec::new();
    let mut pass = Pass::new();
    let mut k: usize = 0;
    assert(lines_view(lines@) =~= rendered(events.take(0), info@));
    while k < records.len()
        invariant
            k <= records.len(),
            sorted ==> sorted_by_name(info@),
            events == events_view(records@),
            pass@ == state_after(events.take(k as int), info@),
            lines_view(lines@) == rendered(events.take(k as int), info@),
        decreases records.len() - k,
    {
        proof {
            lemma_depth_bounded(events.take(k as int), info@);
            assert(events.take(k + 1).drop_last() =~= events.take(k as int));
            assert(events.take(k + 1).last() == records@[k as int]@);
        }
        let depth = pass.depth;
        let ghost before = lines@;
        if pass.advance(&records[k], info, sorted) {
            match &records[k] {
                TraceLine::Enter(name) => {
                    let line = RenderLine { depth, kind: RenderKind::FunctionLabel(name.clone()) };
                    lines.push(line);
                    assert(lines_view(lines@) =~= lines_view(before).push(line@));
                },
                TraceLine::Value(text) => {
                    let line = RenderLine { depth, kind: RenderKind::ValueLabel(text.clone()) };
                    lines.push(line);
                    assert(lines_view(lines@) =~= lines_view(before).push(line@));
                },
                TraceLine::Exit => {},
            }
        }
        k += 1;
    }
    assert(events.take(k as int) =~= events);
    lines
}

/// The number of lines that the records show under the visibility `info`.
pub fn count_rendered(records: &Vec<TraceLine>, info: &VisibilityInfo) -> (count: usize)
    ensures
        count == rendered(events_view(records@), info@).len(),
{
    let ghost events = events_view(records@);
    let sorted = info.is_sorted();
    let mut count: usize = 0;
    let mut pass = Pass::new();
    let mut k: usize = 0;
    while k < records.len()
        invariant
            k <= records.len(),
            sorted ==> sorted_by_name(info@),
            events == events_view(records@),
            pass@ == state_after(events.take(k as int), info@),
            count == rendered(events.take(k as int), info@).len(),
        decreases records.len() - k,
    {
        proof {
            lemma_depth_bounded(events.take(k as int), info@);
            assert(events.take(k + 1).drop_last() =~= events.take(k as int));
            assert(events.take(k + 1).last() == records@[k as int]@);
        }
        if pass.advance(&records[k], info, sorted) {
            count += 1;
        }
        k += 1;
    }
    assert(events.take(k as int) =~= events);
    count
}

/// The lines that the trace `debug_info` shows under the visibility `info`.
pub fn filter(debug_info: &str, info: &VisibilityInfo) -> (lines: Vec<RenderLine>)
    ensures
        lines_view(lines@) == rendered(trace_events(debug_info@), info@),
{
    let records = parse_trace(debug_info);
    render_records(&records, info)
}

/// The number of lines that the trace `debug_info` shows under the
/// visibility `info`.
pub fn count_visible_lines(debug_info: &str, info: &VisibilityInfo) -> (count: usize)
    ensures
        count == rendered(trace_events(debug_info@), info@).len(),
{
    let records = parse_trace(debug_info);
    count_rendered(&records, info)
}

} // verus!
