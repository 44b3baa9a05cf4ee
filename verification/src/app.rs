// The interaction state: mode, selection, scroll position and search
// pattern, over a trace and its visibility store.

use crate::display::{count_visible_lines, filter, lines_view, rendered, RenderLine};
use crate::handler::{guidance_text, set_guidance};
use crate::pattern::{
    classify, compile, compiled_from, compiles, error_text, pattern_text, PatternError,
};
use crate::trace::{parse_trace, trace_events};
use crate::reconcile::is_reconciled;
use crate::selection::filtered_positions;
use crate::visibility_info::{entries_view, flipped, VisibilityEntry, VisibilityInfo};
use regex::Regex;
use std::path::PathBuf;
use vstd::prelude::*;
use vstd::string::*;

verus! {

/// A file path of the standard library. The state carries the two paths of
/// a session along; it never looks into them.
#[verifier::external_type_specification]
#[verifier::external_body]
pub struct ExPathBuf(std::path::PathBuf);

/// What the user is doing: reading the trace, editing the visibility list,
/// or typing a search pattern that filters that list.
#[derive(Clone, Copy, Debug, PartialEq, Eq, Structural)]
pub enum AppMode {
    ViewDebug,
    EditVisibility,
    SearchVisibility,
}

/// The state of a session.
#[derive(Debug)]
pub struct App {
    /// Whether the session goes on.
    pub running: bool,
    /// What the user is doing.
    pub mode: AppMode,
    /// The guidance shown at the top.
    pub guidance: String,
    /// The search pattern as typed.
    pub search_string: String,
    /// The last pattern that compiled. Before any has, every name passes.
    pub search_regex: Option<Regex>,
    /// Why the pattern as typed did not compile; empty if it did.
    pub search_regex_error: String,
    /// The number of shown lines that are scrolled out at the top.
    pub scroll: usize,
    /// The selected row of the filtered visibility list.
    pub idx_visibility: usize,
    /// Where the trace was read from.
    pub debug_info_file: PathBuf,
    /// Where the visibility store is kept.
    pub visibility_info_file: PathBuf,
    /// The trace text.
    pub debug_info: String,
    /// The visibility store.
    pub visibility_info: VisibilityInfo,
}

/// The state of a session, as the contracts see it.
pub struct AppView {
    pub running: bool,
    pub mode: AppMode,
    pub guidance: Seq<char>,
    pub search_string: Seq<char>,
    pub search_regex: Option<Regex>,
    pub search_regex_error: Seq<char>,
    pub scroll: nat,
    pub idx_visibility: nat,
    pub debug_info_file: PathBuf,
    pub visibility_info_file: PathBuf,
    pub debug_info: Seq<char>,
    pub visibility_info: Seq<(Seq<char>, bool)>,
}

impl View for App {
    type V = AppView;

    open spec fn view(&self) -> AppView {
        AppView {
            running: self.running,
            mode: self.mode,
            guidance: self.guidance@,
            search_string: self.search_string@,
            search_regex: self.search_regex,
            search_regex_error: self.search_regex_error@,
            scroll: self.scroll as nat,
            idx_visibility: self.idx_visibility as nat,
            debug_info_file: self.debug_info_file,
            visibility_info_file: self.visibility_info_file,
            debug_info: self.debug_info@,
            visibility_info: self.visibility_info@,
        }
    }
}

/// The index nearest to `target` in a list of `count` rows: `target` held
/// to the range from 0 to `count - 1`, and 0 for an empty list.
pub open spec fn clamp_index(target: int, count: nat) -> nat {
    if count == 0 || target < 0 {
        0
    } else if target >= count {
        (count - 1) as nat
    } else {
        target as nat
    }
}

impl AppView {
    /// The number of lines that the trace shows.
    pub open spec fn shown_lines(self) -> nat {
        rendered(trace_events(self.debug_info), self.visibility_info).len()
    }

    /// The positions in the store of the rows of the filtered visibility
    /// list.
    pub open spec fn rows(self) -> Seq<int> {
        filtered_positions(self.visibility_info, self.search_regex)
    }

    /// Whether the selection is a row of the filtered list, or 0 where the
    /// list is empty.
    pub open spec fn selection_in_range(self) -> bool {
        if self.rows().len() == 0 {
            self.idx_visibility == 0
        } else {
            self.idx_visibility < self.rows().len()
        }
    }

    /// The state after the selected row was flipped. Where the selection
    /// is beyond the list, it is this state.
    pub open spec fn toggled(self) -> AppView {
        if self.idx_visibility < self.rows().len() {
            let at = self.rows()[self.idx_visibility as int];
            AppView {
                visibility_info: self.visibility_info.update(at, flipped(self.visibility_info[at])),
                ..self
            }
        } else {
            self
        }
    }

    /// The state after an attempt to compile the pattern as typed: a
    /// compiled pattern takes effect and clears the message, a failure
    /// leaves the pattern in effect and sets the message.
    pub open spec fn with_pattern(self, outcome: Result<Regex, PatternError>) -> AppView {
        match outcome {
            Ok(pattern) => AppView {
                search_regex: Some(pattern),
                search_regex_error: Seq::empty(),
                ..self
            },
            Err(error) => AppView { search_regex_error: error_text(error), ..self },
        }
    }

    /// Whether the pattern as typed has taken effect in `next`, or has
    /// left the pattern in effect as it is here: where the text compiles,
    /// a pattern compiled from it is in effect and there is no message;
    /// where it does not, the pattern in effect is the one of this state.
    pub open spec fn settles_pattern(self, next: AppView) -> bool {
        &&& compiles(self.search_string) ==> next.search_regex_error == Seq::<char>::empty() && (
        next.search_regex matches Some(pattern) && pattern_text(pattern) == self.search_string)
        &&& !compiles(self.search_string) ==> next.search_regex == self.search_regex
    }

    /// Whether `next` can follow this state when the pattern as typed is
    /// compiled: for some outcome of compiling that pattern, it is the
    /// state with that outcome. The outcome is a pattern exactly where the
    /// text compiles.
    pub open spec fn recompiles_to(self, next: AppView) -> bool {
        exists|outcome: Result<Regex, PatternError>|
            compiled_from(outcome, self.search_string) && next == #[trigger] self.with_pattern(
                outcome,
            )
    }
}

impl App {
    /// A session on the trace `debug_info` and the store `visibility_info`:
    /// running, in the trace view, at the top, with nothing selected or
    /// searched for.
    pub fn new(
        debug_info_file: PathBuf,
        visibility_info_file: PathBuf,
        debug_info: String,
        visibility_info: VisibilityInfo,
    ) -> (app: App)
        ensures
            app@ == (AppView {
                running: true,
                mode: AppMode::ViewDebug,
                guidance: guidance_text(AppMode::ViewDebug),
                search_string: Seq::empty(),
                search_regex: None,
                search_regex_error: Seq::empty(),
                scroll: 0,
                idx_visibility: 0,
                debug_info_file,
                visibility_info_file,
                debug_info: debug_info@,
                visibility_info: visibility_info@,
            }),
    {
        let mut guidance = String::new();
        set_guidance(AppMode::ViewDebug, &mut guidance);
        App {
            running: true,
            mode: AppMode::ViewDebug,
            guidance,
            search_string: String::new(),
            search_regex: None,
            search_regex_error: String::new(),
            scroll: 0,
            idx_visibility: 0,
            debug_info_file,
            visibility_info_file,
            debug_info,
            visibility_info,
        }
    }

    /// The passing of time changes nothing.
    pub fn tick(&mut self)
        ensures
            final(self)@ == old(self)@,
    {
    }

    /// Ends the session.
    pub fn quit(&mut self)
        ensures
            final(self)@ == (AppView { running: false, ..old(self)@ }),
    {
        self.running = false;
    }

    /// Takes up a trace that was read again: the store in memory is
    /// reconciled with it, so that the flags flipped in the session are
    /// kept for the names that the trace still enters. Nothing else
    /// changes.
    pub fn reload(&mut self, debug_info: String)
        ensures
            final(self)@ == (AppView {
                debug_info: debug_info@,
                visibility_info: final(self)@.visibility_info,
                ..old(self)@
            }),
            is_reconciled(
                final(self)@.visibility_info,
                old(self)@.visibility_info,
                trace_events(debug_info@),
            ),
    {
        let records = parse_trace(debug_info.as_str());
        self.visibility_info = self.visibility_info.update_by_records(&records);
        self.debug_info = debug_info;
    }

    /// The lines that the trace shows.
    pub fn displayed_debug_info(&self) -> (lines: Vec<RenderLine>)
        ensures
            lines_view(lines@) == rendered(trace_events(self@.debug_info), self@.visibility_info),
    {
        filter(self.debug_info.as_str(), &self.visibility_info)
    }

    /// The number of lines that the trace shows.
    pub fn num_displayed_debug_info_lines(&self) -> (count: usize)
        ensures
            count == self@.shown_lines(),
    {
        count_visible_lines(self.debug_info.as_str(), &self.visibility_info)
    }

    /// The rows of the filtered visibility list.
    pub fn displayed_visibility_entries(&self) -> (rows: Vec<VisibilityEntry>)
        ensures
            entries_view(rows@) == self@.rows().map_values(|at: int| self@.visibility_info[at]),
    {
        self.visibility_info.filtered_entries(&self.search_regex)
    }

    /// The number of rows of the filtered visibility list.
    pub fn num_displayed_visibility_entries(&self) -> (count: usize)
        ensures
            count == self@.rows().len(),
    {
        self.visibility_info.count_filtered(&self.search_regex)
    }

    /// Flips the visibility of the selected row.
    pub fn update_visibility(&mut self)
        ensures
            final(self)@ == old(self)@.toggled(),
            final(self)@.rows() == old(self)@.rows(),
            old(self)@.idx_visibility >= old(self)@.rows().len() ==> final(self)@ == old(self)@,
    {
        self.visibility_info.toggle_filtered(&self.search_regex, self.idx_visibility);
    }

    /// Sets the guidance to that of the mode.
    pub fn update_guidance(&mut self)
        ensures
            final(self)@ == (AppView { guidance: guidance_text(old(self)@.mode), ..old(self)@ }),
    {
        set_guidance(self.mode, &mut self.guidance);
    }

    /// Goes over to `mode`, and shows its guidance.
    pub fn mode_change(&mut self, mode: AppMode)
        ensures
            final(self)@ == (AppView { mode, guidance: guidance_text(mode), ..old(self)@ }),
    {
        self.mode = mode;
        self.update_guidance();
    }

    /// Takes up the outcome of compiling the pattern as typed.
    pub fn install_pattern(&mut self, outcome: Result<Regex, PatternError>)
        ensures
            final(self)@ == old(self)@.with_pattern(outcome),
    {
        match outcome {
            Ok(pattern) => {
                self.search_regex = Some(pattern);
                self.search_regex_error = String::new();
            },
            Err(error) => {
                self.search_regex_error = error.message();
            },
        }
    }

    /// Compiles the pattern as typed and takes up the outcome: a pattern
    /// that compiles takes effect and clears the message; one that does
    /// not sets the message and leaves the pattern in effect as it was.
    pub fn update_search_regex(&mut self)
        ensures
            old(self)@.recompiles_to(final(self)@),
            compiles(old(self)@.search_string) ==> final(self)@.search_regex_error == Seq::<
                char,
            >::empty() && (final(self)@.search_regex matches Some(pattern) && pattern_text(pattern)
                == old(self)@.search_string),
            !compiles(old(self)@.search_string) ==> final(self)@.search_regex == old(
                self,
            )@.search_regex,
    {
        let outcome = match compile(self.search_string.as_str()) {
            Ok(pattern) => Ok(pattern),
            Err(error) => Err(classify(error)),
        };
        self.install_pattern(outcome);
    }

    /// Adds a character to the pattern as typed, selects the first row and
    /// compiles the pattern.
    pub fn push_search_char(&mut self, c: char)
        ensures
            (AppView {
                search_string: old(self)@.search_string.push(c),
                idx_visibility: 0,
                ..old(self)@
            }).recompiles_to(final(self)@),
            (AppView {
                search_string: old(self)@.search_string.push(c),
                idx_visibility: 0,
                ..old(self)@
            }).settles_pattern(final(self)@),
    {
        self.idx_visibility = 0;
        self.search_string.push(c);
        self.update_search_regex();
    }

    /// Takes the last character off the pattern as typed, selects the
    /// first row and compiles the pattern. Where the pattern is empty
    /// already, goes back to the visibility editor instead.
    pub fn pop_search_char(&mut self)
        ensures
            old(self)@.search_string.len() == 0 ==> final(self)@ == (AppView {
                mode: AppMode::EditVisibility,
                guidance: guidance_text(AppMode::EditVisibility),
                ..old(self)@
            }),
            old(self)@.search_string.len() > 0 ==> (AppView {
                search_string: old(self)@.search_string.drop_last(),
                idx_visibility: 0,
                ..old(self)@
            }).recompiles_to(final(self)@),
            old(self)@.search_string.len() > 0 ==> (AppView {
                search_string: old(self)@.search_string.drop_last(),
                idx_visibility: 0,
                ..old(self)@
            }).settles_pattern(final(self)@),
    {
        if self.search_string.as_str().is_empty() {
            self.mode_change(AppMode::EditVisibility);
        } else {
            self.idx_visibility = 0;
            self.search_string.pop();
            self.update_search_regex();
        }
    }

    /// Scrolls the trace up by `step` lines, as far as there are lines.
    pub fn scroll_up(&mut self, step: usize)
        ensures
            final(self)@ == (AppView {
                scroll: clamp_index(old(self)@.scroll - step, old(self)@.shown_lines()),
                ..old(self)@
            }),
    {
        let count = self.num_displayed_debug_info_lines();
        self.scroll = move_up(self.scroll, step, count);
    }

    /// Scrolls the trace down by `step` lines, as far as there are lines.
    pub fn scroll_down(&mut self, step: usize)
        ensures
            final(self)@ == (AppView {
                scroll: clamp_index(old(self)@.scroll + step, old(self)@.shown_lines()),
                ..old(self)@
            }),
    {
        let count = self.num_displayed_debug_info_lines();
        self.scroll = move_down(self.scroll, step, count);
    }

    /// Moves the selection up by `step` rows, as far as there are rows.
    pub fn idx_visibility_up(&mut self, step: usize)
        ensures
            final(self)@ == (AppView {
                idx_visibility: clamp_index(
                    old(self)@.idx_visibility - step,
                    old(self)@.rows().len(),
                ),
                ..old(self)@
            }),
            final(self)@.selection_in_range(),
    {
        let count = self.num_displayed_visibility_entries();
        self.idx_visibility = move_up(self.idx_visibility, step, count);
    }

    /// Moves the selection down by `step` rows, as far as there are rows.
    pub fn idx_visibility_down(&mut self, step: usize)
        ensures
            final(self)@ == (AppView {
                idx_visibility: clamp_index(
                    old(self)@.idx_visibility + step,
                    old(self)@.rows().len(),
                ),
                ..old(self)@
            }),
            final(self)@.selection_in_range(),
    {
        let count = self.num_displayed_visibility_entries();
        self.idx_visibility = move_down(self.idx_visibility, step, count);
    }
}

/// Compiling the pattern as typed settles the pattern in effect, and
/// changes nothing but the pattern in effect and the message.
pub proof fn lemma_pattern_in_effect(before: AppView, after: AppView)
    requires
        before.recompiles_to(after),
    ensures
        before.settles_pattern(after),
        after == (AppView {
            search_regex: after.search_regex,
            search_regex_error: after.search_regex_error,
            ..before
        }),
{
}

/// An index that was clamped lies in the list, and is 0 where the list is
/// empty.
pub proof fn lemma_clamp_index_in_range(target: int, count: nat)
    ensures
        count == 0 ==> clamp_index(target, count) == 0,
        count > 0 ==> clamp_index(target, count) < count,
        0 <= target < count ==> clamp_index(target, count) == target,
{
}

/// The index `step` rows above `index` in a list of `count` rows.
pub fn move_up(index: usize, step: usize, count: usize) -> (moved: usize)
    ensures
        moved == clamp_index(index - step, count as nat),
{
    if count == 0 || index <= step {
        0
    } else if index - step >= count {
        count - 1
    } else {
        index - step
    }
}

/// The index `step` rows below `index` in a list of `count` rows.
pub fn move_down(index: usize, step: usize, count: usize) -> (moved: usize)
    ensures
        moved == clamp_index(index + step, count as nat),
{
    if count == 0 {
        0
    } else if step >= count || index >= count - step {
        count - 1
    } else {
        index + step
    }
}

} // verus!
