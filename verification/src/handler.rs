// What a key press does in each mode, and the line of guidance that tells
// the user which keys are bound.

use crate::app::{clamp_index, App, AppMode, AppView};
use crate::key::{key_label, Key, KeyCode, KeyModifiers};
use crate::keybinding::Binding;
use vstd::prelude::*;
use vstd::string::*;

verus! {

/// A hint that names one key: `lead`, the key's label, `tail`.
pub open spec fn one_key(lead: Seq<char>, b: Binding, tail: Seq<char>) -> Seq<char> {
    lead + key_label(b.key()) + tail
}

/// A hint that names two keys: `lead`, the first label, `sep`, the second
/// label, `tail`.
pub open spec fn two_keys(
    lead: Seq<char>,
    first: Binding,
    sep: Seq<char>,
    second: Binding,
    tail: Seq<char>,
) -> Seq<char> {
    lead + key_label(first.key()) + sep + key_label(second.key()) + tail
}

/// The hints that are shown in every mode: how to quit and how to reload.
pub open spec fn common_hint() -> Seq<char> {
    two_keys(" Quit ["@, Binding::Quit, ", "@, Binding::QuitAlt, "],"@) + one_key(
        " Reload ["@,
        Binding::Reload,
        "],"@,
    )
}

/// The hints on how to leave the mode.
pub open spec fn mode_hint(mode: AppMode) -> Seq<char> {
    match mode {
        AppMode::ViewDebug => one_key(" Open Visibility Editor ["@, Binding::OpenEditor, "]\n"@),
        AppMode::EditVisibility => one_key(
            " Close Visibility Editor ["@,
            Binding::CloseEditor,
            "],"@,
        ) + one_key(" Search ["@, Binding::StartSearch, "]\n"@),
        AppMode::SearchVisibility => one_key(" Finish searching ["@, Binding::FinishSearch, "]"@),
    }
}

/// The hints on how to move, in the modes that have something to move in.
pub open spec fn navigation_hint(mode: AppMode) -> Seq<char> {
    match mode {
        AppMode::SearchVisibility => Seq::<char>::empty(),
        _ => two_keys(" Up/Down ["@, Binding::Up, "/"@, Binding::Down, "],"@) + two_keys(
            " Up/Down Fast ["@,
            Binding::UpFast,
            "/"@,
            Binding::DownFast,
            "],"@,
        ) + two_keys(" Top/Bottom ["@, Binding::Top, "/"@, Binding::Bottom, "]"@),
    }
}

/// The hint on how to flip an entry, in the visibility editor only.
pub open spec fn toggle_hint(mode: AppMode) -> Seq<char> {
    match mode {
        AppMode::EditVisibility => one_key(", Change Visibility ["@, Binding::Toggle, "]"@),
        _ => Seq::<char>::empty(),
    }
}

/// The guidance shown in a mode: the common hints, then the mode's own.
pub open spec fn guidance_text(mode: AppMode) -> Seq<char> {
    common_hint() + mode_hint(mode) + navigation_hint(mode) + toggle_hint(mode)
}

proof fn lemma_concat_three(o: Seq<char>, a: Seq<char>, b: Seq<char>, c: Seq<char>)
    ensures
        o + a + b + c == o + (a + b + c),
        o + a + b == o + (a + b),
{
    assert(o + a + b + c =~= o + (a + b + c));
    assert(o + a + b =~= o + (a + b));
}

proof fn lemma_concat_five(
    o: Seq<char>,
    a: Seq<char>,
    b: Seq<char>,
    c: Seq<char>,
    d: Seq<char>,
    e: Seq<char>,
)
    ensures
        o + a + b + c + d + e == o + (a + b + c + d + e),
        o + a + b + c + d == o + (a + b + c + d),
{
    assert(o + a + b + c + d + e =~= o + (a + b + c + d + e));
    assert(o + a + b + c + d =~= o + (a + b + c + d));
}

fn push_one_key(out: &mut String, lead: &str, b: Binding, tail: &str)
    ensures
        final(out)@ == old(out)@ + one_key(lead@, b, tail@),
{
    out.append(lead);
    b.key().push_label(out);
    out.append(tail);
    proof {
        lemma_concat_three(old(out)@, lead@, key_label(b.key()), tail@);
    }
}

fn push_two_keys(
    out: &mut String,
    lead: &str,
    first: Binding,
    sep: &str,
    second: Binding,
    tail: &str,
)
    ensures
        final(out)@ == old(out)@ + two_keys(lead@, first, sep@, second, tail@),
{
    out.append(lead);
    first.key().push_label(out);
    out.append(sep);
    second.key().push_label(out);
    out.append(tail);
    proof {
        lemma_concat_five(
            old(out)@,
            lead@,
            key_label(first.key()),
            sep@,
            key_label(second.key()),
            tail@,
        );
    }
}

fn push_mode_hint(out: &mut String, mode: AppMode)
    ensures
        final(out)@ == old(out)@ + mode_hint(mode),
{
    match mode {
        AppMode::ViewDebug => {
            push_one_key(out, " Open Visibility Editor [", Binding::OpenEditor, "]\n");
        },
        AppMode::EditVisibility => {
            push_one_key(out, " Close Visibility Editor [", Binding::CloseEditor, "],");
            push_one_key(out, " Search [", Binding::StartSearch, "]\n");
            proof {
                lemma_concat_three(
                    old(out)@,
                    one_key(" Close Visibility Editor ["@, Binding::CloseEditor, "],"@),
                    one_key(" Search ["@, Binding::StartSearch, "]\n"@),
                    Seq::empty(),
                );
            }
        },
        AppMode::SearchVisibility => {
            push_one_key(out, " Finish searching [", Binding::FinishSearch, "]");
        },
    }
}

fn push_navigation_hint(out: &mut String, mode: AppMode)
    ensures
        final(out)@ == old(out)@ + navigation_hint(mode),
{
    match mode {
        AppMode::SearchVisibility => {
            assert(out@ =~= old(out)@ + navigation_hint(mode));
        },
        _ => {
            push_two_keys(out, " Up/Down [", Binding::Up, "/", Binding::Down, "],");
            push_two_keys(out, " Up/Down Fast [", Binding::UpFast, "/", Binding::DownFast, "],");
            push_two_keys(out, " Top/Bottom [", Binding::Top, "/", Binding::Bottom, "]");
            proof {
                lemma_concat_three(
                    old(out)@,
                    two_keys(" Up/Down ["@, Binding::Up, "/"@, Binding::Down, "],"@),
                    two_keys(" Up/Down Fast ["@, Binding::UpFast, "/"@, Binding::DownFast, "],"@),
                    two_keys(" Top/Bottom ["@, Binding::Top, "/"@, Binding::Bottom, "]"@),
                );
            }
        },
    }
}

fn push_toggle_hint(out: &mut String, mode: AppMode)
    ensures
        final(out)@ == old(out)@ + toggle_hint(mode),
{
    match mode {
        AppMode::EditVisibility => {
            push_one_key(out, ", Change Visibility [", Binding::Toggle, "]");
        },
        _ => {
            assert(out@ =~= old(out)@ + toggle_hint(mode));
        },
    }
}

/// Replaces `guidance` by the guidance of `app_mode`.
pub fn set_guidance(app_mode: AppMode, guidance: &mut String)
    ensures
        final(guidance)@ == guidance_text(app_mode),
{
    *guidance = String::new();
    push_two_keys(guidance, " Quit [", Binding::Quit, ", ", Binding::QuitAlt, "],");
    push_one_key(guidance, " Reload [", Binding::Reload, "],");
    push_mode_hint(guidance, app_mode);
    push_navigation_hint(guidance, app_mode);
    push_toggle_hint(guidance, app_mode);
    proof {
        let a = two_keys(" Quit ["@, Binding::Quit, ", "@, Binding::QuitAlt, "],"@);
        let b = one_key(" Reload ["@, Binding::Reload, "],"@);
        lemma_concat_five(
            Seq::empty(),
            a,
            b,
            mode_hint(app_mode),
            navigation_hint(app_mode),
            toggle_hint(app_mode),
        );
        assert(Seq::<char>::empty() + guidance_text(app_mode) =~= guidance_text(app_mode));
    }
}

/// The number of rows that the fast keys move by.
pub const FAST_STEP: usize = 20;

/// What a key press asks for.
#[derive(Clone, Copy, Debug, PartialEq, Eq, Structural)]
pub enum Operation {
    /// End the session.
    Quit,
    /// Read the trace again and reconcile the store with it.
    Reload,
    /// Go over to another mode.
    ChangeMode(AppMode),
    /// Scroll the trace up by so many lines.
    ScrollUp(usize),
    /// Scroll the trace down by so many lines.
    ScrollDown(usize),
    /// Move the selection up by so many rows.
    SelectUp(usize),
    /// Move the selection down by so many rows.
    SelectDown(usize),
    /// Flip the visibility of the selected row.
    Toggle,
    /// Add a character to the search pattern.
    PushChar(char),
    /// Take the last character off the search pattern.
    DeleteChar,
    /// Nothing: the key is not bound in the mode.
    Nothing,
}

/// What the caller of the handler has to do after a key press.
#[derive(Clone, Copy, Debug, PartialEq, Eq, Structural)]
pub enum Request {
    /// Nothing.
    Nothing,
    /// Read the trace again, and hand it to `App::reload`, which
    /// reconciles the store in memory with it.
    Reload,
}

/// Whether a character key with these modifiers types the character: it
/// does with none held, and with shift alone.
pub open spec fn types_char(modifiers: KeyModifiers) -> bool {
    !modifiers.control && !modifiers.alt && !modifiers.super_key && !modifiers.hyper
        && !modifiers.meta
}

/// How far a key moves in a list, and in which direction: `Some` of the
/// step and whether it goes down, for the six keys that move.
pub open spec fn movement_of(key: Key) -> Option<(usize, bool)> {
    if key == Binding::Up.key() {
        Some((1usize, false))
    } else if key == Binding::Down.key() {
        Some((1usize, true))
    } else if key == Binding::UpFast.key() {
        Some((FAST_STEP, false))
    } else if key == Binding::DownFast.key() {
        Some((FAST_STEP, true))
    } else if key == Binding::Top.key() {
        Some((usize::MAX, false))
    } else if key == Binding::Bottom.key() {
        Some((usize::MAX, true))
    } else {
        None
    }
}

/// What `key` asks for in `mode`. Quitting and reloading are asked for in
/// every mode, and come first; the rest is each mode's own. There is no
/// way from the trace view to the search box, nor back, but through the
/// visibility editor.
pub open spec fn operation_of(mode: AppMode, key: Key) -> Operation {
    if key == Binding::Quit.key() || key == Binding::QuitAlt.key() {
        Operation::Quit
    } else if key == Binding::Reload.key() {
        Operation::Reload
    } else {
        match mode {
            AppMode::ViewDebug => if key == Binding::OpenEditor.key() {
                Operation::ChangeMode(AppMode::EditVisibility)
            } else {
                match movement_of(key) {
                    Some((step, true)) => Operation::ScrollDown(step),
                    Some((step, false)) => Operation::ScrollUp(step),
                    None => Operation::Nothing,
                }
            },
            AppMode::EditVisibility => if key == Binding::CloseEditor.key() {
                Operation::ChangeMode(AppMode::ViewDebug)
            } else if key == Binding::StartSearch.key() {
                Operation::ChangeMode(AppMode::SearchVisibility)
            } else if key == Binding::Toggle.key() {
                Operation::Toggle
            } else {
                match movement_of(key) {
                    Some((step, true)) => Operation::SelectDown(step),
                    Some((step, false)) => Operation::SelectUp(step),
                    None => Operation::Nothing,
                }
            },
            AppMode::SearchVisibility => if key == Binding::FinishSearch.key() {
                Operation::ChangeMode(AppMode::EditVisibility)
            } else if key == Binding::DeleteChar.key() || key == Binding::DeleteCharAlt.key() {
                Operation::DeleteChar
            } else {
                match key.code {
                    KeyCode::Char(c) => if types_char(key.modifiers) {
                        Operation::PushChar(c)
                    } else {
                        Operation::Nothing
                    },
                    _ => Operation::Nothing,
                }
            },
        }
    }
}

/// Whether the state `after` can follow the state `before` when
/// `operation` is carried out.
pub open spec fn follows(before: AppView, operation: Operation, after: AppView) -> bool {
    match operation {
        Operation::Quit => after == (AppView { running: false, ..before }),
        Operation::Reload => after == before,
        Operation::ChangeMode(mode) => after == (AppView {
            mode,
            guidance: guidance_text(mode),
            ..before
        }),
        Operation::ScrollUp(step) => after == (AppView {
            scroll: clamp_index(before.scroll - step, before.shown_lines()),
            ..before
        }),
        Operation::ScrollDown(step) => after == (AppView {
            scroll: clamp_index(before.scroll + step, before.shown_lines()),
            ..before
        }),
        Operation::SelectUp(step) => after == (AppView {
            idx_visibility: clamp_index(before.idx_visibility - step, before.rows().len()),
            ..before
        }),
        Operation::SelectDown(step) => after == (AppView {
            idx_visibility: clamp_index(before.idx_visibility + step, before.rows().len()),
            ..before
        }),
        Operation::Toggle => after == before.toggled(),
        Operation::PushChar(c) => {
            let typed = AppView {
                search_string: before.search_string.push(c),
                idx_visibility: 0,
                ..before
            };
            typed.recompiles_to(after) && typed.settles_pattern(after)
        },
        Operation::DeleteChar => if before.search_string.len() == 0 {
            after == (AppView {
                mode: AppMode::EditVisibility,
                guidance: guidance_text(AppMode::EditVisibility),
                ..before
            })
        } else {
            let typed = AppView {
                search_string: before.search_string.drop_last(),
                idx_visibility: 0,
                ..before
            };
            typed.recompiles_to(after) && typed.settles_pattern(after)
        },
        Operation::Nothing => after == before,
    }
}

/// No key leads from the trace view to the search box, nor from the search
/// box to the trace view.
pub proof fn lemma_no_way_between_view_and_search(before: AppView, key: Key, after: AppView)
    requires
        follows(before, operation_of(before.mode, key), after),
    ensures
        before.mode == AppMode::ViewDebug ==> after.mode != AppMode::SearchVisibility,
        before.mode == AppMode::SearchVisibility ==> after.mode != AppMode::ViewDebug,
{
}

/// A key that changes the search pattern selects the first row.
pub proof fn lemma_pattern_change_selects_first_row(before: AppView, key: Key, after: AppView)
    requires
        follows(before, operation_of(before.mode, key), after),
        after.search_string != before.search_string,
    ensures
        after.idx_visibility == 0,
{
}

/// Leaving the search box keeps the pattern as typed, the pattern in
/// effect and the selection.
pub proof fn lemma_leaving_search_keeps_pattern(before: AppView, after: AppView)
    requires
        follows(before, Operation::ChangeMode(AppMode::EditVisibility), after),
    ensures
        after.search_string == before.search_string,
        after.search_regex == before.search_regex,
        after.idx_visibility == before.idx_visibility,
{
}

/// Moving the selection leaves it on a row of the filtered list, however
/// large the step and wherever it was; in an empty list it is 0.
pub proof fn lemma_selection_stays_in_list(
    before: AppView,
    step: usize,
    down: bool,
    after: AppView,
)
    requires
        follows(
            before,
            if down {
                Operation::SelectDown(step)
            } else {
                Operation::SelectUp(step)
            },
            after,
        ),
    ensures
        after.rows() == before.rows(),
        after.selection_in_range(),
{
}

/// Flipping the selected row of an empty list, or with the selection
/// beyond the list, changes nothing.
pub proof fn lemma_toggle_beyond_list_changes_nothing(before: AppView, after: AppView)
    requires
        follows(before, Operation::Toggle, after),
        before.idx_visibility >= before.rows().len(),
    ensures
        after == before,
{
}

fn movement_for(key: Key) -> (movement: Option<(usize, bool)>)
    ensures
        movement == movement_of(key),
{
    if key == Binding::Up.key() {
        Some((1usize, false))
    } else if key == Binding::Down.key() {
        Some((1usize, true))
    } else if key == Binding::UpFast.key() {
        Some((FAST_STEP, false))
    } else if key == Binding::DownFast.key() {
        Some((FAST_STEP, true))
    } else if key == Binding::Top.key() {
        Some((usize::MAX, false))
    } else if key == Binding::Bottom.key() {
        Some((usize::MAX, true))
    } else {
        None
    }
}

/// What `key` asks for in `mode`.
pub fn operation_for(mode: AppMode, key: Key) -> (operation: Operation)
    ensures
        operation == operation_of(mode, key),
{
    if key == Binding::Quit.key() || key == Binding::QuitAlt.key() {
        return Operation::Quit;
    }
    if key == Binding::Reload.key() {
        return Operation::Reload;
    }
    match mode {
        AppMode::ViewDebug => {
            if key == Binding::OpenEditor.key() {
                Operation::ChangeMode(AppMode::EditVisibility)
            } else {
                match movement_for(key) {
                    Some((step, true)) => Operation::ScrollDown(step),
                    Some((step, false)) => Operation::ScrollUp(step),
                    None => Operation::Nothing,
                }
            }
        },
        AppMode::EditVisibility => {
            if key == Binding::CloseEditor.key() {
                Operation::ChangeMode(AppMode::ViewDebug)
            } else if key == Binding::StartSearch.key() {
                Operation::ChangeMode(AppMode::SearchVisibility)
            } else if key == Binding::Toggle.key() {
                Operation::Toggle
            } else {
                match movement_for(key) {
                    Some((step, true)) => Operation::SelectDown(step),
                    Some((step, false)) => Operation::SelectUp(step),
                    None => Operation::Nothing,
                }
            }
        },
        AppMode::SearchVisibility => {
            if key == Binding::FinishSearch.key() {
                Operation::ChangeMode(AppMode::EditVisibility)
            } else if key == Binding::DeleteChar.key() || key == Binding::DeleteCharAlt.key() {
                Operation::DeleteChar
            } else {
                let m = key.modifiers;
                match key.code {
                    KeyCode::Char(c) => {
                        if !m.control && !m.alt && !m.super_key && !m.hyper && !m.meta {
                            Operation::PushChar(c)
                        } else {
                            Operation::Nothing
                        }
                    },
                    _ => Operation::Nothing,
                }
            }
        },
    }
}

/// Carries out what `key` asks for in the mode of `app`, and says what is
/// left for the caller to do. To read files is the caller's part: on a
/// request to reload the state is as it was.
pub fn handle_key_events(key: Key, app: &mut App) -> (request: Request)
    ensures
        follows(old(app)@, operation_of(old(app)@.mode, key), final(app)@),
        request == Request::Reload <==> operation_of(old(app)@.mode, key) == Operation::Reload,
        final(app)@.search_string != old(app)@.search_string ==> final(app)@.idx_visibility == 0,
{
    match operation_for(app.mode, key) {
        Operation::Quit => {
            app.quit();
            Request::Nothing
        },
        Operation::Reload => Request::Reload,
        Operation::ChangeMode(mode) => {
            app.mode_change(mode);
            Request::Nothing
        },
        Operation::ScrollUp(step) => {
            app.scroll_up(step);
            Request::Nothing
        },
        Operation::ScrollDown(step) => {
            app.scroll_down(step);
            Request::Nothing
        },
        Operation::SelectUp(step) => {
            app.idx_visibility_up(step);
            Request::Nothing
        },
        Operation::SelectDown(step) => {
            app.idx_visibility_down(step);
            Request::Nothing
        },
        Operation::Toggle => {
            app.update_visibility();
            Request::Nothing
        },
        Operation::PushChar(c) => {
            app.push_search_char(c);
            Request::Nothing
        },
        Operation::DeleteChar => {
            app.pop_search_char();
            Request::Nothing
        },
        Operation::Nothing => Request::Nothing,
    }
}

} // verus!
