use proctrack::app::{move_down, move_up, App, AppMode};
use proctrack::display::{RenderKind, RenderLine};
use proctrack::handler::{handle_key_events, operation_for, Operation, Request, FAST_STEP};
use proctrack::key::{Key, KeyCode, KeyModifiers};
use proctrack::keybinding::Binding;
use proctrack::pattern::PatternError;
use proctrack::typename::{TypeName, TypeNameStatic};
use proctrack::visibility_info::{VisibilityEntry, VisibilityInfo};
use std::path::PathBuf;

const TRACE: &str = "[DEBUG:func_enter(a:1)] main\n[DEBUG:value(a:2)] x = 1\n[DEBUG:func_enter(a:3)] App::new\n[DEBUG:func_exit(a:4)] App::new\n[DEBUG:func_enter(a:5)] App::tick\n[DEBUG:value(a:6)] y = 2\n[DEBUG:func_exit(a:7)] App::tick\n[DEBUG:func_exit(a:8)] main\n";

fn session(trace: &str) -> App {
    let info = VisibilityInfo::default().update_by_debug_info(trace);
    App::new(PathBuf::from("trace.log"), PathBuf::from("visibility.toml"), trace.to_string(), info)
}

fn bare() -> KeyModifiers {
    KeyModifiers { shift: false, control: false, alt: false, super_key: false, hyper: false, meta: false }
}

fn press(app: &mut App, code: KeyCode) -> Request {
    handle_key_events(Key { code, modifiers: bare() }, app)
}

fn type_text(app: &mut App, text: &str) {
    for c in text.chars() {
        assert_eq!(press(app, KeyCode::Char(c)), Request::Nothing);
    }
}

fn names(rows: Vec<VisibilityEntry>) -> Vec<String> {
    rows.into_iter().map(|row| row.func_name).collect()
}

#[test]
fn new_session_starts_in_the_trace_view() {
    let app = session(TRACE);
    assert!(app.running);
    assert_eq!(app.mode, AppMode::ViewDebug);
    assert_eq!(app.scroll, 0);
    assert_eq!(app.idx_visibility, 0);
    assert_eq!(app.search_string, "");
    assert!(app.search_regex.is_none());
    assert_eq!(app.search_regex_error, "");
    assert_eq!(app.debug_info, TRACE);
    assert_eq!(app.debug_info_file, PathBuf::from("trace.log"));
    assert_eq!(app.visibility_info_file, PathBuf::from("visibility.toml"));
    assert!(app.guidance.contains("Open Visibility Editor [v]"));
    assert_eq!(app.visibility_info.len(), 3);
}

#[test]
fn tick_changes_nothing() {
    let mut app = session(TRACE);
    app.scroll_down(2);
    app.tick();
    assert_eq!(app.scroll, 2);
    assert!(app.running);
    assert_eq!(app.mode, AppMode::ViewDebug);
}

#[test]
fn quit_keys_end_the_session_in_every_mode() {
    for mode in [AppMode::ViewDebug, AppMode::EditVisibility, AppMode::SearchVisibility] {
        let mut app = session(TRACE);
        app.mode_change(mode);
        assert_eq!(handle_key_events(Binding::Quit.key(), &mut app), Request::Nothing);
        assert!(!app.running);
        assert_eq!(app.mode, mode);
        let mut app = session(TRACE);
        app.mode_change(mode);
        assert_eq!(handle_key_events(Binding::QuitAlt.key(), &mut app), Request::Nothing);
        assert!(!app.running);
    }
}

#[test]
fn reload_key_asks_the_caller_to_reload() {
    for mode in [AppMode::ViewDebug, AppMode::EditVisibility, AppMode::SearchVisibility] {
        let mut app = session(TRACE);
        app.mode_change(mode);
        assert_eq!(handle_key_events(Binding::Reload.key(), &mut app), Request::Reload);
        assert!(app.running);
        assert_eq!(app.mode, mode);
        assert_eq!(app.debug_info, TRACE);
    }
}

#[test]
fn reload_reconciles_the_store_in_memory_and_keeps_the_rest() {
    let mut app = session(TRACE);
    app.mode_change(AppMode::EditVisibility);
    app.idx_visibility_down(2);
    app.scroll_down(3);
    handle_key_events(Binding::Toggle.key(), &mut app);
    assert!(!app.visibility_info.is_visible("main"));
    let trace = "[DEBUG:func_enter(a:1)] main\n[DEBUG:func_enter(a:1)] fresh\n";
    app.reload(trace.to_string());
    assert_eq!(app.debug_info, trace);
    assert_eq!(
        app.visibility_info.entries,
        vec![
            VisibilityEntry::new("fresh".to_string(), true),
            VisibilityEntry::new("main".to_string(), false),
        ]
    );
    assert_eq!(app.mode, AppMode::EditVisibility);
    assert_eq!(app.idx_visibility, 2);
    assert_eq!(app.scroll, 3);
    assert!(app.running);
    assert_eq!(app.search_string, "");
}

#[test]
fn reload_of_the_same_trace_keeps_every_flipped_flag() {
    let mut app = session(TRACE);
    app.visibility_info.toggle(0);
    app.visibility_info.toggle(2);
    let before = app.visibility_info.entries.clone();
    app.reload(TRACE.to_string());
    assert_eq!(app.visibility_info.entries, before);
    assert_eq!(app.debug_info, TRACE);
}

#[test]
fn records_reconcile_without_giving_up_the_store() {
    let old = VisibilityInfo::from(vec![
        VisibilityEntry::new("main".to_string(), false),
        VisibilityEntry::new("gone".to_string(), false),
    ]);
    let records = proctrack::trace::parse_trace("[DEBUG:func_enter(a:1)] main\n");
    let new = old.update_by_records(&records);
    assert_eq!(new.entries, vec![VisibilityEntry::new("main".to_string(), false)]);
    assert_eq!(old.len(), 2);
}

#[test]
fn modes_change_by_their_keys() {
    let mut app = session(TRACE);
    press(&mut app, KeyCode::Char('v'));
    assert_eq!(app.mode, AppMode::EditVisibility);
    assert!(app.guidance.contains("Close Visibility Editor [v]"));
    press(&mut app, KeyCode::Char('/'));
    assert_eq!(app.mode, AppMode::SearchVisibility);
    assert!(app.guidance.contains("Finish searching [Enter]"));
    press(&mut app, KeyCode::Enter);
    assert_eq!(app.mode, AppMode::EditVisibility);
    press(&mut app, KeyCode::Char('v'));
    assert_eq!(app.mode, AppMode::ViewDebug);
    assert!(app.guidance.contains("Open Visibility Editor [v]"));
}

#[test]
fn no_way_from_trace_view_to_search_box() {
    let mut app = session(TRACE);
    press(&mut app, KeyCode::Char('/'));
    assert_eq!(app.mode, AppMode::ViewDebug);
    press(&mut app, KeyCode::Enter);
    assert_eq!(app.mode, AppMode::ViewDebug);
    for code in [KeyCode::Char('/'), KeyCode::Char('x'), KeyCode::Tab, KeyCode::F(1)] {
        let key = Key { code, modifiers: bare() };
        assert_ne!(
            operation_for(AppMode::ViewDebug, key),
            Operation::ChangeMode(AppMode::SearchVisibility)
        );
        assert_ne!(
            operation_for(AppMode::SearchVisibility, key),
            Operation::ChangeMode(AppMode::ViewDebug)
        );
    }
}

#[test]
fn keys_ask_for_their_operations() {
    assert_eq!(operation_for(AppMode::ViewDebug, Binding::Up.key()), Operation::ScrollUp(1));
    assert_eq!(operation_for(AppMode::ViewDebug, Binding::Down.key()), Operation::ScrollDown(1));
    assert_eq!(
        operation_for(AppMode::ViewDebug, Binding::UpFast.key()),
        Operation::ScrollUp(FAST_STEP)
    );
    assert_eq!(
        operation_for(AppMode::ViewDebug, Binding::DownFast.key()),
        Operation::ScrollDown(20)
    );
    assert_eq!(
        operation_for(AppMode::ViewDebug, Binding::Top.key()),
        Operation::ScrollUp(usize::MAX)
    );
    assert_eq!(
        operation_for(AppMode::ViewDebug, Binding::Bottom.key()),
        Operation::ScrollDown(usize::MAX)
    );
    assert_eq!(operation_for(AppMode::ViewDebug, Binding::Toggle.key()), Operation::Nothing);
    assert_eq!(operation_for(AppMode::EditVisibility, Binding::Up.key()), Operation::SelectUp(1));
    assert_eq!(
        operation_for(AppMode::EditVisibility, Binding::DownFast.key()),
        Operation::SelectDown(20)
    );
    assert_eq!(
        operation_for(AppMode::EditVisibility, Binding::Bottom.key()),
        Operation::SelectDown(usize::MAX)
    );
    assert_eq!(operation_for(AppMode::EditVisibility, Binding::Toggle.key()), Operation::Toggle);
    assert_eq!(
        operation_for(AppMode::SearchVisibility, Binding::DeleteChar.key()),
        Operation::DeleteChar
    );
    assert_eq!(
        operation_for(AppMode::SearchVisibility, Binding::DeleteCharAlt.key()),
        Operation::DeleteChar
    );
    assert_eq!(
        operation_for(AppMode::SearchVisibility, Binding::Up.key()),
        Operation::PushChar('k')
    );
    assert_eq!(
        operation_for(AppMode::SearchVisibility, Binding::Bottom.key()),
        Operation::PushChar('G')
    );
    assert_eq!(
        operation_for(AppMode::SearchVisibility, Binding::UpFast.key()),
        Operation::Nothing
    );
    let alt_x = Key { code: KeyCode::Char('x'), modifiers: KeyModifiers { alt: true, ..bare() } };
    assert_eq!(operation_for(AppMode::SearchVisibility, alt_x), Operation::Nothing);
    let tab = Key { code: KeyCode::Tab, modifiers: bare() };
    assert_eq!(operation_for(AppMode::SearchVisibility, tab), Operation::Nothing);
    for mode in [AppMode::ViewDebug, AppMode::EditVisibility, AppMode::SearchVisibility] {
        assert_eq!(operation_for(mode, Binding::Quit.key()), Operation::Quit);
        assert_eq!(operation_for(mode, Binding::QuitAlt.key()), Operation::Quit);
        assert_eq!(operation_for(mode, Binding::Reload.key()), Operation::Reload);
    }
}

#[test]
fn scroll_is_held_to_the_shown_lines() {
    let mut app = session(TRACE);
    assert_eq!(app.num_displayed_debug_info_lines(), 5);
    press(&mut app, KeyCode::Char('k'));
    assert_eq!(app.scroll, 0);
    press(&mut app, KeyCode::Char('j'));
    assert_eq!(app.scroll, 1);
    handle_key_events(Binding::DownFast.key(), &mut app);
    assert_eq!(app.scroll, 4);
    press(&mut app, KeyCode::Char('j'));
    assert_eq!(app.scroll, 4);
    press(&mut app, KeyCode::Char('k'));
    assert_eq!(app.scroll, 3);
    handle_key_events(Binding::Top.key(), &mut app);
    assert_eq!(app.scroll, 0);
    handle_key_events(Binding::Bottom.key(), &mut app);
    assert_eq!(app.scroll, 4);
    handle_key_events(Binding::UpFast.key(), &mut app);
    assert_eq!(app.scroll, 0);
}

#[test]
fn scroll_of_empty_trace_stays_at_zero() {
    let mut app = session("");
    assert_eq!(app.num_displayed_debug_info_lines(), 0);
    handle_key_events(Binding::Down.key(), &mut app);
    assert_eq!(app.scroll, 0);
    handle_key_events(Binding::Bottom.key(), &mut app);
    assert_eq!(app.scroll, 0);
    handle_key_events(Binding::Up.key(), &mut app);
    assert_eq!(app.scroll, 0);
}

#[test]
fn scroll_comes_back_into_range_when_lines_are_hidden() {
    let mut app = session(TRACE);
    app.scroll_down(usize::MAX);
    assert_eq!(app.scroll, 4);
    app.visibility_info.toggle(1);
    assert_eq!(app.num_displayed_debug_info_lines(), 3);
    app.scroll_up(1);
    assert_eq!(app.scroll, 2);
}

#[test]
fn moves_are_clamped() {
    assert_eq!(move_down(0, 1, 0), 0);
    assert_eq!(move_down(7, 20, 0), 0);
    assert_eq!(move_down(0, 1, 1), 0);
    assert_eq!(move_down(3, 2, 10), 5);
    assert_eq!(move_down(8, 20, 10), 9);
    assert_eq!(move_down(9, usize::MAX, 10), 9);
    assert_eq!(move_down(usize::MAX, usize::MAX, 10), 9);
    assert_eq!(move_down(usize::MAX, 1, usize::MAX), usize::MAX - 1);
    assert_eq!(move_up(0, 1, 10), 0);
    assert_eq!(move_up(5, 2, 10), 3);
    assert_eq!(move_up(5, 20, 10), 0);
    assert_eq!(move_up(50, 20, 10), 9);
    assert_eq!(move_up(50, 0, 0), 0);
    assert_eq!(move_up(usize::MAX, usize::MAX, 3), 0);
}

#[test]
fn selection_is_held_to_the_filtered_list() {
    let mut app = session(TRACE);
    press(&mut app, KeyCode::Char('v'));
    assert_eq!(app.num_displayed_visibility_entries(), 3);
    handle_key_events(Binding::Down.key(), &mut app);
    assert_eq!(app.idx_visibility, 1);
    handle_key_events(Binding::DownFast.key(), &mut app);
    assert_eq!(app.idx_visibility, 2);
    handle_key_events(Binding::DownFast.key(), &mut app);
    assert_eq!(app.idx_visibility, 2);
    handle_key_events(Binding::Up.key(), &mut app);
    assert_eq!(app.idx_visibility, 1);
    handle_key_events(Binding::Top.key(), &mut app);
    assert_eq!(app.idx_visibility, 0);
    handle_key_events(Binding::Bottom.key(), &mut app);
    assert_eq!(app.idx_visibility, 2);
    handle_key_events(Binding::UpFast.key(), &mut app);
    assert_eq!(app.idx_visibility, 0);
}

#[test]
fn selection_in_empty_filtered_list_is_zero_and_toggle_does_nothing() {
    let mut app = session(TRACE);
    press(&mut app, KeyCode::Char('v'));
    press(&mut app, KeyCode::Char('/'));
    type_text(&mut app, "nothing matches this");
    press(&mut app, KeyCode::Enter);
    assert_eq!(app.mode, AppMode::EditVisibility);
    assert_eq!(app.num_displayed_visibility_entries(), 0);
    handle_key_events(Binding::DownFast.key(), &mut app);
    assert_eq!(app.idx_visibility, 0);
    handle_key_events(Binding::Bottom.key(), &mut app);
    assert_eq!(app.idx_visibility, 0);
    let before = app.visibility_info.entries.clone();
    handle_key_events(Binding::Toggle.key(), &mut app);
    assert_eq!(app.visibility_info.entries, before);
}

#[test]
fn toggle_hides_the_selected_function_and_its_subtree() {
    let mut app = session(TRACE);
    press(&mut app, KeyCode::Char('v'));
    handle_key_events(Binding::Bottom.key(), &mut app);
    handle_key_events(Binding::Toggle.key(), &mut app);
    assert_eq!(
        app.visibility_info.entries,
        vec![
            VisibilityEntry::new("App::new".to_string(), true),
            VisibilityEntry::new("App::tick".to_string(), true),
            VisibilityEntry::new("main".to_string(), false),
        ]
    );
    assert_eq!(app.displayed_debug_info(), vec![]);
    assert_eq!(app.num_displayed_debug_info_lines(), 0);
    handle_key_events(Binding::Toggle.key(), &mut app);
    assert_eq!(app.num_displayed_debug_info_lines(), 5);
    assert_eq!(
        app.displayed_debug_info()[2],
        RenderLine { depth: 1, kind: RenderKind::FunctionLabel("App::new".to_string()) }
    );
}

#[test]
fn toggle_flips_the_row_of_the_filtered_list() {
    let mut app = session(TRACE);
    press(&mut app, KeyCode::Char('v'));
    press(&mut app, KeyCode::Char('/'));
    type_text(&mut app, "^ma");
    press(&mut app, KeyCode::Enter);
    assert_eq!(names(app.displayed_visibility_entries()), vec!["main"]);
    handle_key_events(Binding::Toggle.key(), &mut app);
    assert!(!app.visibility_info.is_visible("main"));
    assert!(app.visibility_info.is_visible("App::new"));
}

#[test]
fn typing_changes_the_pattern_and_selects_the_first_row() {
    let mut app = session(TRACE);
    press(&mut app, KeyCode::Char('v'));
    handle_key_events(Binding::Bottom.key(), &mut app);
    assert_eq!(app.idx_visibility, 2);
    press(&mut app, KeyCode::Char('/'));
    assert_eq!(app.idx_visibility, 2);
    press(&mut app, KeyCode::Char('n'));
    assert_eq!(app.idx_visibility, 0);
    assert_eq!(app.search_string, "n");
    assert_eq!(app.num_displayed_visibility_entries(), 2);
    assert_eq!(names(app.displayed_visibility_entries()), vec!["App::new", "main"]);
    type_text(&mut app, "e");
    assert_eq!(app.search_string, "ne");
    assert_eq!(names(app.displayed_visibility_entries()), vec!["App::new"]);
    assert_eq!(app.search_regex.as_ref().unwrap().as_str(), "ne");
}

#[test]
fn typing_with_shift_types_the_character() {
    let mut app = session(TRACE);
    app.mode_change(AppMode::SearchVisibility);
    let shift_a = Key { code: KeyCode::Char('A'), modifiers: KeyModifiers { shift: true, ..bare() } };
    handle_key_events(shift_a, &mut app);
    assert_eq!(app.search_string, "A");
    assert_eq!(names(app.displayed_visibility_entries()), vec!["App::new", "App::tick"]);
    let control_a = Key { code: KeyCode::Char('a'), modifiers: KeyModifiers { control: true, ..bare() } };
    handle_key_events(control_a, &mut app);
    assert_eq!(app.search_string, "A");
}

#[test]
fn deleting_changes_the_pattern_and_selects_the_first_row() {
    let mut app = session(TRACE);
    app.mode_change(AppMode::SearchVisibility);
    type_text(&mut app, "App");
    app.mode_change(AppMode::EditVisibility);
    app.idx_visibility_down(1);
    assert_eq!(app.idx_visibility, 1);
    app.mode_change(AppMode::SearchVisibility);
    press(&mut app, KeyCode::Backspace);
    assert_eq!(app.search_string, "Ap");
    assert_eq!(app.idx_visibility, 0);
    handle_key_events(Binding::DeleteCharAlt.key(), &mut app);
    assert_eq!(app.search_string, "A");
    assert_eq!(app.mode, AppMode::SearchVisibility);
}

#[test]
fn deleting_from_empty_pattern_leaves_the_search_box() {
    let mut app = session(TRACE);
    app.mode_change(AppMode::SearchVisibility);
    type_text(&mut app, "m");
    press(&mut app, KeyCode::Backspace);
    assert_eq!(app.search_string, "");
    assert_eq!(app.mode, AppMode::SearchVisibility);
    assert_eq!(app.num_displayed_visibility_entries(), 3);
    press(&mut app, KeyCode::Backspace);
    assert_eq!(app.search_string, "");
    assert_eq!(app.mode, AppMode::EditVisibility);
}

#[test]
fn leaving_the_search_box_keeps_the_pattern() {
    let mut app = session(TRACE);
    app.mode_change(AppMode::SearchVisibility);
    type_text(&mut app, "tick");
    press(&mut app, KeyCode::Enter);
    assert_eq!(app.mode, AppMode::EditVisibility);
    assert_eq!(app.search_string, "tick");
    assert_eq!(names(app.displayed_visibility_entries()), vec!["App::tick"]);
    press(&mut app, KeyCode::Char('/'));
    type_text(&mut app, "$");
    assert_eq!(app.search_string, "tick$");
}

#[test]
fn pattern_that_does_not_compile_leaves_the_last_one_in_effect() {
    let mut app = session(TRACE);
    app.mode_change(AppMode::SearchVisibility);
    type_text(&mut app, "tick");
    assert_eq!(app.search_regex_error, "");
    type_text(&mut app, "(");
    assert_eq!(app.search_string, "tick(");
    assert!(!app.search_regex_error.is_empty());
    assert!(app.search_regex_error.contains("unclosed group"));
    assert_eq!(names(app.displayed_visibility_entries()), vec!["App::tick"]);
    type_text(&mut app, "x");
    assert_eq!(app.search_string, "tick(x");
    assert!(!app.search_regex_error.is_empty());
    assert_eq!(names(app.displayed_visibility_entries()), vec!["App::tick"]);
    type_text(&mut app, ")?");
    assert_eq!(app.search_regex_error, "");
    assert_eq!(app.search_regex.as_ref().unwrap().as_str(), "tick(x)?");
}

#[test]
fn compiling_settles_the_pattern_in_effect() {
    let mut app = session(TRACE);
    app.search_string = "^App".to_string();
    app.update_search_regex();
    assert_eq!(app.search_regex_error, "");
    assert_eq!(app.search_regex.as_ref().unwrap().as_str(), "^App");
    assert_eq!(app.num_displayed_visibility_entries(), 2);
    app.search_string = "^App[".to_string();
    app.update_search_regex();
    assert!(!app.search_regex_error.is_empty());
    assert_eq!(app.search_regex.as_ref().unwrap().as_str(), "^App");
    assert_eq!(app.num_displayed_visibility_entries(), 2);
    app.search_string = "".to_string();
    app.update_search_regex();
    assert_eq!(app.search_regex_error, "");
    assert_eq!(app.search_regex.as_ref().unwrap().as_str(), "");
    assert_eq!(app.num_displayed_visibility_entries(), 3);
}

#[test]
fn pattern_too_big_is_said_so() {
    let mut app = session(TRACE);
    app.search_string = "\\w{1000}".to_string();
    app.update_search_regex();
    assert_eq!(app.search_regex_error, "compiled too big");
    assert!(app.search_regex.is_none());
    assert_eq!(app.num_displayed_visibility_entries(), 3);
}

#[test]
fn outcome_of_compiling_is_taken_up() {
    let mut app = session(TRACE);
    app.install_pattern(Err(PatternError::Other));
    assert_eq!(app.search_regex_error, "Some error");
    assert!(app.search_regex.is_none());
    app.install_pattern(Ok(regex::Regex::new("new$").unwrap()));
    assert_eq!(app.search_regex_error, "");
    assert_eq!(names(app.displayed_visibility_entries()), vec!["App::new"]);
    app.install_pattern(Err(PatternError::Syntax("bad".to_string())));
    assert_eq!(app.search_regex_error, "bad");
    assert_eq!(names(app.displayed_visibility_entries()), vec!["App::new"]);
    app.install_pattern(Err(PatternError::CompiledTooBig(1)));
    assert_eq!(app.search_regex_error, "compiled too big");
}

#[test]
fn unbound_keys_change_nothing() {
    let mut app = session(TRACE);
    assert_eq!(press(&mut app, KeyCode::Char('x')), Request::Nothing);
    assert_eq!(press(&mut app, KeyCode::F(5)), Request::Nothing);
    assert_eq!(app.mode, AppMode::ViewDebug);
    assert_eq!(app.scroll, 0);
    app.mode_change(AppMode::EditVisibility);
    assert_eq!(press(&mut app, KeyCode::Char('x')), Request::Nothing);
    assert_eq!(app.mode, AppMode::EditVisibility);
    assert_eq!(app.idx_visibility, 0);
    assert_eq!(app.search_string, "");
}

#[test]
fn guidance_follows_the_mode() {
    let mut app = session(TRACE);
    app.mode = AppMode::SearchVisibility;
    app.update_guidance();
    assert_eq!(app.guidance, " Quit [Esc, Ctrl-c], Reload [Ctrl-r], Finish searching [Enter]");
}

#[test]
fn session_names_its_type() {
    assert_eq!(session("").type_name_of(), "App");
    assert_eq!(App::type_name_static(), "App");
}
