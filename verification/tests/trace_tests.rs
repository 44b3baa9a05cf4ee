use proctrack::display::{count_visible_lines, filter, RenderKind, RenderLine};
use proctrack::trace::{parse_line, parse_trace, TraceLine};
use proctrack::visibility_info::{VisibilityEntry, VisibilityInfo};

fn info(entries: &[(&str, bool)]) -> VisibilityInfo {
    VisibilityInfo::from(
        entries
            .iter()
            .map(|(name, flag)| VisibilityEntry::new(name.to_string(), *flag))
            .collect::<Vec<VisibilityEntry>>(),
    )
}

fn function(depth: usize, name: &str) -> RenderLine {
    RenderLine { depth, kind: RenderKind::FunctionLabel(name.to_string()) }
}

fn value(depth: usize, text: &str) -> RenderLine {
    RenderLine { depth, kind: RenderKind::ValueLabel(text.to_string()) }
}

#[test]
fn enter_line_names_last_word() {
    assert_eq!(
        parse_line("[DEBUG:func_enter(src/main.rs:17)] main"),
        Some(TraceLine::Enter("main".to_string()))
    );
    assert_eq!(
        parse_line("[DEBUG:func_enter(src/a.rs:3)] Cli::run  \t"),
        Some(TraceLine::Enter("Cli::run".to_string()))
    );
}

#[test]
fn enter_line_without_name_takes_marker_as_word() {
    assert_eq!(
        parse_line("[DEBUG:func_enter(src/main.rs:17)]"),
        Some(TraceLine::Enter("[DEBUG:func_enter(src/main.rs:17)]".to_string()))
    );
}

#[test]
fn exit_line_is_exit_whatever_its_name() {
    assert_eq!(parse_line("[DEBUG:func_exit(src/main.rs:17)] main"), Some(TraceLine::Exit));
    assert_eq!(parse_line("[DEBUG:func_exit"), Some(TraceLine::Exit));
}

#[test]
fn value_line_loses_its_marker() {
    assert_eq!(
        parse_line("[DEBUG:value(src/main.rs:20)] x = 3"),
        Some(TraceLine::Value("x = 3".to_string()))
    );
}

#[test]
fn value_line_is_cut_at_first_close() {
    assert_eq!(
        parse_line("[DEBUG:value(src/main.rs:20)] v = A { p: [(1, 2)] }"),
        Some(TraceLine::Value("v = A { p: [(1, 2)] }".to_string()))
    );
}

#[test]
fn value_line_with_incomplete_marker_is_shown_whole() {
    assert_eq!(
        parse_line("[DEBUG:value(src/main.rs:20) x = 3"),
        Some(TraceLine::Value("[DEBUG:value(src/main.rs:20) x = 3".to_string()))
    );
    assert_eq!(
        parse_line("[DEBUG:values)] x"),
        Some(TraceLine::Value("[DEBUG:values)] x".to_string()))
    );
}

#[test]
fn other_lines_are_no_records() {
    assert_eq!(parse_line("Hello."), None);
    assert_eq!(parse_line(""), None);
    assert_eq!(parse_line(" [DEBUG:func_enter(a:1)] f"), None);
    assert_eq!(parse_line("[DEBUG:func_ente"), None);
}

#[test]
fn trace_splits_at_line_breaks() {
    let text = "[DEBUG:func_enter(a:1)] f\r\nnoise\n[DEBUG:value(a:2)] x = 1\n[DEBUG:func_exit(a:3)] f";
    assert_eq!(
        parse_trace(text),
        vec![
            TraceLine::Enter("f".to_string()),
            TraceLine::Value("x = 1".to_string()),
            TraceLine::Exit,
        ]
    );
}

#[test]
fn trace_keeps_carriage_return_of_unfinished_last_line() {
    assert_eq!(
        parse_trace("[DEBUG:value(a:2)] x = 1\r"),
        vec![TraceLine::Value("x = 1\r".to_string())]
    );
    assert_eq!(
        parse_trace("[DEBUG:value(a:2)] x = 1\r\n"),
        vec![TraceLine::Value("x = 1".to_string())]
    );
}

#[test]
fn empty_trace_has_no_records() {
    assert_eq!(parse_trace(""), vec![]);
    assert_eq!(parse_trace("\n\n"), vec![]);
}

#[test]
fn trace_with_wide_characters() {
    let text = "[DEBUG:func_enter(src/é.rs:1)] größe\n[DEBUG:value(a:2)] s = \"日本\"\n";
    assert_eq!(
        parse_trace(text),
        vec![
            TraceLine::Enter("größe".to_string()),
            TraceLine::Value("s = \"日本\"".to_string()),
        ]
    );
}

#[test]
fn hidden_function_hides_its_subtree() {
    let text = "[DEBUG:func_enter(a:1)] A\n[DEBUG:func_enter(a:2)] B\n[DEBUG:func_exit(a:3)] B\n[DEBUG:func_exit(a:4)] A\n";
    let vis = info(&[("A", false), ("B", true)]);
    assert_eq!(filter(text, &vis), vec![]);
    assert_eq!(count_visible_lines(text, &vis), 0);
}

#[test]
fn display_comes_back_after_hidden_subtree() {
    let text = "[DEBUG:func_enter(a:1)] A\n[DEBUG:func_enter(a:2)] B\n[DEBUG:func_exit(a:3)] B\n[DEBUG:func_exit(a:4)] A\n[DEBUG:func_enter(a:5)] C\n";
    let vis = info(&[("A", false), ("B", false), ("C", true)]);
    assert_eq!(filter(text, &vis), vec![function(0, "C")]);
    assert_eq!(count_visible_lines(text, &vis), 1);
}

#[test]
fn shown_lines_carry_the_depth_before_the_record() {
    let text = "[DEBUG:func_enter(a:1)] main\n[DEBUG:value(a:2)] x = 1\n[DEBUG:func_enter(a:3)] f\n[DEBUG:value(a:4)] y = 2\n[DEBUG:func_exit(a:5)] f\n[DEBUG:func_exit(a:6)] main\n";
    let vis = info(&[("f", true), ("main", true)]);
    assert_eq!(
        filter(text, &vis),
        vec![function(0, "main"), value(1, "x = 1"), function(1, "f"), value(2, "y = 2")]
    );
    assert_eq!(count_visible_lines(text, &vis), 4);
}

#[test]
fn unknown_function_is_shown() {
    let text = "[DEBUG:func_enter(a:1)] main\n[DEBUG:func_exit(a:6)] main\n";
    assert_eq!(filter(text, &VisibilityInfo::default()), vec![function(0, "main")]);
}

#[test]
fn stray_exit_changes_nothing() {
    let text = "[DEBUG:func_exit(a:1)] x\n[DEBUG:func_exit(a:1)] x\n[DEBUG:func_enter(a:1)] main\n[DEBUG:value(a:2)] x = 1\n";
    assert_eq!(
        filter(text, &VisibilityInfo::default()),
        vec![function(0, "main"), value(1, "x = 1")]
    );
}

#[test]
fn indent_repeats_bar_per_level() {
    assert_eq!(function(0, "f").indent(), "");
    assert_eq!(function(3, "f").indent(), "| | | ");
    assert_eq!(value(1, "x = 1").label(), "x = 1");
    assert_eq!(function(1, "f").label(), "f");
}
