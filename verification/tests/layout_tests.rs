use proctrack::app::AppMode;
use proctrack::layout::{layout, PaneSizes, FRAMED_LINE};

#[test]
fn trace_view_takes_the_whole_width_when_the_editor_is_closed() {
    assert_eq!(
        layout(AppMode::ViewDebug, 130, 80, 24),
        PaneSizes {
            guidance_height: 4,
            body_height: 20,
            debug_info_width: 80,
            visibility_info_width: 0,
            search_box_height: 3,
            visibility_list_height: 21,
        }
    );
}

#[test]
fn editor_takes_half_the_width() {
    let sizes = layout(AppMode::EditVisibility, 200, 81, 30);
    assert_eq!(sizes.guidance_height, 5);
    assert_eq!(sizes.body_height, 25);
    assert_eq!(sizes.debug_info_width, 41);
    assert_eq!(sizes.visibility_info_width, 40);
    assert_eq!(layout(AppMode::SearchVisibility, 200, 81, 30), sizes);
}

#[test]
fn guidance_shorter_than_the_width_takes_a_framed_line() {
    assert_eq!(layout(AppMode::ViewDebug, 79, 80, 24).guidance_height, FRAMED_LINE);
    assert_eq!(layout(AppMode::ViewDebug, 80, 80, 24).guidance_height, FRAMED_LINE + 1);
    assert_eq!(layout(AppMode::ViewDebug, 0, 80, 24).guidance_height, 3);
}

#[test]
fn screen_without_room_gives_empty_panes() {
    assert_eq!(
        layout(AppMode::EditVisibility, 130, 0, 0),
        PaneSizes {
            guidance_height: 3,
            body_height: 0,
            debug_info_width: 0,
            visibility_info_width: 0,
            search_box_height: 3,
            visibility_list_height: 0,
        }
    );
    let sizes = layout(AppMode::ViewDebug, 1000, 10, 50);
    assert_eq!(sizes.guidance_height, 103);
    assert_eq!(sizes.body_height, 0);
    assert_eq!(sizes.visibility_list_height, 47);
}

#[test]
fn guidance_height_stops_at_the_largest_height() {
    let sizes = layout(AppMode::ViewDebug, usize::MAX, 1, u16::MAX);
    assert_eq!(sizes.guidance_height, u16::MAX);
    assert_eq!(sizes.body_height, 0);
    let sizes = layout(AppMode::ViewDebug, 65532, 1, u16::MAX);
    assert_eq!(sizes.guidance_height, u16::MAX);
    let sizes = layout(AppMode::ViewDebug, 65531, 1, u16::MAX);
    assert_eq!(sizes.guidance_height, u16::MAX - 1);
    assert_eq!(sizes.body_height, 1);
}
