use proctrack::app::AppMode;
use proctrack::handler::set_guidance;
use proctrack::key::{Key, KeyCode, KeyModifiers, MediaKeyCode, ModifierKeyCode};
use proctrack::keybinding::Binding;

fn no_modifiers() -> KeyModifiers {
    KeyModifiers { shift: false, control: false, alt: false, super_key: false, hyper: false, meta: false }
}

fn plain(code: KeyCode) -> Key {
    Key { code, modifiers: no_modifiers() }
}

#[test]
fn key_labels_of_plain_keys() {
    assert_eq!(plain(KeyCode::Backspace).to_string(), "BS");
    assert_eq!(plain(KeyCode::Delete).to_string(), "Del");
    assert_eq!(plain(KeyCode::Char('x')).to_string(), "x");
    assert_eq!(plain(KeyCode::Esc).to_string(), "Esc");
    assert_eq!(plain(KeyCode::KeypadBegin).to_string(), "KeypadBegin");
    assert_eq!(plain(KeyCode::Media(MediaKeyCode::TrackNext)).to_string(), "TrackNext");
    assert_eq!(
        plain(KeyCode::Modifier(ModifierKeyCode::IsoLevel3Shift)).to_string(),
        "IsoLevel3Shift"
    );
}

#[test]
fn key_labels_of_function_keys() {
    assert_eq!(plain(KeyCode::F(0)).to_string(), "F0");
    assert_eq!(plain(KeyCode::F(7)).to_string(), "F7");
    assert_eq!(plain(KeyCode::F(12)).to_string(), "F12");
    assert_eq!(plain(KeyCode::F(100)).to_string(), "F100");
    assert_eq!(plain(KeyCode::F(255)).to_string(), "F255");
}

#[test]
fn key_labels_put_modifiers_first_in_fixed_order() {
    let all = KeyModifiers { shift: true, control: true, alt: true, super_key: true, hyper: true, meta: true };
    assert_eq!(
        Key { code: KeyCode::Char('q'), modifiers: all }.to_string(),
        "Shift-Ctrl-Alt-Super-Hyper-Meta-q"
    );
    let some = KeyModifiers { control: true, meta: true, ..no_modifiers() };
    assert_eq!(Key { code: KeyCode::Enter, modifiers: some }.to_string(), "Ctrl-Meta-Enter");
}

#[test]
fn bindings_have_their_keys() {
    assert_eq!(Binding::Quit.key(), plain(KeyCode::Esc));
    assert_eq!(Binding::QuitAlt.key().to_string(), "Ctrl-c");
    assert_eq!(Binding::Reload.key().to_string(), "Ctrl-r");
    assert_eq!(Binding::Bottom.key().to_string(), "Shift-G");
    assert_eq!(Binding::DeleteCharAlt.key().to_string(), "Ctrl-h");
    assert_eq!(Binding::StartSearch.key(), plain(KeyCode::Char('/')));
}

#[test]
fn guidance_of_view_mode() {
    let mut guidance = String::from("stale");
    set_guidance(AppMode::ViewDebug, &mut guidance);
    assert_eq!(
        guidance,
        " Quit [Esc, Ctrl-c], Reload [Ctrl-r], Open Visibility Editor [v]\n Up/Down [k/j], Up/Down Fast [Ctrl-k/Ctrl-j], Top/Bottom [g/Shift-G]"
    );
}

#[test]
fn guidance_of_edit_mode() {
    let mut guidance = String::new();
    set_guidance(AppMode::EditVisibility, &mut guidance);
    assert_eq!(
        guidance,
        " Quit [Esc, Ctrl-c], Reload [Ctrl-r], Close Visibility Editor [v], Search [/]\n Up/Down [k/j], Up/Down Fast [Ctrl-k/Ctrl-j], Top/Bottom [g/Shift-G], Change Visibility [Enter]"
    );
}

#[test]
fn guidance_of_search_mode() {
    let mut guidance = String::new();
    set_guidance(AppMode::SearchVisibility, &mut guidance);
    assert_eq!(guidance, " Quit [Esc, Ctrl-c], Reload [Ctrl-r], Finish searching [Enter]");
}
