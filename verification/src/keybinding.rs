// The key that is bound to each control of the viewer.

use crate::key::{Key, KeyCode, KeyModifiers};
use vstd::prelude::*;

verus! {

/// The controls that a key can be bound to.
#[derive(Clone, Copy, Debug, PartialEq, Eq, Structural)]
pub enum Binding {
    /// Leave the viewer.
    Quit,
    /// Leave the viewer, second key.
    QuitAlt,
    /// Read the trace again.
    Reload,
    /// Go to the first line or entry.
    Top,
    /// Go to the last line or entry.
    Bottom,
    /// Go up by one.
    Up,
    /// Go down by one.
    Down,
    /// Go up by a larger step.
    UpFast,
    /// Go down by a larger step.
    DownFast,
    /// From the trace view, open the visibility editor.
    OpenEditor,
    /// Flip the visibility of the selected entry.
    Toggle,
    /// From the visibility editor, go back to the trace view.
    CloseEditor,
    /// From the visibility editor, start typing a search pattern.
    StartSearch,
    /// From the search box, go back to the visibility editor.
    FinishSearch,
    /// Delete the last character of the search pattern.
    DeleteChar,
    /// Delete the last character of the search pattern, second key.
    DeleteCharAlt,
}

/// A key with no modifier held.
pub open spec fn plain(code: KeyCode) -> Key {
    Key { code, modifiers: KeyModifiers::none() }
}

/// A key with control held.
pub open spec fn with_control(code: KeyCode) -> Key {
    Key {
        code,
        modifiers: KeyModifiers {
            shift: false,
            control: true,
            alt: false,
            super_key: false,
            hyper: false,
            meta: false,
        },
    }
}

/// A key with shift held.
pub open spec fn with_shift(code: KeyCode) -> Key {
    Key {
        code,
        modifiers: KeyModifiers {
            shift: true,
            control: false,
            alt: false,
            super_key: false,
            hyper: false,
            meta: false,
        },
    }
}

impl Binding {
    /// The key bound to this control.
    pub open spec fn spec_key(self) -> Key {
        match self {
            Binding::Quit => plain(KeyCode::Esc),
            Binding::QuitAlt => with_control(KeyCode::Char('c')),
            Binding::Reload => with_control(KeyCode::Char('r')),
            Binding::Top => plain(KeyCode::Char('g')),
            Binding::Bottom => with_shift(KeyCode::Char('G')),
            Binding::Up => plain(KeyCode::Char('k')),
            Binding::Down => plain(KeyCode::Char('j')),
            Binding::UpFast => with_control(KeyCode::Char('k')),
            Binding::DownFast => with_control(KeyCode::Char('j')),
            Binding::OpenEditor => plain(KeyCode::Char('v')),
            Binding::Toggle => plain(KeyCode::Enter),
            Binding::CloseEditor => plain(KeyCode::Char('v')),
            Binding::StartSearch => plain(KeyCode::Char('/')),
            Binding::FinishSearch => plain(KeyCode::Enter),
            Binding::DeleteChar => plain(KeyCode::Backspace),
            Binding::DeleteCharAlt => with_control(KeyCode::Char('h')),
        }
    }

    /// The key bound to this control.
    #[verifier::when_used_as_spec(spec_key)]
    pub fn key(self) -> (k: Key)
        ensures
            k == self.spec_key(),
    {
        let none = KeyModifiers {
            shift: false,
            control: false,
            alt: false,
            super_key: false,
            hyper: false,
            meta: false,
        };
        let control = KeyModifiers {
            shift: false,
            control: true,
            alt: false,
            super_key: false,
            hyper: false,
            meta: false,
        };
        let shift = KeyModifiers {
            shift: true,
            control: false,
            alt: false,
            super_key: false,
            hyper: false,
            meta: false,
        };
        match self {
            Binding::Quit => Key { code: KeyCode::Esc, modifiers: none },
            Binding::QuitAlt => Key { code: KeyCode::Char('c'), modifiers: control },
            Binding::Reload => Key { code: KeyCode::Char('r'), modifiers: control },
            Binding::Top => Key { code: KeyCode::Char('g'), modifiers: none },
            Binding::Bottom => Key { code: KeyCode::Char('G'), modifiers: shift },
            Binding::Up => Key { code: KeyCode::Char('k'), modifiers: none },
            Binding::Down => Key { code: KeyCode::Char('j'), modifiers: none },
            Binding::UpFast => Key { code: KeyCode::Char('k'), modifiers: control },
            Binding::DownFast => Key { code: KeyCode::Char('j'), modifiers: control },
            Binding::OpenEditor => Key { code: KeyCode::Char('v'), modifiers: none },
            Binding::Toggle => Key { code: KeyCode::Enter, modifiers: none },
            Binding::CloseEditor => Key { code: KeyCode::Char('v'), modifiers: none },
            Binding::StartSearch => Key { code: KeyCode::Char('/'), modifiers: none },
            Binding::FinishSearch => Key { code: KeyCode::Enter, modifiers: none },
            Binding::DeleteChar => Key { code: KeyCode::Backspace, modifiers: none },
            Binding::DeleteCharAlt => Key { code: KeyCode::Char('h'), modifiers: control },
        }
    }
}

} // verus!
