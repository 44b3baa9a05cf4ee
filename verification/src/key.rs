// Keys as the interaction layer sees them: a key code plus the modifier keys
// held with it, and the label under which a key is shown to the user.

use vstd::prelude::*;
use vstd::string::*;

verus! {

/// Media keys.
#[derive(Clone, Copy, Debug, PartialEq, Eq, Structural)]
pub enum MediaKeyCode {
    Play,
    Pause,
    PlayPause,
    Reverse,
    Stop,
    FastForward,
    Rewind,
    TrackNext,
    TrackPrevious,
    Record,
    LowerVolume,
    RaiseVolume,
    MuteVolume,
}

/// Modifier keys reported as keys of their own.
#[derive(Clone, Copy, Debug, PartialEq, Eq, Structural)]
pub enum ModifierKeyCode {
    LeftShift,
    LeftControl,
    LeftAlt,
    LeftSuper,
    LeftHyper,
    LeftMeta,
    RightShift,
    RightControl,
    RightAlt,
    RightSuper,
    RightHyper,
    RightMeta,
    IsoLevel3Shift,
    IsoLevel5Shift,
}

/// The key that was pressed.
#[derive(Clone, Copy, Debug, PartialEq, Eq, Structural)]
pub enum KeyCode {
    Backspace,
    Enter,
    Left,
    Right,
    Up,
    Down,
    Home,
    End,
    PageUp,
    PageDown,
    Tab,
    BackTab,
    Delete,
    Insert,
    F(u8),
    Char(char),
    Null,
    Esc,
    CapsLock,
    ScrollLock,
    NumLock,
    PrintScreen,
    Pause,
    Menu,
    KeypadBegin,
    Media(MediaKeyCode),
    Modifier(ModifierKeyCode),
}

/// The modifier keys held while a key was pressed.
#[derive(Clone, Copy, Debug, PartialEq, Eq, Structural)]
pub struct KeyModifiers {
    pub shift: bool,
    pub control: bool,
    pub alt: bool,
    pub super_key: bool,
    pub hyper: bool,
    pub meta: bool,
}

/// A key press: the key and its modifiers.
#[derive(Clone, Copy, Debug, PartialEq, Eq, Structural)]
pub struct Key {
    pub code: KeyCode,
    pub modifiers: KeyModifiers,
}

/// The character that stands for the decimal digit `d`.
pub open spec fn digit_char(d: int) -> char {
    seq!['0', '1', '2', '3', '4', '5', '6', '7', '8', '9'][d]
}

/// The decimal numeral of `n`, without leading zeros.
pub open spec fn decimal(n: nat) -> Seq<char>
    decreases n,
{
    if n < 10 {
        seq![digit_char(n as int)]
    } else {
        decimal(n / 10).push(digit_char((n % 10) as int))
    }
}

/// The piece that a modifier adds to a label: its name if it is held,
/// nothing otherwise.
pub open spec fn held(flag: bool, name: Seq<char>) -> Seq<char> {
    if flag {
        name
    } else {
        Seq::<char>::empty()
    }
}

/// The text shown for the modifiers: one `Name-` piece for each modifier
/// held, in the fixed order shift, control, alt, super, hyper, meta.
pub open spec fn modifiers_label(m: KeyModifiers) -> Seq<char> {
    held(m.shift, "Shift-"@) + held(m.control, "Ctrl-"@) + held(m.alt, "Alt-"@) + held(
        m.super_key,
        "Super-"@,
    ) + held(m.hyper, "Hyper-"@) + held(m.meta, "Meta-"@)
}

/// The text shown for a media key.
pub open spec fn media_label(code: MediaKeyCode) -> Seq<char> {
    match code {
        MediaKeyCode::Play => "Play"@,
        MediaKeyCode::Pause => "Pause"@,
        MediaKeyCode::PlayPause => "PlayPause"@,
        MediaKeyCode::Reverse => "Reverse"@,
        MediaKeyCode::Stop => "Stop"@,
        MediaKeyCode::FastForward => "FastForward"@,
        MediaKeyCode::Rewind => "Rewind"@,
        MediaKeyCode::TrackNext => "TrackNext"@,
        MediaKeyCode::TrackPrevious => "TrackPrevious"@,
        MediaKeyCode::Record => "Record"@,
        MediaKeyCode::LowerVolume => "LowerVolume"@,
        MediaKeyCode::RaiseVolume => "RaiseVolume"@,
        MediaKeyCode::MuteVolume => "MuteVolume"@,
    }
}

/// The text shown for a modifier key pressed on its own.
pub open spec fn modifier_key_label(code: ModifierKeyCode) -> Seq<char> {
    match code {
        ModifierKeyCode::LeftShift => "LeftShift"@,
        ModifierKeyCode::LeftControl => "LeftControl"@,
        ModifierKeyCode::LeftAlt => "LeftAlt"@,
        ModifierKeyCode::LeftSuper => "LeftSuper"@,
        ModifierKeyCode::LeftHyper => "LeftHyper"@,
        ModifierKeyCode::LeftMeta => "LeftMeta"@,
        ModifierKeyCode::RightShift => "RightShift"@,
        ModifierKeyCode::RightControl => "RightControl"@,
        ModifierKeyCode::RightAlt => "RightAlt"@,
        ModifierKeyCode::RightSuper => "RightSuper"@,
        ModifierKeyCode::RightHyper => "RightHyper"@,
        ModifierKeyCode::RightMeta => "RightMeta"@,
        ModifierKeyCode::IsoLevel3Shift => "IsoLevel3Shift"@,
        ModifierKeyCode::IsoLevel5Shift => "IsoLevel5Shift"@,
    }
}

/// The text shown for a key code: a fixed name, `F` and the number for a
/// function key, the character itself for a character key.
pub open spec fn code_label(code: KeyCode) -> Seq<char> {
    match code {
        KeyCode::Backspace => "BS"@,
        KeyCode::Enter => "Enter"@,
        KeyCode::Left => "Left"@,
        KeyCode::Right => "Right"@,
        KeyCode::Up => "Up"@,
        KeyCode::Down => "Down"@,
        KeyCode::Home => "Home"@,
        KeyCode::End => "End"@,
        KeyCode::PageUp => "PageUp"@,
        KeyCode::PageDown => "PageDown"@,
        KeyCode::Tab => "Tab"@,
        KeyCode::BackTab => "BackTab"@,
        KeyCode::Delete => "Del"@,
        KeyCode::Insert => "Insert"@,
        KeyCode::F(n) => "F"@ + decimal(n as nat),
        KeyCode::Char(c) => seq![c],
        KeyCode::Null => "Null"@,
        KeyCode::Esc => "Esc"@,
        KeyCode::CapsLock => "CapsLock"@,
        KeyCode::ScrollLock => "ScrollLock"@,
        KeyCode::NumLock => "NumLock"@,
        KeyCode::PrintScreen => "PrintScreen"@,
        KeyCode::Pause => "Pause"@,
        KeyCode::Menu => "Menu"@,
        KeyCode::KeypadBegin => "KeypadBegin"@,
        KeyCode::Media(m) => media_label(m),
        KeyCode::Modifier(m) => modifier_key_label(m),
    }
}

/// The text shown for a key: its modifiers, then its code.
pub open spec fn key_label(key: Key) -> Seq<char> {
    modifiers_label(key.modifiers) + code_label(key.code)
}

fn digit(d: u8) -> (c: char)
    requires
        d < 10,
    ensures
        c == digit_char(d as int),
{
    (48u8 + d) as char
}

/// Appends the decimal numeral of `n` to `out`.
pub fn push_decimal(out: &mut String, n: u8)
    ensures
        final(out)@ == old(out)@ + decimal(n as nat),
{
    if n >= 100 {
        out.push(digit(n / 100));
    }
    if n >= 10 {
        out.push(digit((n / 10) % 10));
    }
    out.push(digit(n % 10));
    proof {
        reveal_with_fuel(decimal, 3);
        assert(out@ =~= old(out)@ + decimal(n as nat));
    }
}

proof fn lemma_concat_six(
    o: Seq<char>,
    a: Seq<char>,
    b: Seq<char>,
    c: Seq<char>,
    d: Seq<char>,
    e: Seq<char>,
    f: Seq<char>,
)
    ensures
        o + a + b + c + d + e + f == o + (a + b + c + d + e + f),
{
    assert(o + a + b + c + d + e + f =~= o + (a + b + c + d + e + f));
}

fn push_if(out: &mut String, flag: bool, name: &str)
    ensures
        final(out)@ == old(out)@ + held(flag, name@),
{
    if flag {
        out.append(name);
    }
}

impl KeyModifiers {
    /// No modifier held.
    pub open spec fn none() -> KeyModifiers {
        KeyModifiers {
            shift: false,
            control: false,
            alt: false,
            super_key: false,
            hyper: false,
            meta: false,
        }
    }

    /// Appends the label of these modifiers to `out`.
    pub fn push_label(&self, out: &mut String)
        ensures
            final(out)@ == old(out)@ + modifiers_label(*self),
    {
        push_if(out, self.shift, "Shift-");
        push_if(out, self.control, "Ctrl-");
        push_if(out, self.alt, "Alt-");
        push_if(out, self.super_key, "Super-");
        push_if(out, self.hyper, "Hyper-");
        push_if(out, self.meta, "Meta-");
        proof {
            lemma_concat_six(
                old(out)@,
                held(self.shift, "Shift-"@),
                held(self.control, "Ctrl-"@),
                held(self.alt, "Alt-"@),
                held(self.super_key, "Super-"@),
                held(self.hyper, "Hyper-"@),
                held(self.meta, "Meta-"@),
            );
        }
    }
}

impl MediaKeyCode {
    /// The name of the media key.
    pub fn name(&self) -> (s: &'static str)
        ensures
            s@ == media_label(*self),
    {
        match self {
            MediaKeyCode::Play => "Play",
            MediaKeyCode::Pause => "Pause",
            MediaKeyCode::PlayPause => "PlayPause",
            MediaKeyCode::Reverse => "Reverse",
            MediaKeyCode::Stop => "Stop",
            MediaKeyCode::FastForward => "FastForward",
            MediaKeyCode::Rewind => "Rewind",
            MediaKeyCode::TrackNext => "TrackNext",
            MediaKeyCode::TrackPrevious => "TrackPrevious",
            MediaKeyCode::Record => "Record",
            MediaKeyCode::LowerVolume => "LowerVolume",
            MediaKeyCode::RaiseVolume => "RaiseVolume",
            MediaKeyCode::MuteVolume => "MuteVolume",
        }
    }
}

impl ModifierKeyCode {
    /// The name of the modifier key.
    pub fn name(&self) -> (s: &'static str)
        ensures
            s@ == modifier_key_label(*self),
    {
        match self {
            ModifierKeyCode::LeftShift => "LeftShift",
            ModifierKeyCode::LeftControl => "LeftControl",
            ModifierKeyCode::LeftAlt => "LeftAlt",
            ModifierKeyCode::LeftSuper => "LeftSuper",
            ModifierKeyCode::LeftHyper => "LeftHyper",
            ModifierKeyCode::LeftMeta => "LeftMeta",
            ModifierKeyCode::RightShift => "RightShift",
            ModifierKeyCode::RightControl => "RightControl",
            ModifierKeyCode::RightAlt => "RightAlt",
            ModifierKeyCode::RightSuper => "RightSuper",
            ModifierKeyCode::RightHyper => "RightHyper",
            ModifierKeyCode::RightMeta => "RightMeta",
            ModifierKeyCode::IsoLevel3Shift => "IsoLevel3Shift",
            ModifierKeyCode::IsoLevel5Shift => "IsoLevel5Shift",
        }
    }
}

impl KeyCode {
    /// Appends the label of this key code to `out`.
    pub fn push_label(&self, out: &mut String)
        ensures
            final(out)@ == old(out)@ + code_label(*self),
    {
        match self {
            KeyCode::Backspace => out.append("BS"),
            KeyCode::Enter => out.append("Enter"),
            KeyCode::Left => out.append("Left"),
            KeyCode::Right => out.append("Right"),
            KeyCode::Up => out.append("Up"),
            KeyCode::Down => out.append("Down"),
            KeyCode::Home => out.append("Home"),
            KeyCode::End => out.append("End"),
            KeyCode::PageUp => out.append("PageUp"),
            KeyCode::PageDown => out.append("PageDown"),
            KeyCode::Tab => out.append("Tab"),
            KeyCode::BackTab => out.append("BackTab"),
            KeyCode::Delete => out.append("Del"),
            KeyCode::Insert => out.append("Insert"),
            KeyCode::F(n) => {
                out.append("F");
                push_decimal(out, *n);
                assert(out@ =~= old(out)@ + code_label(*self));
            },
            KeyCode::Char(c) => {
                out.push(*c);
                assert(out@ =~= old(out)@ + code_label(*self));
            },
            KeyCode::Null => out.append("Null"),
            KeyCode::Esc => out.append("Esc"),
            KeyCode::CapsLock => out.append("CapsLock"),
            KeyCode::ScrollLock => out.append("ScrollLock"),
            KeyCode::NumLock => out.append("NumLock"),
            KeyCode::PrintScreen => out.append("PrintScreen"),
            KeyCode::Pause => out.append("Pause"),
            KeyCode::Menu => out.append("Menu"),
            KeyCode::KeypadBegin => out.append("KeypadBegin"),
            KeyCode::Media(m) => out.append(m.name()),
            KeyCode::Modifier(m) => out.append(m.name()),
        }
    }
}

impl Key {
    /// Appends the label of this key to `out`.
    pub fn push_label(&self, out: &mut String)
        ensures
            final(out)@ == old(out)@ + key_label(*self),
    {
        self.modifiers.push_label(out);
        self.code.push_label(out);
        assert(out@ =~= old(out)@ + key_label(*self));
    }

    /// The label of this key, as it is shown to the user.
    pub fn to_string(&self) -> (s: String)
        ensures
            s@ == key_label(*self),
    {
        let mut s = String::new();
        self.push_label(&mut s);
        assert(s@ =~= key_label(*self));
        s
    }
}

} // verus!
