//! Keys of the keyboard and the pitch that each one plays.

use vstd::prelude::*;

verus! {

/// The twelve semitones of an octave, from C upward.
#[derive(Debug, Clone, Copy, PartialEq, Eq, Hash, Structural)]
pub enum Note {
    C,
    CSharp,
    D,
    DSharp,
    E,
    F,
    FSharp,
    G,
    GSharp,
    A,
    ASharp,
    B,
}

/// A note in an octave.
#[derive(Debug, Clone, Copy, PartialEq, Eq, Hash, Structural)]
pub struct PitchClass {
    pub note: Note,
    pub octave: i32,
}

/// A key of the keyboard, named by its place on a US layout.
#[derive(Debug, Clone, Copy, PartialEq, Eq, Hash, Structural)]
pub enum Key {
    Key0,
    Key1,
    Key2,
    Key3,
    Key4,
    Key5,
    Key6,
    Key7,
    Key8,
    Key9,
    A,
    B,
    C,
    D,
    E,
    F,
    G,
    H,
    I,
    J,
    K,
    L,
    M,
    N,
    O,
    P,
    Q,
    R,
    S,
    T,
    U,
    V,
    W,
    X,
    Y,
    Z,
    F1,
    F2,
    F3,
    F4,
    F5,
    F6,
    F7,
    F8,
    F9,
    F10,
    F11,
    F12,
    F13,
    F14,
    F15,
    F16,
    F17,
    F18,
    F19,
    F20,
    Escape,
    Space,
    LControl,
    RControl,
    LShift,
    RShift,
    LAlt,
    RAlt,
    Command,
    LOption,
    ROption,
    LMeta,
    RMeta,
    Enter,
    Up,
    Down,
    Left,
    Right,
    Backspace,
    CapsLock,
    Tab,
    Home,
    End,
    PageUp,
    PageDown,
    Insert,
    Delete,
    Numpad0,
    Numpad1,
    Numpad2,
    Numpad3,
    Numpad4,
    Numpad5,
    Numpad6,
    Numpad7,
    Numpad8,
    Numpad9,
    NumpadSubtract,
    NumpadAdd,
    NumpadDivide,
    NumpadMultiply,
    NumpadEquals,
    NumpadEnter,
    NumpadDecimal,
    Grave,
    Minus,
    Equal,
    LeftBracket,
    RightBracket,
    BackSlash,
    Semicolon,
    Apostrophe,
    Comma,
    Dot,
    Slash,
}

impl Note {
    /// The place of the note in its octave: 0 for C, 11 for B.
    pub open spec fn semitone(self) -> int {
        match self {
            Note::C => 0,
            Note::CSharp => 1,
            Note::D => 2,
            Note::DSharp => 3,
            Note::E => 4,
            Note::F => 5,
            Note::FSharp => 6,
            Note::G => 7,
            Note::GSharp => 8,
            Note::A => 9,
            Note::ASharp => 10,
            Note::B => 11,
        }
    }

    /// The place of the note in its octave: 0 for C, 11 for B.
    pub fn index(self) -> (r: i32)
        ensures
            r == self.semitone(),
            0 <= r < 12,
    {
        match self {
            Note::C => 0,
            Note::CSharp => 1,
            Note::D => 2,
            Note::DSharp => 3,
            Note::E => 4,
            Note::F => 5,
            Note::FSharp => 6,
            Note::G => 7,
            Note::GSharp => 8,
            Note::A => 9,
            Note::ASharp => 10,
            Note::B => 11,
        }
    }
}

impl PitchClass {
    /// The pitch class of `note` in `octave`.
    pub fn new(note: Note, octave: i32) -> (r: PitchClass)
        ensures
            r == (PitchClass { note, octave }),
    {
        PitchClass { note, octave }
    }

    /// How many semitones the pitch lies above the A of octave 4; negative
    /// when it lies below.
    pub open spec fn semitones_from_a4(self) -> int {
        (self.octave - 4) * 12 + (self.note.semitone() - Note::A.semitone())
    }
}

/// The pitch that a key plays, if it plays one. Two rows of the keyboard
/// are laid out as pianos: the lower from the C of octave 3, the upper from
/// the C of octave 4.
pub open spec fn pitch_of_key(key: Key) -> Option<PitchClass> {
    match key {
        Key::W => Some(PitchClass { note: Note::C, octave: 3 }),
        Key::X => Some(PitchClass { note: Note::D, octave: 3 }),
        Key::C => Some(PitchClass { note: Note::E, octave: 3 }),
        Key::V => Some(PitchClass { note: Note::F, octave: 3 }),
        Key::B => Some(PitchClass { note: Note::G, octave: 3 }),
        Key::N => Some(PitchClass { note: Note::A, octave: 3 }),
        Key::Comma => Some(PitchClass { note: Note::B, octave: 3 }),
        Key::Dot => Some(PitchClass { note: Note::C, octave: 4 }),
        Key::Slash => Some(PitchClass { note: Note::D, octave: 4 }),
        Key::A => Some(PitchClass { note: Note::C, octave: 4 }),
        Key::Z => Some(PitchClass { note: Note::D, octave: 4 }),
        Key::E => Some(PitchClass { note: Note::E, octave: 4 }),
        Key::R => Some(PitchClass { note: Note::F, octave: 4 }),
        Key::T => Some(PitchClass { note: Note::G, octave: 4 }),
        Key::Y => Some(PitchClass { note: Note::A, octave: 4 }),
        Key::U => Some(PitchClass { note: Note::B, octave: 4 }),
        Key::I => Some(PitchClass { note: Note::C, octave: 5 }),
        Key::O => Some(PitchClass { note: Note::D, octave: 5 }),
        Key::P => Some(PitchClass { note: Note::E, octave: 5 }),
        Key::S => Some(PitchClass { note: Note::CSharp, octave: 3 }),
        Key::D => Some(PitchClass { note: Note::DSharp, octave: 3 }),
        Key::G => Some(PitchClass { note: Note::FSharp, octave: 3 }),
        Key::H => Some(PitchClass { note: Note::GSharp, octave: 3 }),
        Key::J => Some(PitchClass { note: Note::ASharp, octave: 3 }),
        Key::L => Some(PitchClass { note: Note::CSharp, octave: 4 }),
        Key::Semicolon => Some(PitchClass { note: Note::DSharp, octave: 4 }),
        Key::Key2 => Some(PitchClass { note: Note::CSharp, octave: 4 }),
        Key::Key3 => Some(PitchClass { note: Note::DSharp, octave: 4 }),
        Key::Key5 => Some(PitchClass { note: Note::FSharp, octave: 4 }),
        Key::Key6 => Some(PitchClass { note: Note::GSharp, octave: 4 }),
        Key::Key7 => Some(PitchClass { note: Note::ASharp, octave: 4 }),
        Key::Key9 => Some(PitchClass { note: Note::CSharp, octave: 5 }),
        Key::Key0 => Some(PitchClass { note: Note::DSharp, octave: 5 }),
        _ => None,
    }
}

/// Looks up the pitch that a key plays.
pub fn get_pitch_class(key: &Key) -> (r: Option<PitchClass>)
    ensures
        r == pitch_of_key(*key),
{
    match key {
        Key::W => Some(PitchClass::new(Note::C, 3)),
        Key::X => Some(PitchClass::new(Note::D, 3)),
        Key::C => Some(PitchClass::new(Note::E, 3)),
        Key::V => Some(PitchClass::new(Note::F, 3)),
        Key::B => Some(PitchClass::new(Note::G, 3)),
        Key::N => Some(PitchClass::new(Note::A, 3)),
        Key::Comma => Some(PitchClass::new(Note::B, 3)),
        Key::Dot => Some(PitchClass::new(Note::C, 4)),
        Key::Slash => Some(PitchClass::new(Note::D, 4)),
        Key::A => Some(PitchClass::new(Note::C, 4)),
        Key::Z => Some(PitchClass::new(Note::D, 4)),
        Key::E => Some(PitchClass::new(Note::E, 4)),
        Key::R => Some(PitchClass::new(Note::F, 4)),
        Key::T => Some(PitchClass::new(Note::G, 4)),
        Key::Y => Some(PitchClass::new(Note::A, 4)),
        Key::U => Some(PitchClass::new(Note::B, 4)),
        Key::I => Some(PitchClass::new(Note::C, 5)),
        Key::O => Some(PitchClass::new(Note::D, 5)),
        Key::P => Some(PitchClass::new(Note::E, 5)),
        Key::S => Some(PitchClass::new(Note::CSharp, 3)),
        Key::D => Some(PitchClass::new(Note::DSharp, 3)),
        Key::G => Some(PitchClass::new(Note::FSharp, 3)),
        Key::H => Some(PitchClass::new(Note::GSharp, 3)),
        Key::J => Some(PitchClass::new(Note::ASharp, 3)),
        Key::L => Some(PitchClass::new(Note::CSharp, 4)),
        Key::Semicolon => Some(PitchClass::new(Note::DSharp, 4)),
        Key::Key2 => Some(PitchClass::new(Note::CSharp, 4)),
        Key::Key3 => Some(PitchClass::new(Note::DSharp, 4)),
        Key::Key5 => Some(PitchClass::new(Note::FSharp, 4)),
        Key::Key6 => Some(PitchClass::new(Note::GSharp, 4)),
        Key::Key7 => Some(PitchClass::new(Note::ASharp, 4)),
        Key::Key9 => Some(PitchClass::new(Note::CSharp, 5)),
        Key::Key0 => Some(PitchClass::new(Note::DSharp, 5)),
        _ => None,
    }
}

} // verus!
