//! Events handed to the engine by the windowing layer, the keys of the
//! keyboard, and the queue that holds a frame's events.
use vstd::prelude::*;

verus! {

/// A key of the keyboard.  Each key has a numeric code (see
/// `Keycode::code`) under which the input manager tracks its state, and
/// all but `Invalid` have a lowercase name (see `Keycode::from_str`).
#[derive(Copy, Clone, Debug, PartialEq, Eq, PartialOrd, Ord, Hash, Structural)]
pub enum Keycode {
    Invalid,
    Space,
    Apostrophe,
    Comma,
    Minus,
    Period,
    Slash,
    Num0,
    Num1,
    Num2,
    Num3,
    Num4,
    Num5,
    Num6,
    Num7,
    Num8,
    Num9,
    Semicolon,
    Equal,
    A,
    B,
    C,
    D,
    E,
    F,
    G,
    H,
    I,
    J,
    K,
    L,
    M,
    N,
    O,
    P,
    Q,
    R,
    S,
    T,
    U,
    V,
    W,
    X,
    Y,
    Z,
    LeftBracket,
    Backslash,
    RightBracket,
    GraveAccent,
    World1,
    World2,
    Escape,
    Enter,
    Tab,
    Backspace,
    Insert,
    Delete,
    Right,
    Left,
    Down,
    Up,
    PageUp,
    PageDown,
    Home,
    End,
    CapsLock,
    ScrollLock,
    NumLock,
    PrintScreen,
    Pause,
    F1,
    F2,
    F3,
    F4,
    F5,
    F6,
    F7,
    F8,
    F9,
    F10,
    F11,
    F12,
    F13,
    F14,
    F15,
    F16,
    F17,
    F18,
    F19,
    F20,
    F21,
    F22,
    F23,
    F24,
    F25,
    Kp0,
    Kp1,
    Kp2,
    Kp3,
    Kp4,
    Kp5,
    Kp6,
    Kp7,
    Kp8,
    Kp9,
    KpDecimal,
    KpDivide,
    KpMultiply,
    KpSubtract,
    KpAdd,
    KpEnter,
    KpEqual,
    LeftShift,
    LeftControl,
    LeftAlt,
    LeftSuper,
    RightShift,
    RightControl,
    RightAlt,
    RightSuper,
    Menu,
}

/// A button of the mouse.
#[derive(Copy, Clone, Debug, PartialEq, Eq, Structural)]
pub enum MouseButton {
    Left,
    Right,
    Middle,
}

impl MouseButton {
    /// The button that the windowing back end numbers `code` (left 0,
    /// right 1, middle 2); any other number counts as the left button.
    pub open spec fn spec_from_code(code: i32) -> MouseButton {
        if code == 1 {
            MouseButton::Right
        } else if code == 2 {
            MouseButton::Middle
        } else {
            MouseButton::Left
        }
    }

    /// The button that the windowing back end numbers `code`.
    pub fn from_code(code: i32) -> (res: MouseButton)
        ensures
            res == MouseButton::spec_from_code(code),
    {
        if code == 1 {
            MouseButton::Right
        } else if code == 2 {
            MouseButton::Middle
        } else {
            MouseButton::Left
        }
    }
}

/// The window layer numbers the left button 0, the right button 1 and
/// the middle button 2; each of these numbers reads as its button, and
/// every other number as the left button.
pub proof fn mouse_button_numbers(code: i32)
    ensures
        MouseButton::spec_from_code(0) == MouseButton::Left,
        MouseButton::spec_from_code(1) == MouseButton::Right,
        MouseButton::spec_from_code(2) == MouseButton::Middle,
        code != 1 && code != 2 ==> MouseButton::spec_from_code(code) == MouseButton::Left,
{
}

/// Whether `code` is a Unicode scalar value, that is a `char`.
pub open spec fn is_scalar_value(code: u32) -> bool {
    code <= 0x10FFFF && !(0xD800 <= code && code <= 0xDFFF)
}

/// `char::from_u32`: the character with the value `code`, or `None` when
/// `code` is no Unicode scalar value (above `0x10FFFF`, or a surrogate
/// from `0xD800` to `0xDFFF`).
#[verifier::external_body]
fn char_from_u32(code: u32) -> (res: Option<char>)
    ensures
        res is Some <==> is_scalar_value(code),
        res matches Some(c) ==> c as u32 == code,
{
    char::from_u32(code)
}

/// A window event as the windowing layer reports it: keys and mouse
/// buttons by their numeric codes, characters by their code point, and
/// pointer positions and scroll amounts as `f32` bit patterns.
#[derive(Copy, Clone, Debug, PartialEq, Eq, Structural)]
pub enum RawEvent {
    Invalid,
    KeyDown { key_code: i32, repeat: bool },
    KeyUp { key_code: i32, repeat: bool },
    Char { char_code: u32 },
    MouseDown { button: i32 },
    MouseUp { button: i32 },
    MouseScroll(Vec2Bits),
    MouseMove { abs: Vec2Bits, delta: Vec2Bits },
    MouseEnter,
    MouseLeave,
    Resized,
    Iconified,
    Restored,
    Focused,
    Unfocused,
    Suspended,
    Resumed,
    QuitRequested,
}

/// The engine event for a window event; `None` for an invalid event and
/// for a character code that is no Unicode scalar value, which are
/// dropped.
pub open spec fn spec_translate(raw: RawEvent) -> Option<Event> {
    match raw {
        RawEvent::Invalid => None,
        RawEvent::KeyDown { key_code, repeat } => Some(Event::KeyDown(Keycode::spec_from_code(key_code), repeat)),
        RawEvent::KeyUp { key_code, repeat } => Some(Event::KeyUp(Keycode::spec_from_code(key_code), repeat)),
        RawEvent::Char { char_code } => if is_scalar_value(char_code) {
            Some(Event::Character(char_code as char))
        } else {
            None
        },
        RawEvent::MouseDown { button } => Some(Event::MouseDown(MouseButton::spec_from_code(button))),
        RawEvent::MouseUp { button } => Some(Event::MouseUp(MouseButton::spec_from_code(button))),
        RawEvent::MouseScroll(v) => Some(Event::MouseScroll(v)),
        RawEvent::MouseMove { abs, delta } => Some(Event::MouseMove { abs, delta }),
        RawEvent::MouseEnter => Some(Event::MouseEnter),
        RawEvent::MouseLeave => Some(Event::MouseLeave),
        RawEvent::Resized => Some(Event::Resized),
        RawEvent::Iconified => Some(Event::Minimised),
        RawEvent::Restored => Some(Event::Restored),
        RawEvent::Focused => Some(Event::Focused),
        RawEvent::Unfocused => Some(Event::Unfocused),
        RawEvent::Suspended => Some(Event::Suspended),
        RawEvent::Resumed => Some(Event::Resumed),
        RawEvent::QuitRequested => Some(Event::QuitRequested),
    }
}

/// A window event becomes the engine event of the same kind: a key press
/// a key press, a release a release, a mouse press a mouse press, and so
/// on (the window layer's "iconified" is the engine's "minimised").  Only
/// an invalid event and a character code that is no character are
/// dropped.  What the event carries is kept: the key with that code (or
/// `Invalid` when no key has it) and whether it repeats, the same button
/// for a press and a release of one button number, the character with
/// that code, and the pointer positions and scroll amounts.
pub proof fn translation_keeps_the_kind(raw: RawEvent)
    ensures
        spec_translate(raw) is None <==> (raw is Invalid || (raw matches RawEvent::Char { char_code }
            && !is_scalar_value(char_code))),
        spec_translate(raw) matches Some(e) ==> {
            &&& (raw is KeyDown <==> e is KeyDown)
            &&& (raw is KeyUp <==> e is KeyUp)
            &&& (raw is Char <==> e is Character)
            &&& (raw is MouseDown <==> e is MouseDown)
            &&& (raw is MouseUp <==> e is MouseUp)
            &&& (raw is MouseScroll <==> e is MouseScroll)
            &&& (raw is MouseMove <==> e is MouseMove)
            &&& (raw is MouseEnter <==> e is MouseEnter)
            &&& (raw is MouseLeave <==> e is MouseLeave)
            &&& (raw is Resized <==> e is Resized)
            &&& (raw is Iconified <==> e is Minimised)
            &&& (raw is Restored <==> e is Restored)
            &&& (raw is Focused <==> e is Focused)
            &&& (raw is Unfocused <==> e is Unfocused)
            &&& (raw is Suspended <==> e is Suspended)
            &&& (raw is Resumed <==> e is Resumed)
            &&& (raw is QuitRequested <==> e is QuitRequested)
        },
        raw matches RawEvent::KeyDown { key_code, repeat } ==> spec_translate(raw) matches Some(
            Event::KeyDown(k, r),
        ) && r == repeat && (k != Keycode::Invalid ==> k.spec_code() == key_code) && (k
            == Keycode::Invalid ==> forall|j: Keycode| j != Keycode::Invalid ==> j.spec_code() != key_code),
        raw matches RawEvent::KeyUp { key_code, repeat } ==> spec_translate(raw) matches Some(
            Event::KeyUp(k, r),
        ) && r == repeat && (k != Keycode::Invalid ==> k.spec_code() == key_code) && (k
            == Keycode::Invalid ==> forall|j: Keycode| j != Keycode::Invalid ==> j.spec_code() != key_code),
        raw matches RawEvent::MouseDown { button } ==> spec_translate(raw) matches Some(Event::MouseDown(b))
            && spec_translate(RawEvent::MouseUp { button }) == Some(Event::MouseUp(b)),
        raw matches RawEvent::Char { char_code } ==> (spec_translate(raw) matches Some(Event::Character(c))
            ==> c as u32 == char_code),
        raw matches RawEvent::MouseScroll(v) ==> spec_translate(raw) == Some(Event::MouseScroll(v)),
        raw matches RawEvent::MouseMove { abs, delta } ==> spec_translate(raw) == Some(
            Event::MouseMove { abs, delta },
        ),
{
    match raw {
        RawEvent::KeyDown { key_code, .. } => {
            let k = Keycode::spec_from_code(key_code);
            assert(k == Keycode::Invalid || k.spec_code() == key_code);
            if k == Keycode::Invalid {
                assert forall|j: Keycode| j != Keycode::Invalid implies j.spec_code() != key_code by {
                    code_reads_back(j, key_code);
                }
            }
        },
        RawEvent::KeyUp { key_code, .. } => {
            let k = Keycode::spec_from_code(key_code);
            assert(k == Keycode::Invalid || k.spec_code() == key_code);
            if k == Keycode::Invalid {
                assert forall|j: Keycode| j != Keycode::Invalid implies j.spec_code() != key_code by {
                    code_reads_back(j, key_code);
                }
            }
        },
        _ => {},
    }
}

impl Event {
    /// The engine event for a window event; `None` for events that are
    /// dropped.
    pub fn from_raw(raw: RawEvent) -> (res: Option<Event>)
        ensures
            res == spec_translate(raw),
    {
        match raw {
            RawEvent::Invalid => None,
            RawEvent::KeyDown { key_code, repeat } => Some(Event::KeyDown(Keycode::from_code(key_code), repeat)),
            RawEvent::KeyUp { key_code, repeat } => Some(Event::KeyUp(Keycode::from_code(key_code), repeat)),
            RawEvent::Char { char_code } => {
                let res = Event::from_char_code(char_code);
                proof {
                    if let Some(Event::Character(c)) = res {
                        assert(c == (char_code as char));
                    }
                }
                res
            },
            RawEvent::MouseDown { button } => Some(Event::MouseDown(MouseButton::from_code(button))),
            RawEvent::MouseUp { button } => Some(Event::MouseUp(MouseButton::from_code(button))),
            RawEvent::MouseScroll(v) => Some(Event::MouseScroll(v)),
            RawEvent::MouseMove { abs, delta } => Some(Event::MouseMove { abs, delta }),
            RawEvent::MouseEnter => Some(Event::MouseEnter),
            RawEvent::MouseLeave => Some(Event::MouseLeave),
            RawEvent::Resized => Some(Event::Resized),
            RawEvent::Iconified => Some(Event::Minimised),
            RawEvent::Restored => Some(Event::Restored),
            RawEvent::Focused => Some(Event::Focused),
            RawEvent::Unfocused => Some(Event::Unfocused),
            RawEvent::Suspended => Some(Event::Suspended),
            RawEvent::Resumed => Some(Event::Resumed),
            RawEvent::QuitRequested => Some(Event::QuitRequested),
        }
    }

    /// The event of typing the character with the value `code`; `None`
    /// when `code` is no character, and the event is dropped.
    pub fn from_char_code(code: u32) -> (res: Option<Event>)
        ensures
            res is Some <==> is_scalar_value(code),
            res matches Some(e) ==> e matches Event::Character(c) && c as u32 == code,
    {
        match char_from_u32(code) {
            Some(c) => Some(Event::Character(c)),
            None => None,
        }
    }
}

/// A pair of `f32` values, each kept as its IEEE-754 bit pattern
/// (`f32::to_bits`): the engine's logic passes them on without computing
/// with them.
#[derive(Copy, Clone, Debug, PartialEq, Eq, Structural)]
pub struct Vec2Bits {
    pub x: u32,
    pub y: u32,
}

/// An input or window event.
#[derive(Copy, Clone, Debug, PartialEq, Eq, Structural)]
pub enum Event {
    KeyDown(Keycode, bool),
    KeyUp(Keycode, bool),
    Character(char),
    MouseDown(MouseButton),
    MouseUp(MouseButton),
    /// The pointer moved: its new position and how far it moved.
    MouseMove { abs: Vec2Bits, delta: Vec2Bits },
    /// The wheel turned by this amount on each axis.
    MouseScroll(Vec2Bits),
    MouseLeave,
    MouseEnter,
    Resized,
    Minimised,
    Restored,
    Focused,
    Unfocused,
    Suspended,
    Resumed,
    QuitRequested,
}

/// Lowercase mapping of `str::to_lowercase`, applied to a whole string.
pub uninterp spec fn spec_to_lowercase(s: Seq<char>) -> Seq<char>;

/// The ASCII lowercase of a character: `A`..`Z` map to `a`..`z`, every
/// other character to itself.
pub open spec fn ascii_lower(c: char) -> char {
    if 'A' <= c && c <= 'Z' {
        ((c as u32) + 32) as char
    } else {
        c
    }
}

/// Wraps `str::to_lowercase` from std: the result is the Unicode lowercase
/// mapping of the argument, a function of the argument alone; on ASCII
/// input it maps each character by `ascii_lower`, as std documents.
#[verifier::external_body]
fn str_to_lowercase(s: &str) -> (res: String)
    ensures
        res@ == spec_to_lowercase(s@),
        vstd::utf8::is_ascii_chars(s@) ==> res@ == s@.map_values(|c: char| ascii_lower(c)),
{
    s.to_lowercase()
}

/// Whether two strings hold the same characters.
pub(crate) fn str_eq(a: &str, b: &str) -> (res: bool)
    ensures
        res == (a@ == b@),
{
    let n = a.unicode_len();
    if n != b.unicode_len() {
        return false;
    }
    let mut i: usize = 0;
    while i < n
        invariant
            n == a@.len(),
            n == b@.len(),
            i <= n,
            forall|j: int| 0 <= j < i ==> a@[j] == b@[j],
        decreases n - i,
    {
        if a.get_char(i) != b.get_char(i) {
            return false;
        }
        i = i + 1;
    }
    assert(a@ =~= b@);
    true
}

impl Keycode {
    /// The numeric code of the key.
    pub open spec fn spec_code(self) -> u16 {
        match self {
            Keycode::Invalid => 0,
            Keycode::Space => 32,
            Keycode::Apostrophe => 39,
            Keycode::Comma => 44,
            Keycode::Minus => 45,
            Keycode::Period => 46,
            Keycode::Slash => 47,
            Keycode::Num0 => 48,
            Keycode::Num1 => 49,
            Keycode::Num2 => 50,
            Keycode::Num3 => 51,
            Keycode::Num4 => 52,
            Keycode::Num5 => 53,
            Keycode::Num6 => 54,
            Keycode::Num7 => 55,
            Keycode::Num8 => 56,
            Keycode::Num9 => 57,
            Keycode::Semicolon => 59,
            Keycode::Equal => 61,
            Keycode::A => 65,
            Keycode::B => 66,
            Keycode::C => 67,
            Keycode::D => 68,
            Keycode::E => 69,
            Keycode::F => 70,
            Keycode::G => 71,
            Keycode::H => 72,
            Keycode::I => 73,
            Keycode::J => 74,
            Keycode::K => 75,
            Keycode::L => 76,
            Keycode::M => 77,
            Keycode::N => 78,
            Keycode::O => 79,
            Keycode::P => 80,
            Keycode::Q => 81,
            Keycode::R => 82,
            Keycode::S => 83,
            Keycode::T => 84,
            Keycode::U => 85,
            Keycode::V => 86,
            Keycode::W => 87,
            Keycode::X => 88,
            Keycode::Y => 89,
            Keycode::Z => 90,
            Keycode::LeftBracket => 91,
            Keycode::Backslash => 92,
            Keycode::RightBracket => 93,
            Keycode::GraveAccent => 96,
            Keycode::World1 => 161,
            Keycode::World2 => 162,
            Keycode::Escape => 256,
            Keycode::Enter => 257,
            Keycode::Tab => 258,
            Keycode::Backspace => 259,
            Keycode::Insert => 260,
            Keycode::Delete => 261,
            Keycode::Right => 262,
            Keycode::Left => 263,
            Keycode::Down => 264,
            Keycode::Up => 265,
            Keycode::PageUp => 266,
            Keycode::PageDown => 267,
            Keycode::Home => 268,
            Keycode::End => 269,
            Keycode::CapsLock => 280,
            Keycode::ScrollLock => 281,
            Keycode::NumLock => 282,
            Keycode::PrintScreen => 283,
            Keycode::Pause => 284,
            Keycode::F1 => 290,
            Keycode::F2 => 291,
            Keycode::F3 => 292,
            Keycode::F4 => 293,
            Keycode::F5 => 294,
            Keycode::F6 => 295,
            Keycode::F7 => 296,
            Keycode::F8 => 297,
            Keycode::F9 => 298,
            Keycode::F10 => 299,
            Keycode::F11 => 300,
            Keycode::F12 => 301,
            Keycode::F13 => 302,
            Keycode::F14 => 303,
            Keycode::F15 => 304,
            Keycode::F16 => 305,
            Keycode::F17 => 306,
            Keycode::F18 => 307,
            Keycode::F19 => 308,
            Keycode::F20 => 309,
            Keycode::F21 => 310,
            Keycode::F22 => 311,
            Keycode::F23 => 312,
            Keycode::F24 => 313,
            Keycode::F25 => 314,
            Keycode::Kp0 => 320,
            Keycode::Kp1 => 321,
            Keycode::Kp2 => 322,
            Keycode::Kp3 => 323,
            Keycode::Kp4 => 324,
            Keycode::Kp5 => 325,
            Keycode::Kp6 => 326,
            Keycode::Kp7 => 327,
            Keycode::Kp8 => 328,
            Keycode::Kp9 => 329,
            Keycode::KpDecimal => 330,
            Keycode::KpDivide => 331,
            Keycode::KpMultiply => 332,
            Keycode::KpSubtract => 333,
            Keycode::KpAdd => 334,
            Keycode::KpEnter => 335,
            Keycode::KpEqual => 336,
            Keycode::LeftShift => 340,
            Keycode::LeftControl => 341,
            Keycode::LeftAlt => 342,
            Keycode::LeftSuper => 343,
            Keycode::RightShift => 344,
            Keycode::RightControl => 345,
            Keycode::RightAlt => 346,
            Keycode::RightSuper => 347,
            Keycode::Menu => 348,
        }
    }

    /// The numeric code of the key.
    #[verifier::when_used_as_spec(spec_code)]
    pub fn code(self) -> (res: u16)
        ensures
            res == self.spec_code(),
            res < 512,
    {
        match self {
            Keycode::Invalid => 0,
            Keycode::Space => 32,
            Keycode::Apostrophe => 39,
            Keycode::Comma => 44,
            Keycode::Minus => 45,
            Keycode::Period => 46,
            Keycode::Slash => 47,
            Keycode::Num0 => 48,
            Keycode::Num1 => 49,
            Keycode::Num2 => 50,
            Keycode::Num3 => 51,
            Keycode::Num4 => 52,
            Keycode::Num5 => 53,
            Keycode::Num6 => 54,
            Keycode::Num7 => 55,
            Keycode::Num8 => 56,
            Keycode::Num9 => 57,
            Keycode::Semicolon => 59,
            Keycode::Equal => 61,
            Keycode::A => 65,
            Keycode::B => 66,
            Keycode::C => 67,
            Keycode::D => 68,
            Keycode::E => 69,
            Keycode::F => 70,
            Keycode::G => 71,
            Keycode::H => 72,
            Keycode::I => 73,
            Keycode::J => 74,
            Keycode::K => 75,
            Keycode::L => 76,
            Keycode::M => 77,
            Keycode::N => 78,
            Keycode::O => 79,
            Keycode::P => 80,
            Keycode::Q => 81,
            Keycode::R => 82,
            Keycode::S => 83,
            Keycode::T => 84,
            Keycode::U => 85,
            Keycode::V => 86,
            Keycode::W => 87,
            Keycode::X => 88,
            Keycode::Y => 89,
            Keycode::Z => 90,
            Keycode::LeftBracket => 91,
            Keycode::Backslash => 92,
            Keycode::RightBracket => 93,
            Keycode::GraveAccent => 96,
            Keycode::World1 => 161,
            Keycode::World2 => 162,
            Keycode::Escape => 256,
            Keycode::Enter => 257,
            Keycode::Tab => 258,
            Keycode::Backspace => 259,
            Keycode::Insert => 260,
            Keycode::Delete => 261,
            Keycode::Right => 262,
            Keycode::Left => 263,
            Keycode::Down => 264,
            Keycode::Up => 265,
            Keycode::PageUp => 266,
            Keycode::PageDown => 267,
            Keycode::Home => 268,
            Keycode::End => 269,
            Keycode::CapsLock => 280,
            Keycode::ScrollLock => 281,
            Keycode::NumLock => 282,
            Keycode::PrintScreen => 283,
            Keycode::Pause => 284,
            Keycode::F1 => 290,
            Keycode::F2 => 291,
            Keycode::F3 => 292,
            Keycode::F4 => 293,
            Keycode::F5 => 294,
            Keycode::F6 => 295,
            Keycode::F7 => 296,
            Keycode::F8 => 297,
            Keycode::F9 => 298,
            Keycode::F10 => 299,
            Keycode::F11 => 300,
            Keycode::F12 => 301,
            Keycode::F13 => 302,
            Keycode::F14 => 303,
            Keycode::F15 => 304,
            Keycode::F16 => 305,
            Keycode::F17 => 306,
            Keycode::F18 => 307,
            Keycode::F19 => 308,
            Keycode::F20 => 309,
            Keycode::F21 => 310,
            Keycode::F22 => 311,
            Keycode::F23 => 312,
            Keycode::F24 => 313,
            Keycode::F25 => 314,
            Keycode::Kp0 => 320,
            Keycode::Kp1 => 321,
            Keycode::Kp2 => 322,
            Keycode::Kp3 => 323,
            Keycode::Kp4 => 324,
            Keycode::Kp5 => 325,
            Keycode::Kp6 => 326,
            Keycode::Kp7 => 327,
            Keycode::Kp8 => 328,
            Keycode::Kp9 => 329,
            Keycode::KpDecimal => 330,
            Keycode::KpDivide => 331,
            Keycode::KpMultiply => 332,
            Keycode::KpSubtract => 333,
            Keycode::KpAdd => 334,
            Keycode::KpEnter => 335,
            Keycode::KpEqual => 336,
            Keycode::LeftShift => 340,
            Keycode::LeftControl => 341,
            Keycode::LeftAlt => 342,
            Keycode::LeftSuper => 343,
            Keycode::RightShift => 344,
            Keycode::RightControl => 345,
            Keycode::RightAlt => 346,
            Keycode::RightSuper => 347,
            Keycode::Menu => 348,
        }
    }

    /// The key whose code is `code`; `Invalid` for a number that is no
    /// key's code.
    pub open spec fn spec_from_code(code: i32) -> Keycode {
        match code {
            32 => Keycode::Space,
            39 => Keycode::Apostrophe,
            44 => Keycode::Comma,
            45 => Keycode::Minus,
            46 => Keycode::Period,
            47 => Keycode::Slash,
            48 => Keycode::Num0,
            49 => Keycode::Num1,
            50 => Keycode::Num2,
            51 => Keycode::Num3,
            52 => Keycode::Num4,
            53 => Keycode::Num5,
            54 => Keycode::Num6,
            55 => Keycode::Num7,
            56 => Keycode::Num8,
            57 => Keycode::Num9,
            59 => Keycode::Semicolon,
            61 => Keycode::Equal,
            65 => Keycode::A,
            66 => Keycode::B,
            67 => Keycode::C,
            68 => Keycode::D,
            69 => Keycode::E,
            70 => Keycode::F,
            71 => Keycode::G,
            72 => Keycode::H,
            73 => Keycode::I,
            74 => Keycode::J,
            75 => Keycode::K,
            76 => Keycode::L,
            77 => Keycode::M,
            78 => Keycode::N,
            79 => Keycode::O,
            80 => Keycode::P,
            81 => Keycode::Q,
            82 => Keycode::R,
            83 => Keycode::S,
            84 => Keycode::T,
            85 => Keycode::U,
            86 => Keycode::V,
            87 => Keycode::W,
            88 => Keycode::X,
            89 => Keycode::Y,
            90 => Keycode::Z,
            91 => Keycode::LeftBracket,
            92 => Keycode::Backslash,
            93 => Keycode::RightBracket,
            96 => Keycode::GraveAccent,
            161 => Keycode::World1,
            162 => Keycode::World2,
            256 => Keycode::Escape,
            257 => Keycode::Enter,
            258 => Keycode::Tab,
            259 => Keycode::Backspace,
            260 => Keycode::Insert,
            261 => Keycode::Delete,
            262 => Keycode::Right,
            263 => Keycode::Left,
            264 => Keycode::Down,
            265 => Keycode::Up,
            266 => Keycode::PageUp,
            267 => Keycode::PageDown,
            268 => Keycode::Home,
            269 => Keycode::End,
            280 => Keycode::CapsLock,
            281 => Keycode::ScrollLock,
            282 => Keycode::NumLock,
            283 => Keycode::PrintScreen,
            284 => Keycode::Pause,
            290 => Keycode::F1,
            291 => Keycode::F2,
            292 => Keycode::F3,
            293 => Keycode::F4,
            294 => Keycode::F5,
            295 => Keycode::F6,
            296 => Keycode::F7,
            297 => Keycode::F8,
            298 => Keycode::F9,
            299 => Keycode::F10,
            300 => Keycode::F11,
            301 => Keycode::F12,
            302 => Keycode::F13,
            303 => Keycode::F14,
            304 => Keycode::F15,
            305 => Keycode::F16,
            306 => Keycode::F17,
            307 => Keycode::F18,
            308 => Keycode::F19,
            309 => Keycode::F20,
            310 => Keycode::F21,
            311 => Keycode::F22,
            312 => Keycode::F23,
            313 => Keycode::F24,
            314 => Keycode::F25,
            320 => Keycode::Kp0,
            321 => Keycode::Kp1,
            322 => Keycode::Kp2,
            323 => Keycode::Kp3,
            324 => Keycode::Kp4,
            325 => Keycode::Kp5,
            326 => Keycode::Kp6,
            327 => Keycode::Kp7,
            328 => Keycode::Kp8,
            329 => Keycode::Kp9,
            330 => Keycode::KpDecimal,
            331 => Keycode::KpDivide,
            332 => Keycode::KpMultiply,
            333 => Keycode::KpSubtract,
            334 => Keycode::KpAdd,
            335 => Keycode::KpEnter,
            336 => Keycode::KpEqual,
            340 => Keycode::LeftShift,
            341 => Keycode::LeftControl,
            342 => Keycode::LeftAlt,
            343 => Keycode::LeftSuper,
            344 => Keycode::RightShift,
            345 => Keycode::RightControl,
            346 => Keycode::RightAlt,
            347 => Keycode::RightSuper,
            348 => Keycode::Menu,
            _ => Keycode::Invalid,
        }
    }

    /// The key whose code is `code`; `Invalid` for a number that is no
    /// key's code.
    pub fn from_code(code: i32) -> (res: Keycode)
        ensures
            res == Keycode::spec_from_code(code),
    {
        match code {
            32 => Keycode::Space,
            39 => Keycode::Apostrophe,
            44 => Keycode::Comma,
            45 => Keycode::Minus,
            46 => Keycode::Period,
            47 => Keycode::Slash,
            48 => Keycode::Num0,
            49 => Keycode::Num1,
            50 => Keycode::Num2,
            51 => Keycode::Num3,
            52 => Keycode::Num4,
            53 => Keycode::Num5,
            54 => Keycode::Num6,
            55 => Keycode::Num7,
            56 => Keycode::Num8,
            57 => Keycode::Num9,
            59 => Keycode::Semicolon,
            61 => Keycode::Equal,
            65 => Keycode::A,
            66 => Keycode::B,
            67 => Keycode::C,
            68 => Keycode::D,
            69 => Keycode::E,
            70 => Keycode::F,
            71 => Keycode::G,
            72 => Keycode::H,
            73 => Keycode::I,
            74 => Keycode::J,
            75 => Keycode::K,
            76 => Keycode::L,
            77 => Keycode::M,
            78 => Keycode::N,
            79 => Keycode::O,
            80 => Keycode::P,
            81 => Keycode::Q,
            82 => Keycode::R,
            83 => Keycode::S,
            84 => Keycode::T,
            85 => Keycode::U,
            86 => Keycode::V,
            87 => Keycode::W,
            88 => Keycode::X,
            89 => Keycode::Y,
            90 => Keycode::Z,
            91 => Keycode::LeftBracket,
            92 => Keycode::Backslash,
            93 => Keycode::RightBracket,
            96 => Keycode::GraveAccent,
            161 => Keycode::World1,
            162 => Keycode::World2,
            256 => Keycode::Escape,
            257 => Keycode::Enter,
            258 => Keycode::Tab,
            259 => Keycode::Backspace,
            260 => Keycode::Insert,
            261 => Keycode::Delete,
            262 => Keycode::Right,
            263 => Keycode::Left,
            264 => Keycode::Down,
            265 => Keycode::Up,
            266 => Keycode::PageUp,
            267 => Keycode::PageDown,
            268 => Keycode::Home,
            269 => Keycode::End,
            280 => Keycode::CapsLock,
            281 => Keycode::ScrollLock,
            282 => Keycode::NumLock,
            283 => Keycode::PrintScreen,
            284 => Keycode::Pause,
            290 => Keycode::F1,
            291 => Keycode::F2,
            292 => Keycode::F3,
            293 => Keycode::F4,
            294 => Keycode::F5,
            295 => Keycode::F6,
            296 => Keycode::F7,
            297 => Keycode::F8,
            298 => Keycode::F9,
            299 => Keycode::F10,
            300 => Keycode::F11,
            301 => Keycode::F12,
            302 => Keycode::F13,
            303 => Keycode::F14,
            304 => Keycode::F15,
            305 => Keycode::F16,
            306 => Keycode::F17,
            307 => Keycode::F18,
            308 => Keycode::F19,
            309 => Keycode::F20,
            310 => Keycode::F21,
            311 => Keycode::F22,
            312 => Keycode::F23,
            313 => Keycode::F24,
            314 => Keycode::F25,
            320 => Keycode::Kp0,
            321 => Keycode::Kp1,
            322 => Keycode::Kp2,
            323 => Keycode::Kp3,
            324 => Keycode::Kp4,
            325 => Keycode::Kp5,
            326 => Keycode::Kp6,
            327 => Keycode::Kp7,
            328 => Keycode::Kp8,
            329 => Keycode::Kp9,
            330 => Keycode::KpDecimal,
            331 => Keycode::KpDivide,
            332 => Keycode::KpMultiply,
            333 => Keycode::KpSubtract,
            334 => Keycode::KpAdd,
            335 => Keycode::KpEnter,
            336 => Keycode::KpEqual,
            340 => Keycode::LeftShift,
            341 => Keycode::LeftControl,
            342 => Keycode::LeftAlt,
            343 => Keycode::LeftSuper,
            344 => Keycode::RightShift,
            345 => Keycode::RightControl,
            346 => Keycode::RightAlt,
            347 => Keycode::RightSuper,
            348 => Keycode::Menu,
            _ => Keycode::Invalid,
        }
    }


    /// Every key code fits the input manager's table.
    pub proof fn lemma_code_bound(self)
        ensures
            self.spec_code() < 512,
    {
    }

    /// The lowercase name of the key; `Invalid` has none.
    pub open spec fn name(self) -> Option<Seq<char>> {
        match self {
            Keycode::Invalid => None,
            Keycode::Space => Some("space"@),
            Keycode::Apostrophe => Some("apostrophe"@),
            Keycode::Comma => Some("comma"@),
            Keycode::Minus => Some("minus"@),
            Keycode::Period => Some("period"@),
            Keycode::Slash => Some("slash"@),
            Keycode::Num0 => Some("num0"@),
            Keycode::Num1 => Some("num1"@),
            Keycode::Num2 => Some("num2"@),
            Keycode::Num3 => Some("num3"@),
            Keycode::Num4 => Some("num4"@),
            Keycode::Num5 => Some("num5"@),
            Keycode::Num6 => Some("num6"@),
            Keycode::Num7 => Some("num7"@),
            Keycode::Num8 => Some("num8"@),
            Keycode::Num9 => Some("num9"@),
            Keycode::Semicolon => Some("semicolon"@),
            Keycode::Equal => Some("equal"@),
            Keycode::A => Some("a"@),
            Keycode::B => Some("b"@),
            Keycode::C => Some("c"@),
            Keycode::D => Some("d"@),
            Keycode::E => Some("e"@),
            Keycode::F => Some("f"@),
            Keycode::G => Some("g"@),
            Keycode::H => Some("h"@),
            Keycode::I => Some("i"@),
            Keycode::J => Some("j"@),
            Keycode::K => Some("k"@),
            Keycode::L => Some("l"@),
            Keycode::M => Some("m"@),
            Keycode::N => Some("n"@),
            Keycode::O => Some("o"@),
            Keycode::P => Some("p"@),
            Keycode::Q => Some("q"@),
            Keycode::R => Some("r"@),
            Keycode::S => Some("s"@),
            Keycode::T => Some("t"@),
            Keycode::U => Some("u"@),
            Keycode::V => Some("v"@),
            Keycode::W => Some("w"@),
            Keycode::X => Some("x"@),
            Keycode::Y => Some("y"@),
            Keycode::Z => Some("z"@),
            Keycode::LeftBracket => Some("leftbracket"@),
            Keycode::Backslash => Some("backslash"@),
            Keycode::RightBracket => Some("rightbracket"@),
            Keycode::GraveAccent => Some("graveaccent"@),
            Keycode::World1 => Some("world1"@),
            Keycode::World2 => Some("world2"@),
            Keycode::Escape => Some("escape"@),
            Keycode::Enter => Some("enter"@),
            Keycode::Tab => Some("tab"@),
            Keycode::Backspace => Some("backspace"@),
            Keycode::Insert => Some("insert"@),
            Keycode::Delete => Some("delete"@),
            Keycode::Right => Some("right"@),
            Keycode::Left => Some("left"@),
            Keycode::Down => Some("down"@),
            Keycode::Up => Some("up"@),
            Keycode::PageUp => Some("pageup"@),
            Keycode::PageDown => Some("pagedown"@),
            Keycode::Home => Some("home"@),
            Keycode::End => Some("end"@),
            Keycode::CapsLock => Some("capslock"@),
            Keycode::ScrollLock => Some("scrolllock"@),
            Keycode::NumLock => Some("numlock"@),
            Keycode::PrintScreen => Some("printscreen"@),
            Keycode::Pause => Some("pause"@),
            Keycode::F1 => Some("f1"@),
            Keycode::F2 => Some("f2"@),
            Keycode::F3 => Some("f3"@),
            Keycode::F4 => Some("f4"@),
            Keycode::F5 => Some("f5"@),
            Keycode::F6 => Some("f6"@),
            Keycode::F7 => Some("f7"@),
            Keycode::F8 => Some("f8"@),
            Keycode::F9 => Some("f9"@),
            Keycode::F10 => Some("f10"@),
            Keycode::F11 => Some("f11"@),
            Keycode::F12 => Some("f12"@),
            Keycode::F13 => Some("f13"@),
            Keycode::F14 => Some("f14"@),
            Keycode::F15 => Some("f15"@),
            Keycode::F16 => Some("f16"@),
            Keycode::F17 => Some("f17"@),
            Keycode::F18 => Some("f18"@),
            Keycode::F19 => Some("f19"@),
            Keycode::F20 => Some("f20"@),
            Keycode::F21 => Some("f21"@),
            Keycode::F22 => Some("f22"@),
            Keycode::F23 => Some("f23"@),
            Keycode::F24 => Some("f24"@),
            Keycode::F25 => Some("f25"@),
            Keycode::Kp0 => Some("kp0"@),
            Keycode::Kp1 => Some("kp1"@),
            Keycode::Kp2 => Some("kp2"@),
            Keycode::Kp3 => Some("kp3"@),
            Keycode::Kp4 => Some("kp4"@),
            Keycode::Kp5 => Some("kp5"@),
            Keycode::Kp6 => Some("kp6"@),
            Keycode::Kp7 => Some("kp7"@),
            Keycode::Kp8 => Some("kp8"@),
            Keycode::Kp9 => Some("kp9"@),
            Keycode::KpDecimal => Some("kpdecimal"@),
            Keycode::KpDivide => Some("kpdivide"@),
            Keycode::KpMultiply => Some("kpmultiply"@),
            Keycode::KpSubtract => Some("kpsubtract"@),
            Keycode::KpAdd => Some("kpadd"@),
            Keycode::KpEnter => Some("kpenter"@),
            Keycode::KpEqual => Some("kpequal"@),
            Keycode::LeftShift => Some("leftshift"@),
            Keycode::LeftControl => Some("leftcontrol"@),
            Keycode::LeftAlt => Some("leftalt"@),
            Keycode::LeftSuper => Some("leftsuper"@),
            Keycode::RightShift => Some("rightshift"@),
            Keycode::RightControl => Some("rightcontrol"@),
            Keycode::RightAlt => Some("rightalt"@),
            Keycode::RightSuper => Some("rightsuper"@),
            Keycode::Menu => Some("menu"@),
        }
    }

    /// The key whose name is `s` exactly; `None` when no key is so named.
    pub fn from_lowercase_name(s: &str) -> (res: Option<Keycode>)
        ensures
            res matches Some(k) ==> k.name() == Some(s@),
            res is None ==> forall|k: Keycode| #[trigger] k.name() != Some(s@),
            forall|k: Keycode| #[trigger] k.name() == Some(s@) ==> res == Some(k),
    {
        let res = Self::find_name(s);
        proof {
            assert forall|k: Keycode| #[trigger] k.name() == Some(s@) implies res == Some(k) by {
                if let Some(r) = res {
                    names_identify_keys(r, k);
                }
            }
        }
        res
    }

    /// A key named `s`, tried name by name.
    fn find_name(s: &str) -> (res: Option<Keycode>)
        ensures
            res matches Some(k) ==> k.name() == Some(s@),
            res is None ==> forall|k: Keycode| #[trigger] k.name() != Some(s@),
    {
        if str_eq(s, "space") {
            return Some(Keycode::Space);
        }
        if str_eq(s, "apostrophe") {
            return Some(Keycode::Apostrophe);
        }
        if str_eq(s, "comma") {
            return Some(Keycode::Comma);
        }
        if str_eq(s, "minus") {
            return Some(Keycode::Minus);
        }
        if str_eq(s, "period") {
            return Some(Keycode::Period);
        }
        if str_eq(s, "slash") {
            return Some(Keycode::Slash);
        }
        if str_eq(s, "num0") {
            return Some(Keycode::Num0);
        }
        if str_eq(s, "num1") {
            return Some(Keycode::Num1);
        }
        if str_eq(s, "num2") {
            return Some(Keycode::Num2);
        }
        if str_eq(s, "num3") {
            return Some(Keycode::Num3);
        }
        if str_eq(s, "num4") {
            return Some(Keycode::Num4);
        }
        if str_eq(s, "num5") {
            return Some(Keycode::Num5);
        }
        if str_eq(s, "num6") {
            return Some(Keycode::Num6);
        }
        if str_eq(s, "num7") {
            return Some(Keycode::Num7);
        }
        if str_eq(s, "num8") {
            return Some(Keycode::Num8);
        }
        if str_eq(s, "num9") {
            return Some(Keycode::Num9);
        }
        if str_eq(s, "semicolon") {
            return Some(Keycode::Semicolon);
        }
        if str_eq(s, "equal") {
            return Some(Keycode::Equal);
        }
        if str_eq(s, "a") {
            return Some(Keycode::A);
        }
        if str_eq(s, "b") {
            return Some(Keycode::B);
        }
        if str_eq(s, "c") {
            return Some(Keycode::C);
        }
        if str_eq(s, "d") {
            return Some(Keycode::D);
        }
        if str_eq(s, "e") {
            return Some(Keycode::E);
        }
        if str_eq(s, "f") {
            return Some(Keycode::F);
        }
        if str_eq(s, "g") {
            return Some(Keycode::G);
        }
        if str_eq(s, "h") {
            return Some(Keycode::H);
        }
        if str_eq(s, "i") {
            return Some(Keycode::I);
        }
        if str_eq(s, "j") {
            return Some(Keycode::J);
        }
        if str_eq(s, "k") {
            return Some(Keycode::K);
        }
        if str_eq(s, "l") {
            return Some(Keycode::L);
        }
        if str_eq(s, "m") {
            return Some(Keycode::M);
        }
        if str_eq(s, "n") {
            return Some(Keycode::N);
        }
        if str_eq(s, "o") {
            return Some(Keycode::O);
        }
        if str_eq(s, "p") {
            return Some(Keycode::P);
        }
        if str_eq(s, "q") {
            return Some(Keycode::Q);
        }
        if str_eq(s, "r") {
            return Some(Keycode::R);
        }
        if str_eq(s, "s") {
            return Some(Keycode::S);
        }
        if str_eq(s, "t") {
            return Some(Keycode::T);
        }
        if str_eq(s, "u") {
            return Some(Keycode::U);
        }
        if str_eq(s, "v") {
            return Some(Keycode::V);
        }
        if str_eq(s, "w") {
            return Some(Keycode::W);
        }
        if str_eq(s, "x") {
            return Some(Keycode::X);
        }
        if str_eq(s, "y") {
            return Some(Keycode::Y);
        }
        if str_eq(s, "z") {
            return Some(Keycode::Z);
        }
        if str_eq(s, "leftbracket") {
            return Some(Keycode::LeftBracket);
        }
        if str_eq(s, "backslash") {
            return Some(Keycode::Backslash);
        }
        if str_eq(s, "rightbracket") {
            return Some(Keycode::RightBracket);
        }
        if str_eq(s, "graveaccent") {
            return Some(Keycode::GraveAccent);
        }
        if str_eq(s, "world1") {
            return Some(Keycode::World1);
        }
        if str_eq(s, "world2") {
            return Some(Keycode::World2);
        }
        if str_eq(s, "escape") {
            return Some(Keycode::Escape);
        }
        if str_eq(s, "enter") {
            return Some(Keycode::Enter);
        }
        if str_eq(s, "tab") {
            return Some(Keycode::Tab);
        }
        if str_eq(s, "backspace") {
            return Some(Keycode::Backspace);
        }
        if str_eq(s, "insert") {
            return Some(Keycode::Insert);
        }
        if str_eq(s, "delete") {
            return Some(Keycode::Delete);
        }
        if str_eq(s, "right") {
            return Some(Keycode::Right);
        }
        if str_eq(s, "left") {
            return Some(Keycode::Left);
        }
        if str_eq(s, "down") {
            return Some(Keycode::Down);
        }
        if str_eq(s, "up") {
            return Some(Keycode::Up);
        }
        if str_eq(s, "pageup") {
            return Some(Keycode::PageUp);
        }
        if str_eq(s, "pagedown") {
            return Some(Keycode::PageDown);
        }
        if str_eq(s, "home") {
            return Some(Keycode::Home);
        }
        if str_eq(s, "end") {
            return Some(Keycode::End);
        }
        if str_eq(s, "capslock") {
            return Some(Keycode::CapsLock);
        }
        if str_eq(s, "scrolllock") {
            return Some(Keycode::ScrollLock);
        }
        if str_eq(s, "numlock") {
            return Some(Keycode::NumLock);
        }
        if str_eq(s, "printscreen") {
            return Some(Keycode::PrintScreen);
        }
        if str_eq(s, "pause") {
            return Some(Keycode::Pause);
        }
        if str_eq(s, "f1") {
            return Some(Keycode::F1);
        }
        if str_eq(s, "f2") {
            return Some(Keycode::F2);
        }
        if str_eq(s, "f3") {
            return Some(Keycode::F3);
        }
        if str_eq(s, "f4") {
            return Some(Keycode::F4);
        }
        if str_eq(s, "f5") {
            return Some(Keycode::F5);
        }
        if str_eq(s, "f6") {
            return Some(Keycode::F6);
        }
        if str_eq(s, "f7") {
            return Some(Keycode::F7);
        }
        if str_eq(s, "f8") {
            return Some(Keycode::F8);
        }
        if str_eq(s, "f9") {
            return Some(Keycode::F9);
        }
        if str_eq(s, "f10") {
            return Some(Keycode::F10);
        }
        if str_eq(s, "f11") {
            return Some(Keycode::F11);
        }
        if str_eq(s, "f12") {
            return Some(Keycode::F12);
        }
        if str_eq(s, "f13") {
            return Some(Keycode::F13);
        }
        if str_eq(s, "f14") {
            return Some(Keycode::F14);
        }
        if str_eq(s, "f15") {
            return Some(Keycode::F15);
        }
        if str_eq(s, "f16") {
            return Some(Keycode::F16);
        }
        if str_eq(s, "f17") {
            return Some(Keycode::F17);
        }
        if str_eq(s, "f18") {
            return Some(Keycode::F18);
        }
        if str_eq(s, "f19") {
            return Some(Keycode::F19);
        }
        if str_eq(s, "f20") {
            return Some(Keycode::F20);
        }
        if str_eq(s, "f21") {
            return Some(Keycode::F21);
        }
        if str_eq(s, "f22") {
            return Some(Keycode::F22);
        }
        if str_eq(s, "f23") {
            return Some(Keycode::F23);
        }
        if str_eq(s, "f24") {
            return Some(Keycode::F24);
        }
        if str_eq(s, "f25") {
            return Some(Keycode::F25);
        }
        if str_eq(s, "kp0") {
            return Some(Keycode::Kp0);
        }
        if str_eq(s, "kp1") {
            return Some(Keycode::Kp1);
        }
        if str_eq(s, "kp2") {
            return Some(Keycode::Kp2);
        }
        if str_eq(s, "kp3") {
            return Some(Keycode::Kp3);
        }
        if str_eq(s, "kp4") {
            return Some(Keycode::Kp4);
        }
        if str_eq(s, "kp5") {
            return Some(Keycode::Kp5);
        }
        if str_eq(s, "kp6") {
            return Some(Keycode::Kp6);
        }
        if str_eq(s, "kp7") {
            return Some(Keycode::Kp7);
        }
        if str_eq(s, "kp8") {
            return Some(Keycode::Kp8);
        }
        if str_eq(s, "kp9") {
            return Some(Keycode::Kp9);
        }
        if str_eq(s, "kpdecimal") {
            return Some(Keycode::KpDecimal);
        }
        if str_eq(s, "kpdivide") {
            return Some(Keycode::KpDivide);
        }
        if str_eq(s, "kpmultiply") {
            return Some(Keycode::KpMultiply);
        }
        if str_eq(s, "kpsubtract") {
            return Some(Keycode::KpSubtract);
        }
        if str_eq(s, "kpadd") {
            return Some(Keycode::KpAdd);
        }
        if str_eq(s, "kpenter") {
            return Some(Keycode::KpEnter);
        }
        if str_eq(s, "kpequal") {
            return Some(Keycode::KpEqual);
        }
        if str_eq(s, "leftshift") {
            return Some(Keycode::LeftShift);
        }
        if str_eq(s, "leftcontrol") {
            return Some(Keycode::LeftControl);
        }
        if str_eq(s, "leftalt") {
            return Some(Keycode::LeftAlt);
        }
        if str_eq(s, "leftsuper") {
            return Some(Keycode::LeftSuper);
        }
        if str_eq(s, "rightshift") {
            return Some(Keycode::RightShift);
        }
        if str_eq(s, "rightcontrol") {
            return Some(Keycode::RightControl);
        }
        if str_eq(s, "rightalt") {
            return Some(Keycode::RightAlt);
        }
        if str_eq(s, "rightsuper") {
            return Some(Keycode::RightSuper);
        }
        if str_eq(s, "menu") {
            return Some(Keycode::Menu);
        }
        None
    }

    /// The key named by `str`, case aside: the name is matched after the
    /// string is lowercased as `str::to_lowercase` does, which on ASCII
    /// text maps `A`..`Z` to `a`..`z`.
    pub fn from_str(str: &str) -> (res: Option<Self>)
        ensures
            res matches Some(k) ==> k.name() == Some(spec_to_lowercase(str@)),
            res is None ==> forall|k: Keycode| #[trigger] k.name() != Some(spec_to_lowercase(str@)),
            vstd::utf8::is_ascii_chars(str@) ==> spec_to_lowercase(str@) == str@.map_values(
                |c: char| ascii_lower(c),
            ),
            forall|k: Keycode| #[trigger] k.name() == Some(spec_to_lowercase(str@)) ==> res == Some(k),
            forall|k: Keycode|
                vstd::utf8::is_ascii_chars(str@) && #[trigger] k.name() == Some(
                    str@.map_values(|c: char| ascii_lower(c)),
                ) ==> res == Some(k),
    {
        let lower = str_to_lowercase(str);
        let res = Self::from_lowercase_name(lower.as_str());
        proof {
            assert forall|k: Keycode| #[trigger] k.name() == Some(spec_to_lowercase(str@)) implies res == Some(
                k,
            ) by {
                if let Some(r) = res {
                    names_identify_keys(r, k);
                }
            }
        }
        res
    }
}

/// The events of the current frame, in the order they arrived.
pub struct EventManager {
    events: Vec<Event>,
}

impl EventManager {
    /// The events queued so far.
    pub closed spec fn queue(&self) -> Seq<Event> {
        self.events@
    }

    /// An empty queue.
    pub fn new() -> (res: Self)
        ensures
            res.queue() == Seq::<Event>::empty(),
    {
        EventManager { events: Vec::new() }
    }

    /// Appends an event to the queue.
    pub fn push_event(&mut self, e: Event)
        ensures
            final(self).queue() == old(self).queue().push(e),
    {
        self.events.push(e);
    }

    /// The queued events, oldest first.
    pub fn event_queue(&self) -> (res: &[Event])
        ensures
            res@ == self.queue(),
    {
        self.events.as_slice()
    }

    /// Empties the queue.
    pub fn clear_queue(&mut self)
        ensures
            final(self).queue() == Seq::<Event>::empty(),
    {
        self.events.clear();
    }
}

/// No two keys share a code.
pub proof fn codes_identify_keys(a: Keycode, b: Keycode)
    ensures
        a.spec_code() == b.spec_code() ==> a == b,
{
}

/// Reading back the code of a key gives the key, and a number that is no
/// key's code reads as `Invalid`.
pub proof fn code_reads_back(k: Keycode, code: i32)
    ensures
        Keycode::spec_from_code(k.spec_code() as i32) == k,
        (forall|j: Keycode| j.spec_code() != code) ==> Keycode::spec_from_code(code) == Keycode::Invalid,
{
    let r = Keycode::spec_from_code(code);
    assert(r == Keycode::Invalid || r.spec_code() == code);
}

/// The keys `keys` carry the consecutive codes `base`, `base + 1`, ... in
/// their order, and each of those codes reads back as its key.
pub open spec fn numbered_from(keys: Seq<Keycode>, base: int) -> bool {
    forall|i: int|
        0 <= i < keys.len() ==> (#[trigger] keys[i]).spec_code() == base + i && Keycode::spec_from_code(
            (base + i) as i32,
        ) == keys[i]
}

/// The digit keys `0` to `9` of the main block, in order.
pub open spec fn digit_keys() -> Seq<Keycode> {
    seq![
        Keycode::Num0, Keycode::Num1, Keycode::Num2, Keycode::Num3, Keycode::Num4, Keycode::Num5,
        Keycode::Num6, Keycode::Num7, Keycode::Num8, Keycode::Num9,
    ]
}

/// The letter keys `A` to `Z`, in order.
pub open spec fn letter_keys() -> Seq<Keycode> {
    seq![
        Keycode::A, Keycode::B, Keycode::C, Keycode::D, Keycode::E, Keycode::F, Keycode::G,
        Keycode::H, Keycode::I, Keycode::J, Keycode::K, Keycode::L, Keycode::M, Keycode::N,
        Keycode::O, Keycode::P, Keycode::Q, Keycode::R, Keycode::S, Keycode::T, Keycode::U,
        Keycode::V, Keycode::W, Keycode::X, Keycode::Y, Keycode::Z,
    ]
}

/// The two keys that only non-US layouts have.
pub open spec fn world_keys() -> Seq<Keycode> {
    seq![
        Keycode::World1, Keycode::World2,
    ]
}

/// The editing and navigation keys, in the window layer's order.
pub open spec fn editing_keys() -> Seq<Keycode> {
    seq![
        Keycode::Escape, Keycode::Enter, Keycode::Tab, Keycode::Backspace, Keycode::Insert,
        Keycode::Delete, Keycode::Right, Keycode::Left, Keycode::Down, Keycode::Up,
        Keycode::PageUp, Keycode::PageDown, Keycode::Home, Keycode::End,
    ]
}

/// The lock keys, Print Screen and Pause, in the window layer's order.
pub open spec fn lock_keys() -> Seq<Keycode> {
    seq![
        Keycode::CapsLock, Keycode::ScrollLock, Keycode::NumLock, Keycode::PrintScreen,
        Keycode::Pause,
    ]
}

/// The function keys `F1` to `F25`, in order.
pub open spec fn function_keys() -> Seq<Keycode> {
    seq![
        Keycode::F1, Keycode::F2, Keycode::F3, Keycode::F4, Keycode::F5, Keycode::F6, Keycode::F7,
        Keycode::F8, Keycode::F9, Keycode::F10, Keycode::F11, Keycode::F12, Keycode::F13,
        Keycode::F14, Keycode::F15, Keycode::F16, Keycode::F17, Keycode::F18, Keycode::F19,
        Keycode::F20, Keycode::F21, Keycode::F22, Keycode::F23, Keycode::F24, Keycode::F25,
    ]
}

/// The keypad's digits `0` to `9`, then its other keys, in the window layer's order.
pub open spec fn keypad_keys() -> Seq<Keycode> {
    seq![
        Keycode::Kp0, Keycode::Kp1, Keycode::Kp2, Keycode::Kp3, Keycode::Kp4, Keycode::Kp5,
        Keycode::Kp6, Keycode::Kp7, Keycode::Kp8, Keycode::Kp9, Keycode::KpDecimal,
        Keycode::KpDivide, Keycode::KpMultiply, Keycode::KpSubtract, Keycode::KpAdd,
        Keycode::KpEnter, Keycode::KpEqual,
    ]
}

/// The modifier keys, left then right, then Menu, in the window layer's order.
pub open spec fn modifier_keys() -> Seq<Keycode> {
    seq![
        Keycode::LeftShift, Keycode::LeftControl, Keycode::LeftAlt, Keycode::LeftSuper,
        Keycode::RightShift, Keycode::RightControl, Keycode::RightAlt, Keycode::RightSuper,
        Keycode::Menu,
    ]
}

/// Key codes are the numbers that the window layer gives keys.  A key
/// that types a printable character has that character's ASCII code: the
/// punctuation keys and the space bar their own, the digit keys their
/// digit's, the letter keys their uppercase letter's.  The other keys are
/// numbered in runs: the keys of non-US layouts from 161, the editing and
/// navigation keys from 256, the lock keys from 280, the function keys
/// from 290, the keypad from 320 and the modifiers from 340.  Each of
/// these codes reads back as its key, and `Invalid` has code 0.
pub proof fn key_codes_are_window_layer_codes()
    ensures
        Keycode::Space.spec_code() == ' ' as int && Keycode::spec_from_code(' ' as i32)
            == Keycode::Space,
        Keycode::Apostrophe.spec_code() == '\'' as int && Keycode::spec_from_code('\'' as i32)
            == Keycode::Apostrophe,
        Keycode::Comma.spec_code() == ',' as int && Keycode::spec_from_code(',' as i32)
            == Keycode::Comma,
        Keycode::Minus.spec_code() == '-' as int && Keycode::spec_from_code('-' as i32)
            == Keycode::Minus,
        Keycode::Period.spec_code() == '.' as int && Keycode::spec_from_code('.' as i32)
            == Keycode::Period,
        Keycode::Slash.spec_code() == '/' as int && Keycode::spec_from_code('/' as i32)
            == Keycode::Slash,
        Keycode::Semicolon.spec_code() == ';' as int && Keycode::spec_from_code(';' as i32)
            == Keycode::Semicolon,
        Keycode::Equal.spec_code() == '=' as int && Keycode::spec_from_code('=' as i32)
            == Keycode::Equal,
        Keycode::LeftBracket.spec_code() == '[' as int && Keycode::spec_from_code('[' as i32)
            == Keycode::LeftBracket,
        Keycode::Backslash.spec_code() == '\\' as int && Keycode::spec_from_code('\\' as i32)
            == Keycode::Backslash,
        Keycode::RightBracket.spec_code() == ']' as int && Keycode::spec_from_code(']' as i32)
            == Keycode::RightBracket,
        Keycode::GraveAccent.spec_code() == '`' as int && Keycode::spec_from_code('`' as i32)
            == Keycode::GraveAccent,
        numbered_from(digit_keys(), '0' as int),
        numbered_from(letter_keys(), 'A' as int),
        numbered_from(world_keys(), 161),
        numbered_from(editing_keys(), 256),
        numbered_from(lock_keys(), 280),
        numbered_from(function_keys(), 290),
        numbered_from(keypad_keys(), 320),
        numbered_from(modifier_keys(), 340),
        Keycode::Invalid.spec_code() == 0,
        Keycode::spec_from_code(0) == Keycode::Invalid,
{
    lemma_numbered_digit_keys();
    lemma_numbered_letter_keys();
    lemma_numbered_world_keys();
    lemma_numbered_editing_keys();
    lemma_numbered_lock_keys();
    lemma_numbered_function_keys();
    lemma_numbered_keypad_keys();
    lemma_numbered_modifier_keys();
}

#[verifier::spinoff_prover]
proof fn lemma_numbered_digit_keys()
    ensures
        numbered_from(digit_keys(), '0' as int),
{
    let keys = digit_keys();
    assert forall|i: int| 0 <= i < keys.len() implies (#[trigger] keys[i]).spec_code() == '0' as int + i
        && Keycode::spec_from_code(('0' as int + i) as i32) == keys[i] by {
        if i == 0 {
            assert(keys[0] == Keycode::Num0);
        } else if i == 1 {
            assert(keys[1] == Keycode::Num1);
        } else if i == 2 {
            assert(keys[2] == Keycode::Num2);
        } else if i == 3 {
            assert(keys[3] == Keycode::Num3);
        } else if i == 4 {
            assert(keys[4] == Keycode::Num4);
        } else if i == 5 {
            assert(keys[5] == Keycode::Num5);
        } else if i == 6 {
            assert(keys[6] == Keycode::Num6);
        } else if i == 7 {
            assert(keys[7] == Keycode::Num7);
        } else if i == 8 {
            assert(keys[8] == Keycode::Num8);
        } else if i == 9 {
            assert(keys[9] == Keycode::Num9);
        }
    }
}

#[verifier::spinoff_prover]
proof fn lemma_numbered_letter_keys()
    ensures
        numbered_from(letter_keys(), 'A' as int),
{
    let keys = letter_keys();
    assert forall|i: int| 0 <= i < keys.len() implies (#[trigger] keys[i]).spec_code() == 'A' as int + i
        && Keycode::spec_from_code(('A' as int + i) as i32) == keys[i] by {
        if i == 0 {
            assert(keys[0] == Keycode::A);
        } else if i == 1 {
            assert(keys[1] == Keycode::B);
        } else if i == 2 {
            assert(keys[2] == Keycode::C);
        } else if i == 3 {
            assert(keys[3] == Keycode::D);
        } else if i == 4 {
            assert(keys[4] == Keycode::E);
        } else if i == 5 {
            assert(keys[5] == Keycode::F);
        } else if i == 6 {
            assert(keys[6] == Keycode::G);
        } else if i == 7 {
            assert(keys[7] == Keycode::H);
        } else if i == 8 {
            assert(keys[8] == Keycode::I);
        } else if i == 9 {
            assert(keys[9] == Keycode::J);
        } else if i == 10 {
            assert(keys[10] == Keycode::K);
        } else if i == 11 {
            assert(keys[11] == Keycode::L);
        } else if i == 12 {
            assert(keys[12] == Keycode::M);
        } else if i == 13 {
            assert(keys[13] == Keycode::N);
        } else if i == 14 {
            assert(keys[14] == Keycode::O);
        } else if i == 15 {
            assert(keys[15] == Keycode::P);
        } else if i == 16 {
            assert(keys[16] == Keycode::Q);
        } else if i == 17 {
            assert(keys[17] == Keycode::R);
        } else if i == 18 {
            assert(keys[18] == Keycode::S);
        } else if i == 19 {
            assert(keys[19] == Keycode::T);
        } else if i == 20 {
            assert(keys[20] == Keycode::U);
        } else if i == 21 {
            assert(keys[21] == Keycode::V);
        } else if i == 22 {
            assert(keys[22] == Keycode::W);
        } else if i == 23 {
            assert(keys[23] == Keycode::X);
        } else if i == 24 {
            assert(keys[24] == Keycode::Y);
        } else if i == 25 {
            assert(keys[25] == Keycode::Z);
        }
    }
}

#[verifier::spinoff_prover]
proof fn lemma_numbered_world_keys()
    ensures
        numbered_from(world_keys(), 161),
{
    let keys = world_keys();
    assert forall|i: int| 0 <= i < keys.len() implies (#[trigger] keys[i]).spec_code() == 161 + i
        && Keycode::spec_from_code((161 + i) as i32) == keys[i] by {
        if i == 0 {
            assert(keys[0] == Keycode::World1);
        } else if i == 1 {
            assert(keys[1] == Keycode::World2);
        }
    }
}

#[verifier::spinoff_prover]
proof fn lemma_numbered_editing_keys()
    ensures
        numbered_from(editing_keys(), 256),
{
    let keys = editing_keys();
    assert forall|i: int| 0 <= i < keys.len() implies (#[trigger] keys[i]).spec_code() == 256 + i
        && Keycode::spec_from_code((256 + i) as i32) == keys[i] by {
        if i == 0 {
            assert(keys[0] == Keycode::Escape);
        } else if i == 1 {
            assert(keys[1] == Keycode::Enter);
        } else if i == 2 {
            assert(keys[2] == Keycode::Tab);
        } else if i == 3 {
            assert(keys[3] == Keycode::Backspace);
        } else if i == 4 {
            assert(keys[4] == Keycode::Insert);
        } else if i == 5 {
            assert(keys[5] == Keycode::Delete);
        } else if i == 6 {
            assert(keys[6] == Keycode::Right);
        } else if i == 7 {
            assert(keys[7] == Keycode::Left);
        } else if i == 8 {
            assert(keys[8] == Keycode::Down);
        } else if i == 9 {
            assert(keys[9] == Keycode::Up);
        } else if i == 10 {
            assert(keys[10] == Keycode::PageUp);
        } else if i == 11 {
            assert(keys[11] == Keycode::PageDown);
        } else if i == 12 {
            assert(keys[12] == Keycode::Home);
        } else if i == 13 {
            assert(keys[13] == Keycode::End);
        }
    }
}

#[verifier::spinoff_prover]
proof fn lemma_numbered_lock_keys()
    ensures
        numbered_from(lock_keys(), 280),
{
    let keys = lock_keys();
    assert forall|i: int| 0 <= i < keys.len() implies (#[trigger] keys[i]).spec_code() == 280 + i
        && Keycode::spec_from_code((280 + i) as i32) == keys[i] by {
        if i == 0 {
            assert(keys[0] == Keycode::CapsLock);
        } else if i == 1 {
            assert(keys[1] == Keycode::ScrollLock);
        } else if i == 2 {
            assert(keys[2] == Keycode::NumLock);
        } else if i == 3 {
            assert(keys[3] == Keycode::PrintScreen);
        } else if i == 4 {
            assert(keys[4] == Keycode::Pause);
        }
    }
}

#[verifier::spinoff_prover]
proof fn lemma_numbered_function_keys()
    ensures
        numbered_from(function_keys(), 290),
{
    let keys = function_keys();
    assert forall|i: int| 0 <= i < keys.len() implies (#[trigger] keys[i]).spec_code() == 290 + i
        && Keycode::spec_from_code((290 + i) as i32) == keys[i] by {
        if i == 0 {
            assert(keys[0] == Keycode::F1);
        } else if i == 1 {
            assert(keys[1] == Keycode::F2);
        } else if i == 2 {
            assert(keys[2] == Keycode::F3);
        } else if i == 3 {
            assert(keys[3] == Keycode::F4);
        } else if i == 4 {
            assert(keys[4] == Keycode::F5);
        } else if i == 5 {
            assert(keys[5] == Keycode::F6);
        } else if i == 6 {
            assert(keys[6] == Keycode::F7);
        } else if i == 7 {
            assert(keys[7] == Keycode::F8);
        } else if i == 8 {
            assert(keys[8] == Keycode::F9);
        } else if i == 9 {
            assert(keys[9] == Keycode::F10);
        } else if i == 10 {
            assert(keys[10] == Keycode::F11);
        } else if i == 11 {
            assert(keys[11] == Keycode::F12);
        } else if i == 12 {
            assert(keys[12] == Keycode::F13);
        } else if i == 13 {
            assert(keys[13] == Keycode::F14);
        } else if i == 14 {
            assert(keys[14] == Keycode::F15);
        } else if i == 15 {
            assert(keys[15] == Keycode::F16);
        } else if i == 16 {
            assert(keys[16] == Keycode::F17);
        } else if i == 17 {
            assert(keys[17] == Keycode::F18);
        } else if i == 18 {
            assert(keys[18] == Keycode::F19);
        } else if i == 19 {
            assert(keys[19] == Keycode::F20);
        } else if i == 20 {
            assert(keys[20] == Keycode::F21);
        } else if i == 21 {
            assert(keys[21] == Keycode::F22);
        } else if i == 22 {
            assert(keys[22] == Keycode::F23);
        } else if i == 23 {
            assert(keys[23] == Keycode::F24);
        } else if i == 24 {
            assert(keys[24] == Keycode::F25);
        }
    }
}

#[verifier::spinoff_prover]
proof fn lemma_numbered_keypad_keys()
    ensures
        numbered_from(keypad_keys(), 320),
{
    let keys = keypad_keys();
    assert forall|i: int| 0 <= i < keys.len() implies (#[trigger] keys[i]).spec_code() == 320 + i
        && Keycode::spec_from_code((320 + i) as i32) == keys[i] by {
        if i == 0 {
            assert(keys[0] == Keycode::Kp0);
        } else if i == 1 {
            assert(keys[1] == Keycode::Kp1);
        } else if i == 2 {
            assert(keys[2] == Keycode::Kp2);
        } else if i == 3 {
            assert(keys[3] == Keycode::Kp3);
        } else if i == 4 {
            assert(keys[4] == Keycode::Kp4);
        } else if i == 5 {
            assert(keys[5] == Keycode::Kp5);
        } else if i == 6 {
            assert(keys[6] == Keycode::Kp6);
        } else if i == 7 {
            assert(keys[7] == Keycode::Kp7);
        } else if i == 8 {
            assert(keys[8] == Keycode::Kp8);
        } else if i == 9 {
            assert(keys[9] == Keycode::Kp9);
        } else if i == 10 {
            assert(keys[10] == Keycode::KpDecimal);
        } else if i == 11 {
            assert(keys[11] == Keycode::KpDivide);
        } else if i == 12 {
            assert(keys[12] == Keycode::KpMultiply);
        } else if i == 13 {
            assert(keys[13] == Keycode::KpSubtract);
        } else if i == 14 {
            assert(keys[14] == Keycode::KpAdd);
        } else if i == 15 {
            assert(keys[15] == Keycode::KpEnter);
        } else if i == 16 {
            assert(keys[16] == Keycode::KpEqual);
        }
    }
}

#[verifier::spinoff_prover]
proof fn lemma_numbered_modifier_keys()
    ensures
        numbered_from(modifier_keys(), 340),
{
    let keys = modifier_keys();
    assert forall|i: int| 0 <= i < keys.len() implies (#[trigger] keys[i]).spec_code() == 340 + i
        && Keycode::spec_from_code((340 + i) as i32) == keys[i] by {
        if i == 0 {
            assert(keys[0] == Keycode::LeftShift);
        } else if i == 1 {
            assert(keys[1] == Keycode::LeftControl);
        } else if i == 2 {
            assert(keys[2] == Keycode::LeftAlt);
        } else if i == 3 {
            assert(keys[3] == Keycode::LeftSuper);
        } else if i == 4 {
            assert(keys[4] == Keycode::RightShift);
        } else if i == 5 {
            assert(keys[5] == Keycode::RightControl);
        } else if i == 6 {
            assert(keys[6] == Keycode::RightAlt);
        } else if i == 7 {
            assert(keys[7] == Keycode::RightSuper);
        } else if i == 8 {
            assert(keys[8] == Keycode::Menu);
        }
    }
}

/// Whether `c` is a decimal digit.
pub open spec fn is_digit(c: char) -> bool {
    '0' <= c && c <= '9'
}

/// The value of the decimal digit `c`.
pub open spec fn digit_value(c: char) -> int {
    c as int - '0' as int
}

/// A key's name and code agree: the key named by a lowercase letter has
/// the ASCII code of the uppercase letter, `numD` the ASCII code of the
/// digit `D`, the keypad digit `kpD` the code 320 + D, and the function
/// key `fN` the code 289 + N.
pub proof fn key_names_match_codes(k: Keycode)
    ensures
        k.name() matches Some(s) ==> {
            &&& s.len() == 1 && 'a' <= s[0] && s[0] <= 'z' ==> k.spec_code() == s[0] as int - 32
            &&& s.len() == 4 && s[0] == 'n' && s[1] == 'u' && s[2] == 'm' && is_digit(s[3])
                ==> k.spec_code() == s[3] as int
            &&& s.len() == 3 && s[0] == 'k' && s[1] == 'p' && is_digit(s[2]) ==> k.spec_code() == 320
                + digit_value(s[2])
            &&& s.len() == 2 && s[0] == 'f' && is_digit(s[1]) ==> k.spec_code() == 289 + digit_value(s[1])
            &&& s.len() == 3 && s[0] == 'f' && is_digit(s[1]) && is_digit(s[2]) ==> k.spec_code() == 289
                + 10 * digit_value(s[1]) + digit_value(s[2])
        },
{
    lemma_name_chars(k);
}

/// The length of the name of `k` and its first 12 characters, with
/// spaces past its end (length 0 for `Invalid`, which has no name).
spec fn name_sig(k: Keycode) -> (nat, char, char, char, char, char, char, char, char, char, char, char, char) {
    match k {
        Keycode::Space => (5, 's', 'p', 'a', 'c', 'e', ' ', ' ', ' ', ' ', ' ', ' ', ' '),
        Keycode::Apostrophe => (10, 'a', 'p', 'o', 's', 't', 'r', 'o', 'p', 'h', 'e', ' ', ' '),
        Keycode::Comma => (5, 'c', 'o', 'm', 'm', 'a', ' ', ' ', ' ', ' ', ' ', ' ', ' '),
        Keycode::Minus => (5, 'm', 'i', 'n', 'u', 's', ' ', ' ', ' ', ' ', ' ', ' ', ' '),
        Keycode::Period => (6, 'p', 'e', 'r', 'i', 'o', 'd', ' ', ' ', ' ', ' ', ' ', ' '),
        Keycode::Slash => (5, 's', 'l', 'a', 's', 'h', ' ', ' ', ' ', ' ', ' ', ' ', ' '),
        Keycode::Num0 => (4, 'n', 'u', 'm', '0', ' ', ' ', ' ', ' ', ' ', ' ', ' ', ' '),
        Keycode::Num1 => (4, 'n', 'u', 'm', '1', ' ', ' ', ' ', ' ', ' ', ' ', ' ', ' '),
        Keycode::Num2 => (4, 'n', 'u', 'm', '2', ' ', ' ', ' ', ' ', ' ', ' ', ' ', ' '),
        Keycode::Num3 => (4, 'n', 'u', 'm', '3', ' ', ' ', ' ', ' ', ' ', ' ', ' ', ' '),
        Keycode::Num4 => (4, 'n', 'u', 'm', '4', ' ', ' ', ' ', ' ', ' ', ' ', ' ', ' '),
        Keycode::Num5 => (4, 'n', 'u', 'm', '5', ' ', ' ', ' ', ' ', ' ', ' ', ' ', ' '),
        Keycode::Num6 => (4, 'n', 'u', 'm', '6', ' ', ' ', ' ', ' ', ' ', ' ', ' ', ' '),
        Keycode::Num7 => (4, 'n', 'u', 'm', '7', ' ', ' ', ' ', ' ', ' ', ' ', ' ', ' '),
        Keycode::Num8 => (4, 'n', 'u', 'm', '8', ' ', ' ', ' ', ' ', ' ', ' ', ' ', ' '),
        Keycode::Num9 => (4, 'n', 'u', 'm', '9', ' ', ' ', ' ', ' ', ' ', ' ', ' ', ' '),
        Keycode::Semicolon => (9, 's', 'e', 'm', 'i', 'c', 'o', 'l', 'o', 'n', ' ', ' ', ' '),
        Keycode::Equal => (5, 'e', 'q', 'u', 'a', 'l', ' ', ' ', ' ', ' ', ' ', ' ', ' '),
        Keycode::A => (1, 'a', ' ', ' ', ' ', ' ', ' ', ' ', ' ', ' ', ' ', ' ', ' '),
        Keycode::B => (1, 'b', ' ', ' ', ' ', ' ', ' ', ' ', ' ', ' ', ' ', ' ', ' '),
        Keycode::C => (1, 'c', ' ', ' ', ' ', ' ', ' ', ' ', ' ', ' ', ' ', ' ', ' '),
        Keycode::D => (1, 'd', ' ', ' ', ' ', ' ', ' ', ' ', ' ', ' ', ' ', ' ', ' '),
        Keycode::E => (1, 'e', ' ', ' ', ' ', ' ', ' ', ' ', ' ', ' ', ' ', ' ', ' '),
        Keycode::F => (1, 'f', ' ', ' ', ' ', ' ', ' ', ' ', ' ', ' ', ' ', ' ', ' '),
        Keycode::G => (1, 'g', ' ', ' ', ' ', ' ', ' ', ' ', ' ', ' ', ' ', ' ', ' '),
        Keycode::H => (1, 'h', ' ', ' ', ' ', ' ', ' ', ' ', ' ', ' ', ' ', ' ', ' '),
        Keycode::I => (1, 'i', ' ', ' ', ' ', ' ', ' ', ' ', ' ', ' ', ' ', ' ', ' '),
        Keycode::J => (1, 'j', ' ', ' ', ' ', ' ', ' ', ' ', ' ', ' ', ' ', ' ', ' '),
        Keycode::K => (1, 'k', ' ', ' ', ' ', ' ', ' ', ' ', ' ', ' ', ' ', ' ', ' '),
        Keycode::L => (1, 'l', ' ', ' ', ' ', ' ', ' ', ' ', ' ', ' ', ' ', ' ', ' '),
        Keycode::M => (1, 'm', ' ', ' ', ' ', ' ', ' ', ' ', ' ', ' ', ' ', ' ', ' '),
        Keycode::N => (1, 'n', ' ', ' ', ' ', ' ', ' ', ' ', ' ', ' ', ' ', ' ', ' '),
        Keycode::O => (1, 'o', ' ', ' ', ' ', ' ', ' ', ' ', ' ', ' ', ' ', ' ', ' '),
        Keycode::P => (1, 'p', ' ', ' ', ' ', ' ', ' ', ' ', ' ', ' ', ' ', ' ', ' '),
        Keycode::Q => (1, 'q', ' ', ' ', ' ', ' ', ' ', ' ', ' ', ' ', ' ', ' ', ' '),
        Keycode::R => (1, 'r', ' ', ' ', ' ', ' ', ' ', ' ', ' ', ' ', ' ', ' ', ' '),
        Keycode::S => (1, 's', ' ', ' ', ' ', ' ', ' ', ' ', ' ', ' ', ' ', ' ', ' '),
        Keycode::T => (1, 't', ' ', ' ', ' ', ' ', ' ', ' ', ' ', ' ', ' ', ' ', ' '),
        Keycode::U => (1, 'u', ' ', ' ', ' ', ' ', ' ', ' ', ' ', ' ', ' ', ' ', ' '),
        Keycode::V => (1, 'v', ' ', ' ', ' ', ' ', ' ', ' ', ' ', ' ', ' ', ' ', ' '),
        Keycode::W => (1, 'w', ' ', ' ', ' ', ' ', ' ', ' ', ' ', ' ', ' ', ' ', ' '),
        Keycode::X => (1, 'x', ' ', ' ', ' ', ' ', ' ', ' ', ' ', ' ', ' ', ' ', ' '),
        Keycode::Y => (1, 'y', ' ', ' ', ' ', ' ', ' ', ' ', ' ', ' ', ' ', ' ', ' '),
        Keycode::Z => (1, 'z', ' ', ' ', ' ', ' ', ' ', ' ', ' ', ' ', ' ', ' ', ' '),
        Keycode::LeftBracket => (11, 'l', 'e', 'f', 't', 'b', 'r', 'a', 'c', 'k', 'e', 't', ' '),
        Keycode::Backslash => (9, 'b', 'a', 'c', 'k', 's', 'l', 'a', 's', 'h', ' ', ' ', ' '),
        Keycode::RightBracket => (12, 'r', 'i', 'g', 'h', 't', 'b', 'r', 'a', 'c', 'k', 'e', 't'),
        Keycode::GraveAccent => (11, 'g', 'r', 'a', 'v', 'e', 'a', 'c', 'c', 'e', 'n', 't', ' '),
        Keycode::World1 => (6, 'w', 'o', 'r', 'l', 'd', '1', ' ', ' ', ' ', ' ', ' ', ' '),
        Keycode::World2 => (6, 'w', 'o', 'r', 'l', 'd', '2', ' ', ' ', ' ', ' ', ' ', ' '),
        Keycode::Escape => (6, 'e', 's', 'c', 'a', 'p', 'e', ' ', ' ', ' ', ' ', ' ', ' '),
        Keycode::Enter => (5, 'e', 'n', 't', 'e', 'r', ' ', ' ', ' ', ' ', ' ', ' ', ' '),
        Keycode::Tab => (3, 't', 'a', 'b', ' ', ' ', ' ', ' ', ' ', ' ', ' ', ' ', ' '),
        Keycode::Backspace => (9, 'b', 'a', 'c', 'k', 's', 'p', 'a', 'c', 'e', ' ', ' ', ' '),
        Keycode::Insert => (6, 'i', 'n', 's', 'e', 'r', 't', ' ', ' ', ' ', ' ', ' ', ' '),
        Keycode::Delete => (6, 'd', 'e', 'l', 'e', 't', 'e', ' ', ' ', ' ', ' ', ' ', ' '),
        Keycode::Right => (5, 'r', 'i', 'g', 'h', 't', ' ', ' ', ' ', ' ', ' ', ' ', ' '),
        Keycode::Left => (4, 'l', 'e', 'f', 't', ' ', ' ', ' ', ' ', ' ', ' ', ' ', ' '),
        Keycode::Down => (4, 'd', 'o', 'w', 'n', ' ', ' ', ' ', ' ', ' ', ' ', ' ', ' '),
        Keycode::Up => (2, 'u', 'p', ' ', ' ', ' ', ' ', ' ', ' ', ' ', ' ', ' ', ' '),
        Keycode::PageUp => (6, 'p', 'a', 'g', 'e', 'u', 'p', ' ', ' ', ' ', ' ', ' ', ' '),
        Keycode::PageDown => (8, 'p', 'a', 'g', 'e', 'd', 'o', 'w', 'n', ' ', ' ', ' ', ' '),
        Keycode::Home => (4, 'h', 'o', 'm', 'e', ' ', ' ', ' ', ' ', ' ', ' ', ' ', ' '),
        Keycode::End => (3, 'e', 'n', 'd', ' ', ' ', ' ', ' ', ' ', ' ', ' ', ' ', ' '),
        Keycode::CapsLock => (8, 'c', 'a', 'p', 's', 'l', 'o', 'c', 'k', ' ', ' ', ' ', ' '),
        Keycode::ScrollLock => (10, 's', 'c', 'r', 'o', 'l', 'l', 'l', 'o', 'c', 'k', ' ', ' '),
        Keycode::NumLock => (7, 'n', 'u', 'm', 'l', 'o', 'c', 'k', ' ', ' ', ' ', ' ', ' '),
        Keycode::PrintScreen => (11, 'p', 'r', 'i', 'n', 't', 's', 'c', 'r', 'e', 'e', 'n', ' '),
        Keycode::Pause => (5, 'p', 'a', 'u', 's', 'e', ' ', ' ', ' ', ' ', ' ', ' ', ' '),
        Keycode::F1 => (2, 'f', '1', ' ', ' ', ' ', ' ', ' ', ' ', ' ', ' ', ' ', ' '),
        Keycode::F2 => (2, 'f', '2', ' ', ' ', ' ', ' ', ' ', ' ', ' ', ' ', ' ', ' '),
        Keycode::F3 => (2, 'f', '3', ' ', ' ', ' ', ' ', ' ', ' ', ' ', ' ', ' ', ' '),
        Keycode::F4 => (2, 'f', '4', ' ', ' ', ' ', ' ', ' ', ' ', ' ', ' ', ' ', ' '),
        Keycode::F5 => (2, 'f', '5', ' ', ' ', ' ', ' ', ' ', ' ', ' ', ' ', ' ', ' '),
        Keycode::F6 => (2, 'f', '6', ' ', ' ', ' ', ' ', ' ', ' ', ' ', ' ', ' ', ' '),
        Keycode::F7 => (2, 'f', '7', ' ', ' ', ' ', ' ', ' ', ' ', ' ', ' ', ' ', ' '),
        Keycode::F8 => (2, 'f', '8', ' ', ' ', ' ', ' ', ' ', ' ', ' ', ' ', ' ', ' '),
        Keycode::F9 => (2, 'f', '9', ' ', ' ', ' ', ' ', ' ', ' ', ' ', ' ', ' ', ' '),
        Keycode::F10 => (3, 'f', '1', '0', ' ', ' ', ' ', ' ', ' ', ' ', ' ', ' ', ' '),
        Keycode::F11 => (3, 'f', '1', '1', ' ', ' ', ' ', ' ', ' ', ' ', ' ', ' ', ' '),
        Keycode::F12 => (3, 'f', '1', '2', ' ', ' ', ' ', ' ', ' ', ' ', ' ', ' ', ' '),
        Keycode::F13 => (3, 'f', '1', '3', ' ', ' ', ' ', ' ', ' ', ' ', ' ', ' ', ' '),
        Keycode::F14 => (3, 'f', '1', '4', ' ', ' ', ' ', ' ', ' ', ' ', ' ', ' ', ' '),
        Keycode::F15 => (3, 'f', '1', '5', ' ', ' ', ' ', ' ', ' ', ' ', ' ', ' ', ' '),
        Keycode::F16 => (3, 'f', '1', '6', ' ', ' ', ' ', ' ', ' ', ' ', ' ', ' ', ' '),
        Keycode::F17 => (3, 'f', '1', '7', ' ', ' ', ' ', ' ', ' ', ' ', ' ', ' ', ' '),
        Keycode::F18 => (3, 'f', '1', '8', ' ', ' ', ' ', ' ', ' ', ' ', ' ', ' ', ' '),
        Keycode::F19 => (3, 'f', '1', '9', ' ', ' ', ' ', ' ', ' ', ' ', ' ', ' ', ' '),
        Keycode::F20 => (3, 'f', '2', '0', ' ', ' ', ' ', ' ', ' ', ' ', ' ', ' ', ' '),
        Keycode::F21 => (3, 'f', '2', '1', ' ', ' ', ' ', ' ', ' ', ' ', ' ', ' ', ' '),
        Keycode::F22 => (3, 'f', '2', '2', ' ', ' ', ' ', ' ', ' ', ' ', ' ', ' ', ' '),
        Keycode::F23 => (3, 'f', '2', '3', ' ', ' ', ' ', ' ', ' ', ' ', ' ', ' ', ' '),
        Keycode::F24 => (3, 'f', '2', '4', ' ', ' ', ' ', ' ', ' ', ' ', ' ', ' ', ' '),
        Keycode::F25 => (3, 'f', '2', '5', ' ', ' ', ' ', ' ', ' ', ' ', ' ', ' ', ' '),
        Keycode::Kp0 => (3, 'k', 'p', '0', ' ', ' ', ' ', ' ', ' ', ' ', ' ', ' ', ' '),
        Keycode::Kp1 => (3, 'k', 'p', '1', ' ', ' ', ' ', ' ', ' ', ' ', ' ', ' ', ' '),
        Keycode::Kp2 => (3, 'k', 'p', '2', ' ', ' ', ' ', ' ', ' ', ' ', ' ', ' ', ' '),
        Keycode::Kp3 => (3, 'k', 'p', '3', ' ', ' ', ' ', ' ', ' ', ' ', ' ', ' ', ' '),
        Keycode::Kp4 => (3, 'k', 'p', '4', ' ', ' ', ' ', ' ', ' ', ' ', ' ', ' ', ' '),
        Keycode::Kp5 => (3, 'k', 'p', '5', ' ', ' ', ' ', ' ', ' ', ' ', ' ', ' ', ' '),
        Keycode::Kp6 => (3, 'k', 'p', '6', ' ', ' ', ' ', ' ', ' ', ' ', ' ', ' ', ' '),
        Keycode::Kp7 => (3, 'k', 'p', '7', ' ', ' ', ' ', ' ', ' ', ' ', ' ', ' ', ' '),
        Keycode::Kp8 => (3, 'k', 'p', '8', ' ', ' ', ' ', ' ', ' ', ' ', ' ', ' ', ' '),
        Keycode::Kp9 => (3, 'k', 'p', '9', ' ', ' ', ' ', ' ', ' ', ' ', ' ', ' ', ' '),
        Keycode::KpDecimal => (9, 'k', 'p', 'd', 'e', 'c', 'i', 'm', 'a', 'l', ' ', ' ', ' '),
        Keycode::KpDivide => (8, 'k', 'p', 'd', 'i', 'v', 'i', 'd', 'e', ' ', ' ', ' ', ' '),
        Keycode::KpMultiply => (10, 'k', 'p', 'm', 'u', 'l', 't', 'i', 'p', 'l', 'y', ' ', ' '),
        Keycode::KpSubtract => (10, 'k', 'p', 's', 'u', 'b', 't', 'r', 'a', 'c', 't', ' ', ' '),
        Keycode::KpAdd => (5, 'k', 'p', 'a', 'd', 'd', ' ', ' ', ' ', ' ', ' ', ' ', ' '),
        Keycode::KpEnter => (7, 'k', 'p', 'e', 'n', 't', 'e', 'r', ' ', ' ', ' ', ' ', ' '),
        Keycode::KpEqual => (7, 'k', 'p', 'e', 'q', 'u', 'a', 'l', ' ', ' ', ' ', ' ', ' '),
        Keycode::LeftShift => (9, 'l', 'e', 'f', 't', 's', 'h', 'i', 'f', 't', ' ', ' ', ' '),
        Keycode::LeftControl => (11, 'l', 'e', 'f', 't', 'c', 'o', 'n', 't', 'r', 'o', 'l', ' '),
        Keycode::LeftAlt => (7, 'l', 'e', 'f', 't', 'a', 'l', 't', ' ', ' ', ' ', ' ', ' '),
        Keycode::LeftSuper => (9, 'l', 'e', 'f', 't', 's', 'u', 'p', 'e', 'r', ' ', ' ', ' '),
        Keycode::RightShift => (10, 'r', 'i', 'g', 'h', 't', 's', 'h', 'i', 'f', 't', ' ', ' '),
        Keycode::RightControl => (12, 'r', 'i', 'g', 'h', 't', 'c', 'o', 'n', 't', 'r', 'o', 'l'),
        Keycode::RightAlt => (8, 'r', 'i', 'g', 'h', 't', 'a', 'l', 't', ' ', ' ', ' ', ' '),
        Keycode::RightSuper => (10, 'r', 'i', 'g', 'h', 't', 's', 'u', 'p', 'e', 'r', ' ', ' '),
        Keycode::Menu => (4, 'm', 'e', 'n', 'u', ' ', ' ', ' ', ' ', ' ', ' ', ' ', ' '),
        Keycode::Invalid => (0, ' ', ' ', ' ', ' ', ' ', ' ', ' ', ' ', ' ', ' ', ' ', ' '),
    }
}

/// Whether `c` is a lowercase ASCII letter or a decimal digit.
pub open spec fn lower_or_digit(c: char) -> bool {
    ('a' <= c && c <= 'z') || ('0' <= c && c <= '9')
}

/// The characters of the name of `k`.
proof fn lemma_name_chars(k: Keycode)
    ensures
        k.name() matches Some(s) ==> s.len() == name_sig(k).0 && s.len() <= 12 && (s.len() > 0 ==> s[0] == name_sig(k).1 && lower_or_digit(s[0])) && (s.len() <= 0 ==> name_sig(k).1 == ' ') && (s.len() > 1 ==> s[1] == name_sig(k).2 && lower_or_digit(s[1])) && (s.len() <= 1 ==> name_sig(k).2 == ' ') && (s.len() > 2 ==> s[2] == name_sig(k).3 && lower_or_digit(s[2])) && (s.len() <= 2 ==> name_sig(k).3 == ' ') && (s.len() > 3 ==> s[3] == name_sig(k).4 && lower_or_digit(s[3])) && (s.len() <= 3 ==> name_sig(k).4 == ' ') && (s.len() > 4 ==> s[4] == name_sig(k).5 && lower_or_digit(s[4])) && (s.len() <= 4 ==> name_sig(k).5 == ' ') && (s.len() > 5 ==> s[5] == name_sig(k).6 && lower_or_digit(s[5])) && (s.len() <= 5 ==> name_sig(k).6 == ' ') && (s.len() > 6 ==> s[6] == name_sig(k).7 && lower_or_digit(s[6])) && (s.len() <= 6 ==> name_sig(k).7 == ' ') && (s.len() > 7 ==> s[7] == name_sig(k).8 && lower_or_digit(s[7])) && (s.len() <= 7 ==> name_sig(k).8 == ' ') && (s.len() > 8 ==> s[8] == name_sig(k).9 && lower_or_digit(s[8])) && (s.len() <= 8 ==> name_sig(k).9 == ' ') && (s.len() > 9 ==> s[9] == name_sig(k).10 && lower_or_digit(s[9])) && (s.len() <= 9 ==> name_sig(k).10 == ' ') && (s.len() > 10 ==> s[10] == name_sig(k).11 && lower_or_digit(s[10])) && (s.len() <= 10 ==> name_sig(k).11 == ' ') && (s.len() > 11 ==> s[11] == name_sig(k).12 && lower_or_digit(s[11])) && (s.len() <= 11 ==> name_sig(k).12 == ' '),
{
    match k {
        Keycode::Space => {
            reveal_strlit("space");
            assert("space"@[0] == 's' && "space"@[1] == 'p' && "space"@[2] == 'a' && "space"@[3] == 'c' && "space"@[4] == 'e');
        },
        Keycode::Apostrophe => {
            reveal_strlit("apostrophe");
            assert("apostrophe"@[0] == 'a' && "apostrophe"@[1] == 'p' && "apostrophe"@[2] == 'o' && "apostrophe"@[3] == 's' && "apostrophe"@[4] == 't' && "apostrophe"@[5] == 'r' && "apostrophe"@[6] == 'o' && "apostrophe"@[7] == 'p' && "apostrophe"@[8] == 'h' && "apostrophe"@[9] == 'e');
        },
        Keycode::Comma => {
            reveal_strlit("comma");
            assert("comma"@[0] == 'c' && "comma"@[1] == 'o' && "comma"@[2] == 'm' && "comma"@[3] == 'm' && "comma"@[4] == 'a');
        },
        Keycode::Minus => {
            reveal_strlit("minus");
            assert("minus"@[0] == 'm' && "minus"@[1] == 'i' && "minus"@[2] == 'n' && "minus"@[3] == 'u' && "minus"@[4] == 's');
        },
        Keycode::Period => {
            reveal_strlit("period");
            assert("period"@[0] == 'p' && "period"@[1] == 'e' && "period"@[2] == 'r' && "period"@[3] == 'i' && "period"@[4] == 'o' && "period"@[5] == 'd');
        },
        Keycode::Slash => {
            reveal_strlit("slash");
            assert("slash"@[0] == 's' && "slash"@[1] == 'l' && "slash"@[2] == 'a' && "slash"@[3] == 's' && "slash"@[4] == 'h');
        },
        Keycode::Num0 => {
            reveal_strlit("num0");
            assert("num0"@[0] == 'n' && "num0"@[1] == 'u' && "num0"@[2] == 'm' && "num0"@[3] == '0');
        },
        Keycode::Num1 => {
            reveal_strlit("num1");
            assert("num1"@[0] == 'n' && "num1"@[1] == 'u' && "num1"@[2] == 'm' && "num1"@[3] == '1');
        },
        Keycode::Num2 => {
            reveal_strlit("num2");
            assert("num2"@[0] == 'n' && "num2"@[1] == 'u' && "num2"@[2] == 'm' && "num2"@[3] == '2');
        },
        Keycode::Num3 => {
            reveal_strlit("num3");
            assert("num3"@[0] == 'n' && "num3"@[1] == 'u' && "num3"@[2] == 'm' && "num3"@[3] == '3');
        },
        Keycode::Num4 => {
            reveal_strlit("num4");
            assert("num4"@[0] == 'n' && "num4"@[1] == 'u' && "num4"@[2] == 'm' && "num4"@[3] == '4');
        },
        Keycode::Num5 => {
            reveal_strlit("num5");
            assert("num5"@[0] == 'n' && "num5"@[1] == 'u' && "num5"@[2] == 'm' && "num5"@[3] == '5');
        },
        Keycode::Num6 => {
            reveal_strlit("num6");
            assert("num6"@[0] == 'n' && "num6"@[1] == 'u' && "num6"@[2] == 'm' && "num6"@[3] == '6');
        },
        Keycode::Num7 => {
            reveal_strlit("num7");
            assert("num7"@[0] == 'n' && "num7"@[1] == 'u' && "num7"@[2] == 'm' && "num7"@[3] == '7');
        },
        Keycode::Num8 => {
            reveal_strlit("num8");
            assert("num8"@[0] == 'n' && "num8"@[1] == 'u' && "num8"@[2] == 'm' && "num8"@[3] == '8');
        },
        Keycode::Num9 => {
            reveal_strlit("num9");
            assert("num9"@[0] == 'n' && "num9"@[1] == 'u' && "num9"@[2] == 'm' && "num9"@[3] == '9');
        },
        Keycode::Semicolon => {
            reveal_strlit("semicolon");
            assert("semicolon"@[0] == 's' && "semicolon"@[1] == 'e' && "semicolon"@[2] == 'm' && "semicolon"@[3] == 'i' && "semicolon"@[4] == 'c' && "semicolon"@[5] == 'o' && "semicolon"@[6] == 'l' && "semicolon"@[7] == 'o' && "semicolon"@[8] == 'n');
        },
        Keycode::Equal => {
            reveal_strlit("equal");
            assert("equal"@[0] == 'e' && "equal"@[1] == 'q' && "equal"@[2] == 'u' && "equal"@[3] == 'a' && "equal"@[4] == 'l');
        },
        Keycode::A => {
            reveal_strlit("a");
            assert("a"@[0] == 'a');
        },
        Keycode::B => {
            reveal_strlit("b");
            assert("b"@[0] == 'b');
        },
        Keycode::C => {
            reveal_strlit("c");
            assert("c"@[0] == 'c');
        },
        Keycode::D => {
            reveal_strlit("d");
            assert("d"@[0] == 'd');
        },
        Keycode::E => {
            reveal_strlit("e");
            assert("e"@[0] == 'e');
        },
        Keycode::F => {
            reveal_strlit("f");
            assert("f"@[0] == 'f');
        },
        Keycode::G => {
            reveal_strlit("g");
            assert("g"@[0] == 'g');
        },
        Keycode::H => {
            reveal_strlit("h");
            assert("h"@[0] == 'h');
        },
        Keycode::I => {
            reveal_strlit("i");
            assert("i"@[0] == 'i');
        },
        Keycode::J => {
            reveal_strlit("j");
            assert("j"@[0] == 'j');
        },
        Keycode::K => {
            reveal_strlit("k");
            assert("k"@[0] == 'k');
        },
        Keycode::L => {
            reveal_strlit("l");
            assert("l"@[0] == 'l');
        },
        Keycode::M => {
            reveal_strlit("m");
            assert("m"@[0] == 'm');
        },
        Keycode::N => {
            reveal_strlit("n");
            assert("n"@[0] == 'n');
        },
        Keycode::O => {
            reveal_strlit("o");
            assert("o"@[0] == 'o');
        },
        Keycode::P => {
            reveal_strlit("p");
            assert("p"@[0] == 'p');
        },
        Keycode::Q => {
            reveal_strlit("q");
            assert("q"@[0] == 'q');
        },
        Keycode::R => {
            reveal_strlit("r");
            assert("r"@[0] == 'r');
        },
        Keycode::S => {
            reveal_strlit("s");
            assert("s"@[0] == 's');
        },
        Keycode::T => {
            reveal_strlit("t");
            assert("t"@[0] == 't');
        },
        Keycode::U => {
            reveal_strlit("u");
            assert("u"@[0] == 'u');
        },
        Keycode::V => {
            reveal_strlit("v");
            assert("v"@[0] == 'v');
        },
        Keycode::W => {
            reveal_strlit("w");
            assert("w"@[0] == 'w');
        },
        Keycode::X => {
            reveal_strlit("x");
            assert("x"@[0] == 'x');
        },
        Keycode::Y => {
            reveal_strlit("y");
            assert("y"@[0] == 'y');
        },
        Keycode::Z => {
            reveal_strlit("z");
            assert("z"@[0] == 'z');
        },
        Keycode::LeftBracket => {
            reveal_strlit("leftbracket");
            assert("leftbracket"@[0] == 'l' && "leftbracket"@[1] == 'e' && "leftbracket"@[2] == 'f' && "leftbracket"@[3] == 't' && "leftbracket"@[4] == 'b' && "leftbracket"@[5] == 'r' && "leftbracket"@[6] == 'a' && "leftbracket"@[7] == 'c' && "leftbracket"@[8] == 'k' && "leftbracket"@[9] == 'e' && "leftbracket"@[10] == 't');
        },
        Keycode::Backslash => {
            reveal_strlit("backslash");
            assert("backslash"@[0] == 'b' && "backslash"@[1] == 'a' && "backslash"@[2] == 'c' && "backslash"@[3] == 'k' && "backslash"@[4] == 's' && "backslash"@[5] == 'l' && "backslash"@[6] == 'a' && "backslash"@[7] == 's' && "backslash"@[8] == 'h');
        },
        Keycode::RightBracket => {
            reveal_strlit("rightbracket");
            assert("rightbracket"@[0] == 'r' && "rightbracket"@[1] == 'i' && "rightbracket"@[2] == 'g' && "rightbracket"@[3] == 'h' && "rightbracket"@[4] == 't' && "rightbracket"@[5] == 'b' && "rightbracket"@[6] == 'r' && "rightbracket"@[7] == 'a' && "rightbracket"@[8] == 'c' && "rightbracket"@[9] == 'k' && "rightbracket"@[10] == 'e' && "rightbracket"@[11] == 't');
        },
        Keycode::GraveAccent => {
            reveal_strlit("graveaccent");
            assert("graveaccent"@[0] == 'g' && "graveaccent"@[1] == 'r' && "graveaccent"@[2] == 'a' && "graveaccent"@[3] == 'v' && "graveaccent"@[4] == 'e' && "graveaccent"@[5] == 'a' && "graveaccent"@[6] == 'c' && "graveaccent"@[7] == 'c' && "graveaccent"@[8] == 'e' && "graveaccent"@[9] == 'n' && "graveaccent"@[10] == 't');
        },
        Keycode::World1 => {
            reveal_strlit("world1");
            assert("world1"@[0] == 'w' && "world1"@[1] == 'o' && "world1"@[2] == 'r' && "world1"@[3] == 'l' && "world1"@[4] == 'd' && "world1"@[5] == '1');
        },
        Keycode::World2 => {
            reveal_strlit("world2");
            assert("world2"@[0] == 'w' && "world2"@[1] == 'o' && "world2"@[2] == 'r' && "world2"@[3] == 'l' && "world2"@[4] == 'd' && "world2"@[5] == '2');
        },
        Keycode::Escape => {
            reveal_strlit("escape");
            assert("escape"@[0] == 'e' && "escape"@[1] == 's' && "escape"@[2] == 'c' && "escape"@[3] == 'a' && "escape"@[4] == 'p' && "escape"@[5] == 'e');
        },
        Keycode::Enter => {
            reveal_strlit("enter");
            assert("enter"@[0] == 'e' && "enter"@[1] == 'n' && "enter"@[2] == 't' && "enter"@[3] == 'e' && "enter"@[4] == 'r');
        },
        Keycode::Tab => {
            reveal_strlit("tab");
            assert("tab"@[0] == 't' && "tab"@[1] == 'a' && "tab"@[2] == 'b');
        },
        Keycode::Backspace => {
            reveal_strlit("backspace");
            assert("backspace"@[0] == 'b' && "backspace"@[1] == 'a' && "backspace"@[2] == 'c' && "backspace"@[3] == 'k' && "backspace"@[4] == 's' && "backspace"@[5] == 'p' && "backspace"@[6] == 'a' && "backspace"@[7] == 'c' && "backspace"@[8] == 'e');
        },
        Keycode::Insert => {
            reveal_strlit("insert");
            assert("insert"@[0] == 'i' && "insert"@[1] == 'n' && "insert"@[2] == 's' && "insert"@[3] == 'e' && "insert"@[4] == 'r' && "insert"@[5] == 't');
        },
        Keycode::Delete => {
            reveal_strlit("delete");
            assert("delete"@[0] == 'd' && "delete"@[1] == 'e' && "delete"@[2] == 'l' && "delete"@[3] == 'e' && "delete"@[4] == 't' && "delete"@[5] == 'e');
        },
        Keycode::Right => {
            reveal_strlit("right");
            assert("right"@[0] == 'r' && "right"@[1] == 'i' && "right"@[2] == 'g' && "right"@[3] == 'h' && "right"@[4] == 't');
        },
        Keycode::Left => {
            reveal_strlit("left");
            assert("left"@[0] == 'l' && "left"@[1] == 'e' && "left"@[2] == 'f' && "left"@[3] == 't');
        },
        Keycode::Down => {
            reveal_strlit("down");
            assert("down"@[0] == 'd' && "down"@[1] == 'o' && "down"@[2] == 'w' && "down"@[3] == 'n');
        },
        Keycode::Up => {
            reveal_strlit("up");
            assert("up"@[0] == 'u' && "up"@[1] == 'p');
        },
        Keycode::PageUp => {
            reveal_strlit("pageup");
            assert("pageup"@[0] == 'p' && "pageup"@[1] == 'a' && "pageup"@[2] == 'g' && "pageup"@[3] == 'e' && "pageup"@[4] == 'u' && "pageup"@[5] == 'p');
        },
        Keycode::PageDown => {
            reveal_strlit("pagedown");
            assert("pagedown"@[0] == 'p' && "pagedown"@[1] == 'a' && "pagedown"@[2] == 'g' && "pagedown"@[3] == 'e' && "pagedown"@[4] == 'd' && "pagedown"@[5] == 'o' && "pagedown"@[6] == 'w' && "pagedown"@[7] == 'n');
        },
        Keycode::Home => {
            reveal_strlit("home");
            assert("home"@[0] == 'h' && "home"@[1] == 'o' && "home"@[2] == 'm' && "home"@[3] == 'e');
        },
        Keycode::End => {
            reveal_strlit("end");
            assert("end"@[0] == 'e' && "end"@[1] == 'n' && "end"@[2] == 'd');
        },
        Keycode::CapsLock => {
            reveal_strlit("capslock");
            assert("capslock"@[0] == 'c' && "capslock"@[1] == 'a' && "capslock"@[2] == 'p' && "capslock"@[3] == 's' && "capslock"@[4] == 'l' && "capslock"@[5] == 'o' && "capslock"@[6] == 'c' && "capslock"@[7] == 'k');
        },
        Keycode::ScrollLock => {
            reveal_strlit("scrolllock");
            assert("scrolllock"@[0] == 's' && "scrolllock"@[1] == 'c' && "scrolllock"@[2] == 'r' && "scrolllock"@[3] == 'o' && "scrolllock"@[4] == 'l' && "scrolllock"@[5] == 'l' && "scrolllock"@[6] == 'l' && "scrolllock"@[7] == 'o' && "scrolllock"@[8] == 'c' && "scrolllock"@[9] == 'k');
        },
        Keycode::NumLock => {
            reveal_strlit("numlock");
            assert("numlock"@[0] == 'n' && "numlock"@[1] == 'u' && "numlock"@[2] == 'm' && "numlock"@[3] == 'l' && "numlock"@[4] == 'o' && "numlock"@[5] == 'c' && "numlock"@[6] == 'k');
        },
        Keycode::PrintScreen => {
            reveal_strlit("printscreen");
            assert("printscreen"@[0] == 'p' && "printscreen"@[1] == 'r' && "printscreen"@[2] == 'i' && "printscreen"@[3] == 'n' && "printscreen"@[4] == 't' && "printscreen"@[5] == 's' && "printscreen"@[6] == 'c' && "printscreen"@[7] == 'r' && "printscreen"@[8] == 'e' && "printscreen"@[9] == 'e' && "printscreen"@[10] == 'n');
        },
        Keycode::Pause => {
            reveal_strlit("pause");
            assert("pause"@[0] == 'p' && "pause"@[1] == 'a' && "pause"@[2] == 'u' && "pause"@[3] == 's' && "pause"@[4] == 'e');
        },
        Keycode::F1 => {
            reveal_strlit("f1");
            assert("f1"@[0] == 'f' && "f1"@[1] == '1');
        },
        Keycode::F2 => {
            reveal_strlit("f2");
            assert("f2"@[0] == 'f' && "f2"@[1] == '2');
        },
        Keycode::F3 => {
            reveal_strlit("f3");
            assert("f3"@[0] == 'f' && "f3"@[1] == '3');
        },
        Keycode::F4 => {
            reveal_strlit("f4");
            assert("f4"@[0] == 'f' && "f4"@[1] == '4');
        },
        Keycode::F5 => {
            reveal_strlit("f5");
            assert("f5"@[0] == 'f' && "f5"@[1] == '5');
        },
        Keycode::F6 => {
            reveal_strlit("f6");
            assert("f6"@[0] == 'f' && "f6"@[1] == '6');
        },
        Keycode::F7 => {
            reveal_strlit("f7");
            assert("f7"@[0] == 'f' && "f7"@[1] == '7');
        },
        Keycode::F8 => {
            reveal_strlit("f8");
            assert("f8"@[0] == 'f' && "f8"@[1] == '8');
        },
        Keycode::F9 => {
            reveal_strlit("f9");
            assert("f9"@[0] == 'f' && "f9"@[1] == '9');
        },
        Keycode::F10 => {
            reveal_strlit("f10");
            assert("f10"@[0] == 'f' && "f10"@[1] == '1' && "f10"@[2] == '0');
        },
        Keycode::F11 => {
            reveal_strlit("f11");
            assert("f11"@[0] == 'f' && "f11"@[1] == '1' && "f11"@[2] == '1');
        },
        Keycode::F12 => {
            reveal_strlit("f12");
            assert("f12"@[0] == 'f' && "f12"@[1] == '1' && "f12"@[2] == '2');
        },
        Keycode::F13 => {
            reveal_strlit("f13");
            assert("f13"@[0] == 'f' && "f13"@[1] == '1' && "f13"@[2] == '3');
        },
        Keycode::F14 => {
            reveal_strlit("f14");
            assert("f14"@[0] == 'f' && "f14"@[1] == '1' && "f14"@[2] == '4');
        },
        Keycode::F15 => {
            reveal_strlit("f15");
            assert("f15"@[0] == 'f' && "f15"@[1] == '1' && "f15"@[2] == '5');
        },
        Keycode::F16 => {
            reveal_strlit("f16");
            assert("f16"@[0] == 'f' && "f16"@[1] == '1' && "f16"@[2] == '6');
        },
        Keycode::F17 => {
            reveal_strlit("f17");
            assert("f17"@[0] == 'f' && "f17"@[1] == '1' && "f17"@[2] == '7');
        },
        Keycode::F18 => {
            reveal_strlit("f18");
            assert("f18"@[0] == 'f' && "f18"@[1] == '1' && "f18"@[2] == '8');
        },
        Keycode::F19 => {
            reveal_strlit("f19");
            assert("f19"@[0] == 'f' && "f19"@[1] == '1' && "f19"@[2] == '9');
        },
        Keycode::F20 => {
            reveal_strlit("f20");
            assert("f20"@[0] == 'f' && "f20"@[1] == '2' && "f20"@[2] == '0');
        },
        Keycode::F21 => {
            reveal_strlit("f21");
            assert("f21"@[0] == 'f' && "f21"@[1] == '2' && "f21"@[2] == '1');
        },
        Keycode::F22 => {
            reveal_strlit("f22");
            assert("f22"@[0] == 'f' && "f22"@[1] == '2' && "f22"@[2] == '2');
        },
        Keycode::F23 => {
            reveal_strlit("f23");
            assert("f23"@[0] == 'f' && "f23"@[1] == '2' && "f23"@[2] == '3');
        },
        Keycode::F24 => {
            reveal_strlit("f24");
            assert("f24"@[0] == 'f' && "f24"@[1] == '2' && "f24"@[2] == '4');
        },
        Keycode::F25 => {
            reveal_strlit("f25");
            assert("f25"@[0] == 'f' && "f25"@[1] == '2' && "f25"@[2] == '5');
        },
        Keycode::Kp0 => {
            reveal_strlit("kp0");
            assert("kp0"@[0] == 'k' && "kp0"@[1] == 'p' && "kp0"@[2] == '0');
        },
        Keycode::Kp1 => {
            reveal_strlit("kp1");
            assert("kp1"@[0] == 'k' && "kp1"@[1] == 'p' && "kp1"@[2] == '1');
        },
        Keycode::Kp2 => {
            reveal_strlit("kp2");
            assert("kp2"@[0] == 'k' && "kp2"@[1] == 'p' && "kp2"@[2] == '2');
        },
        Keycode::Kp3 => {
            reveal_strlit("kp3");
            assert("kp3"@[0] == 'k' && "kp3"@[1] == 'p' && "kp3"@[2] == '3');
        },
        Keycode::Kp4 => {
            reveal_strlit("kp4");
            assert("kp4"@[0] == 'k' && "kp4"@[1] == 'p' && "kp4"@[2] == '4');
        },
        Keycode::Kp5 => {
            reveal_strlit("kp5");
            assert("kp5"@[0] == 'k' && "kp5"@[1] == 'p' && "kp5"@[2] == '5');
        },
        Keycode::Kp6 => {
            reveal_strlit("kp6");
            assert("kp6"@[0] == 'k' && "kp6"@[1] == 'p' && "kp6"@[2] == '6');
        },
        Keycode::Kp7 => {
            reveal_strlit("kp7");
            assert("kp7"@[0] == 'k' && "kp7"@[1] == 'p' && "kp7"@[2] == '7');
        },
        Keycode::Kp8 => {
            reveal_strlit("kp8");
            assert("kp8"@[0] == 'k' && "kp8"@[1] == 'p' && "kp8"@[2] == '8');
        },
        Keycode::Kp9 => {
            reveal_strlit("kp9");
            assert("kp9"@[0] == 'k' && "kp9"@[1] == 'p' && "kp9"@[2] == '9');
        },
        Keycode::KpDecimal => {
            reveal_strlit("kpdecimal");
            assert("kpdecimal"@[0] == 'k' && "kpdecimal"@[1] == 'p' && "kpdecimal"@[2] == 'd' && "kpdecimal"@[3] == 'e' && "kpdecimal"@[4] == 'c' && "kpdecimal"@[5] == 'i' && "kpdecimal"@[6] == 'm' && "kpdecimal"@[7] == 'a' && "kpdecimal"@[8] == 'l');
        },
        Keycode::KpDivide => {
            reveal_strlit("kpdivide");
            assert("kpdivide"@[0] == 'k' && "kpdivide"@[1] == 'p' && "kpdivide"@[2] == 'd' && "kpdivide"@[3] == 'i' && "kpdivide"@[4] == 'v' && "kpdivide"@[5] == 'i' && "kpdivide"@[6] == 'd' && "kpdivide"@[7] == 'e');
        },
        Keycode::KpMultiply => {
            reveal_strlit("kpmultiply");
            assert("kpmultiply"@[0] == 'k' && "kpmultiply"@[1] == 'p' && "kpmultiply"@[2] == 'm' && "kpmultiply"@[3] == 'u' && "kpmultiply"@[4] == 'l' && "kpmultiply"@[5] == 't' && "kpmultiply"@[6] == 'i' && "kpmultiply"@[7] == 'p' && "kpmultiply"@[8] == 'l' && "kpmultiply"@[9] == 'y');
        },
        Keycode::KpSubtract => {
            reveal_strlit("kpsubtract");
            assert("kpsubtract"@[0] == 'k' && "kpsubtract"@[1] == 'p' && "kpsubtract"@[2] == 's' && "kpsubtract"@[3] == 'u' && "kpsubtract"@[4] == 'b' && "kpsubtract"@[5] == 't' && "kpsubtract"@[6] == 'r' && "kpsubtract"@[7] == 'a' && "kpsubtract"@[8] == 'c' && "kpsubtract"@[9] == 't');
        },
        Keycode::KpAdd => {
            reveal_strlit("kpadd");
            assert("kpadd"@[0] == 'k' && "kpadd"@[1] == 'p' && "kpadd"@[2] == 'a' && "kpadd"@[3] == 'd' && "kpadd"@[4] == 'd');
        },
        Keycode::KpEnter => {
            reveal_strlit("kpenter");
            assert("kpenter"@[0] == 'k' && "kpenter"@[1] == 'p' && "kpenter"@[2] == 'e' && "kpenter"@[3] == 'n' && "kpenter"@[4] == 't' && "kpenter"@[5] == 'e' && "kpenter"@[6] == 'r');
        },
        Keycode::KpEqual => {
            reveal_strlit("kpequal");
            assert("kpequal"@[0] == 'k' && "kpequal"@[1] == 'p' && "kpequal"@[2] == 'e' && "kpequal"@[3] == 'q' && "kpequal"@[4] == 'u' && "kpequal"@[5] == 'a' && "kpequal"@[6] == 'l');
        },
        Keycode::LeftShift => {
            reveal_strlit("leftshift");
            assert("leftshift"@[0] == 'l' && "leftshift"@[1] == 'e' && "leftshift"@[2] == 'f' && "leftshift"@[3] == 't' && "leftshift"@[4] == 's' && "leftshift"@[5] == 'h' && "leftshift"@[6] == 'i' && "leftshift"@[7] == 'f' && "leftshift"@[8] == 't');
        },
        Keycode::LeftControl => {
            reveal_strlit("leftcontrol");
            assert("leftcontrol"@[0] == 'l' && "leftcontrol"@[1] == 'e' && "leftcontrol"@[2] == 'f' && "leftcontrol"@[3] == 't' && "leftcontrol"@[4] == 'c' && "leftcontrol"@[5] == 'o' && "leftcontrol"@[6] == 'n' && "leftcontrol"@[7] == 't' && "leftcontrol"@[8] == 'r' && "leftcontrol"@[9] == 'o' && "leftcontrol"@[10] == 'l');
        },
        Keycode::LeftAlt => {
            reveal_strlit("leftalt");
            assert("leftalt"@[0] == 'l' && "leftalt"@[1] == 'e' && "leftalt"@[2] == 'f' && "leftalt"@[3] == 't' && "leftalt"@[4] == 'a' && "leftalt"@[5] == 'l' && "leftalt"@[6] == 't');
        },
        Keycode::LeftSuper => {
            reveal_strlit("leftsuper");
            assert("leftsuper"@[0] == 'l' && "leftsuper"@[1] == 'e' && "leftsuper"@[2] == 'f' && "leftsuper"@[3] == 't' && "leftsuper"@[4] == 's' && "leftsuper"@[5] == 'u' && "leftsuper"@[6] == 'p' && "leftsuper"@[7] == 'e' && "leftsuper"@[8] == 'r');
        },
        Keycode::RightShift => {
            reveal_strlit("rightshift");
            assert("rightshift"@[0] == 'r' && "rightshift"@[1] == 'i' && "rightshift"@[2] == 'g' && "rightshift"@[3] == 'h' && "rightshift"@[4] == 't' && "rightshift"@[5] == 's' && "rightshift"@[6] == 'h' && "rightshift"@[7] == 'i' && "rightshift"@[8] == 'f' && "rightshift"@[9] == 't');
        },
        Keycode::RightControl => {
            reveal_strlit("rightcontrol");
            assert("rightcontrol"@[0] == 'r' && "rightcontrol"@[1] == 'i' && "rightcontrol"@[2] == 'g' && "rightcontrol"@[3] == 'h' && "rightcontrol"@[4] == 't' && "rightcontrol"@[5] == 'c' && "rightcontrol"@[6] == 'o' && "rightcontrol"@[7] == 'n' && "rightcontrol"@[8] == 't' && "rightcontrol"@[9] == 'r' && "rightcontrol"@[10] == 'o' && "rightcontrol"@[11] == 'l');
        },
        Keycode::RightAlt => {
            reveal_strlit("rightalt");
            assert("rightalt"@[0] == 'r' && "rightalt"@[1] == 'i' && "rightalt"@[2] == 'g' && "rightalt"@[3] == 'h' && "rightalt"@[4] == 't' && "rightalt"@[5] == 'a' && "rightalt"@[6] == 'l' && "rightalt"@[7] == 't');
        },
        Keycode::RightSuper => {
            reveal_strlit("rightsuper");
            assert("rightsuper"@[0] == 'r' && "rightsuper"@[1] == 'i' && "rightsuper"@[2] == 'g' && "rightsuper"@[3] == 'h' && "rightsuper"@[4] == 't' && "rightsuper"@[5] == 's' && "rightsuper"@[6] == 'u' && "rightsuper"@[7] == 'p' && "rightsuper"@[8] == 'e' && "rightsuper"@[9] == 'r');
        },
        Keycode::Menu => {
            reveal_strlit("menu");
            assert("menu"@[0] == 'm' && "menu"@[1] == 'e' && "menu"@[2] == 'n' && "menu"@[3] == 'u');
        },
        Keycode::Invalid => {},
    }
}

/// Keys with the same name length and characters are the same key.
proof fn lemma_name_sig_injective(a: Keycode, b: Keycode)
    requires
        name_sig(a).0 > 0,
        name_sig(a) == name_sig(b),
    ensures
        a == b,
{
}

/// Every key's name is lowercase ASCII: letters `a` to `z` and digits.
/// So the name in any ASCII casing lowercases to the name itself, and
/// `from_str` reads it back to the key.
pub proof fn names_are_lowercase_ascii(k: Keycode)
    ensures
        k.name() matches Some(s) ==> {
            &&& forall|i: int| 0 <= i < s.len() ==> lower_or_digit(#[trigger] s[i])
            &&& vstd::utf8::is_ascii_chars(s)
            &&& s.map_values(|c: char| ascii_lower(c)) == s
        },
{
    lemma_name_chars(k);
    if let Some(s) = k.name() {
        assert forall|i: int| 0 <= i < s.len() implies lower_or_digit(#[trigger] s[i]) by {
            if i == 0 {
            } else if i == 1 {
            } else if i == 2 {
            } else if i == 3 {
            } else if i == 4 {
            } else if i == 5 {
            } else if i == 6 {
            } else if i == 7 {
            } else if i == 8 {
            } else if i == 9 {
            } else if i == 10 {
            } else if i == 11 {
            }
        }
        assert(s.map_values(|c: char| ascii_lower(c)) =~= s);
    }
}

/// Every key but `Invalid` has a name.
pub proof fn every_key_has_a_name(k: Keycode)
    ensures
        k.name() is Some <==> k != Keycode::Invalid,
{
}

/// No two keys share a name, so a name that `from_str` reads names one key.
pub proof fn names_identify_keys(a: Keycode, b: Keycode)
    ensures
        a.name() is Some && a.name() == b.name() ==> a == b,
{
    if a.name() is Some && a.name() == b.name() {
        lemma_name_chars(a);
        lemma_name_chars(b);
        lemma_name_sig_injective(a, b);
    }
}

} // verus!
