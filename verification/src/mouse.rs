//! The input normalizer: raw platform mouse events become one of a small
//! closed set of semantic events.
//!
//! Total over every raw event shape: button-downs map to presses, a scroll
//! carrying the control modifier is remapped to the other axis (scroll-down
//! to `ScrollLeft`, scroll-up to `ScrollRight` - an intentional remap, not a
//! naming bug), plain scrolls keep their direction, pointer movement keeps
//! its coordinates exactly, and everything else is `Unknown`.

use vstd::prelude::*;

verus! {

/// What the core reads out of one raw platform mouse event.
#[derive(Clone, Copy, Debug, PartialEq, Eq, Structural)]
pub enum RawMouseKind {
    LeftDown,
    RightDown,
    MiddleDown,
    ScrollUp,
    ScrollDown,
    Moved,
    /// Drags, releases, other buttons: anything the normalizer ignores.
    Other,
}

/// One raw platform mouse event: its kind, whether the control modifier was
/// held, and the terminal cell it points at.
#[derive(Clone, Copy, Debug, PartialEq, Eq, Structural)]
pub struct RawMouseEvent {
    pub kind: RawMouseKind,
    pub ctrl: bool,
    pub column: u16,
    pub row: u16,
}

/// The closed set of semantic input events. Equality-comparable and
/// hashable, so it can serve as a keybinding-style lookup key.
#[derive(Clone, Copy, Debug, PartialEq, Eq, Hash, Structural)]
pub enum Mouse {
    LeftPress,
    RightPress,
    MiddlePress,
    ScrollUp,
    ScrollDown,
    ScrollLeft,
    ScrollRight,
    Move(u16, u16),
    Unknown,
}

/// The normalization rules, in priority order: buttons first, then
/// modifier-carrying scrolls, then plain scrolls, then movement.
pub open spec fn spec_normalize(ev: RawMouseEvent) -> Mouse {
    match ev.kind {
        RawMouseKind::LeftDown => Mouse::LeftPress,
        RawMouseKind::RightDown => Mouse::RightPress,
        RawMouseKind::MiddleDown => Mouse::MiddlePress,
        RawMouseKind::ScrollDown => if ev.ctrl {
            Mouse::ScrollLeft
        } else {
            Mouse::ScrollDown
        },
        RawMouseKind::ScrollUp => if ev.ctrl {
            Mouse::ScrollRight
        } else {
            Mouse::ScrollUp
        },
        RawMouseKind::Moved => Mouse::Move(ev.column, ev.row),
        RawMouseKind::Other => Mouse::Unknown,
    }
}

impl Mouse {
    /// Normalize one raw event. Total: every raw event yields exactly one
    /// semantic event.
    pub fn from(ev: RawMouseEvent) -> (m: Mouse)
        ensures
            m == spec_normalize(ev),
            ev.kind == RawMouseKind::ScrollDown && ev.ctrl ==> m == Mouse::ScrollLeft,
            ev.kind == RawMouseKind::ScrollUp && ev.ctrl ==> m == Mouse::ScrollRight,
            ev.kind == RawMouseKind::Moved ==> m == Mouse::Move(ev.column, ev.row),
    {
        match ev.kind {
            RawMouseKind::LeftDown => Mouse::LeftPress,
            RawMouseKind::RightDown => Mouse::RightPress,
            RawMouseKind::MiddleDown => Mouse::MiddlePress,
            RawMouseKind::ScrollDown => if ev.ctrl {
                Mouse::ScrollLeft
            } else {
                Mouse::ScrollDown
            },
            RawMouseKind::ScrollUp => if ev.ctrl {
                Mouse::ScrollRight
            } else {
                Mouse::ScrollUp
            },
            RawMouseKind::Moved => Mouse::Move(ev.column, ev.row),
            RawMouseKind::Other => Mouse::Unknown,
        }
    }

    /// The canonical human-readable label of one semantic event.
    pub fn label(&self) -> (r: String)
        ensures
            r@ == spec_label(*self),
    {
        match *self {
            Mouse::LeftPress => String::from_str("<Mouse::Left>"),
            Mouse::RightPress => String::from_str("<Mouse::Right>"),
            Mouse::MiddlePress => String::from_str("<Mouse::Middle>"),
            Mouse::ScrollUp => String::from_str("<Mouse::ScrollUp>"),
            Mouse::ScrollDown => String::from_str("<Mouse::ScrollDown>"),
            Mouse::ScrollLeft => String::from_str("<Mouse::Ctrl + ScrollUp>"),
            Mouse::ScrollRight => String::from_str("<Mouse::Ctrl + ScrollDown>"),
            Mouse::Move(x, y) => {
                let mut s = String::from_str("<Mouse::Move(");
                let dx = u16_digits(x);
                s.append(dx.as_str());
                s.append(", ");
                let dy = u16_digits(y);
                s.append(dy.as_str());
                s.append(")>");
                proof {
                    assert(s@ =~= spec_label(*self));
                }
                s
            },
            Mouse::Unknown => String::from_str("<Mouse::Unknown>"),
        }
    }
}

/// One decimal digit as a character.
pub open spec fn spec_digit_char(d: nat) -> char {
    if d == 0 {
        '0'
    } else if d == 1 {
        '1'
    } else if d == 2 {
        '2'
    } else if d == 3 {
        '3'
    } else if d == 4 {
        '4'
    } else if d == 5 {
        '5'
    } else if d == 6 {
        '6'
    } else if d == 7 {
        '7'
    } else if d == 8 {
        '8'
    } else {
        '9'
    }
}

/// The usual decimal rendering of a number: no sign, no leading zero except
/// for zero itself.
pub open spec fn spec_digits(n: nat) -> Seq<char>
    decreases n,
{
    if n < 10 {
        seq![spec_digit_char(n)]
    } else {
        spec_digits(n / 10).push(spec_digit_char(n % 10))
    }
}

/// The label of one semantic event: `<Mouse::Variant>`, with the remapped
/// scrolls labelled by the raw combination they came from, and movement
/// carrying its coordinates.
pub open spec fn spec_label(m: Mouse) -> Seq<char> {
    match m {
        Mouse::LeftPress => "<Mouse::Left>"@,
        Mouse::RightPress => "<Mouse::Right>"@,
        Mouse::MiddlePress => "<Mouse::Middle>"@,
        Mouse::ScrollUp => "<Mouse::ScrollUp>"@,
        Mouse::ScrollDown => "<Mouse::ScrollDown>"@,
        Mouse::ScrollLeft => "<Mouse::Ctrl + ScrollUp>"@,
        Mouse::ScrollRight => "<Mouse::Ctrl + ScrollDown>"@,
        Mouse::Move(x, y) => "<Mouse::Move("@ + spec_digits(x as nat) + ", "@ + spec_digits(
            y as nat,
        ) + ")>"@,
        Mouse::Unknown => "<Mouse::Unknown>"@,
    }
}

fn digit_str(d: u16) -> (r: &'static str)
    requires
        d < 10,
    ensures
        r@ == seq![spec_digit_char(d as nat)],
{
    proof {
        reveal_strlit("0");
        reveal_strlit("1");
        reveal_strlit("2");
        reveal_strlit("3");
        reveal_strlit("4");
        reveal_strlit("5");
        reveal_strlit("6");
        reveal_strlit("7");
        reveal_strlit("8");
        reveal_strlit("9");
    }
    match d {
        0 => "0",
        1 => "1",
        2 => "2",
        3 => "3",
        4 => "4",
        5 => "5",
        6 => "6",
        7 => "7",
        8 => "8",
        _ => "9",
    }
}

/// Render a number in decimal.
fn u16_digits(n: u16) -> (r: String)
    ensures
        r@ == spec_digits(n as nat),
    decreases n,
{
    if n < 10 {
        String::from_str(digit_str(n))
    } else {
        let mut s = u16_digits(n / 10);
        s.append(digit_str(n % 10));
        proof {
            assert(s@ =~= spec_digits(n as nat));
        }
        s
    }
}

} // verus!
