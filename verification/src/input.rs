//! Keys: from the bytes a terminal sends to what the player asked for.

use crate::snake::Direction;
use vstd::prelude::*;

verus! {

/// A key press: an arrow, or any other key by its first byte.
#[derive(Clone, Copy, Debug, PartialEq, Eq, Structural)]
pub enum Key {
    Up,
    Down,
    Left,
    Right,
    Char(u8),
}

/// What a key press asks of the game.
#[derive(Clone, Copy, Debug, PartialEq, Eq, Structural)]
pub enum Command {
    Turn(Direction),
    Quit,
    Nothing,
}

/// The key that the bytes of one read stand for.
///
/// No bytes are no key. A read that starts with `ESC` is an arrow where it
/// goes on with `[` and one of `A`, `B`, `C`, `D`, and nothing otherwise: a
/// lone `ESC`, a sequence cut short and an unknown sequence are all dropped.
/// Every other read is the key of its first byte.
pub open spec fn decoded(bytes: Seq<u8>) -> Option<Key> {
    if bytes.len() == 0 {
        None
    } else if bytes[0] == 27 {
        if bytes.len() >= 3 && bytes[1] == 91 && bytes[2] == 65 {
            Some(Key::Up)
        } else if bytes.len() >= 3 && bytes[1] == 91 && bytes[2] == 66 {
            Some(Key::Down)
        } else if bytes.len() >= 3 && bytes[1] == 91 && bytes[2] == 67 {
            Some(Key::Right)
        } else if bytes.len() >= 3 && bytes[1] == 91 && bytes[2] == 68 {
            Some(Key::Left)
        } else {
            None
        }
    } else {
        Some(Key::Char(bytes[0]))
    }
}

/// A read that starts with `ESC` is never taken for a character: it is an
/// arrow or nothing.
pub proof fn escape_is_arrow_or_nothing(bytes: Seq<u8>)
    requires
        bytes.len() > 0,
        bytes[0] == 27,
    ensures
        !(decoded(bytes) matches Some(Key::Char(_))),
        bytes.len() < 3 ==> decoded(bytes) is None,
{
}

impl Key {
    /// Arrows and `w` (119), `d` (100), `s` (115), `a` (97) turn; `q` (113)
    /// quits; other keys do nothing.
    pub open spec fn meaning(self) -> Command {
        match self {
            Key::Up => Command::Turn(Direction::Up),
            Key::Right => Command::Turn(Direction::Right),
            Key::Down => Command::Turn(Direction::Down),
            Key::Left => Command::Turn(Direction::Left),
            Key::Char(b) => if b == 119 {
                Command::Turn(Direction::Up)
            } else if b == 100 {
                Command::Turn(Direction::Right)
            } else if b == 115 {
                Command::Turn(Direction::Down)
            } else if b == 97 {
                Command::Turn(Direction::Left)
            } else if b == 113 {
                Command::Quit
            } else {
                Command::Nothing
            },
        }
    }

    pub fn command(self) -> (r: Command)
        ensures
            r == self.meaning(),
    {
        match self {
            Key::Up => Command::Turn(Direction::Up),
            Key::Right => Command::Turn(Direction::Right),
            Key::Down => Command::Turn(Direction::Down),
            Key::Left => Command::Turn(Direction::Left),
            Key::Char(b) => {
                if b == 119 {
                    Command::Turn(Direction::Up)
                } else if b == 100 {
                    Command::Turn(Direction::Right)
                } else if b == 115 {
                    Command::Turn(Direction::Down)
                } else if b == 97 {
                    Command::Turn(Direction::Left)
                } else if b == 113 {
                    Command::Quit
                } else {
                    Command::Nothing
                }
            },
        }
    }
}

/// What a poll of the keyboard asks for: nothing where no key came.
pub open spec fn asked(key: Option<Key>) -> Command {
    match key {
        Some(k) => k.meaning(),
        None => Command::Nothing,
    }
}

/// Decodes the bytes that one read of the keyboard returned.
pub fn decode_key(bytes: &[u8]) -> (r: Option<Key>)
    ensures
        r == decoded(bytes@),
{
    let n: usize = bytes.len();
    if n == 0 {
        return None;
    }
    let first: u8 = bytes[0];
    if first != 27 {
        return Some(Key::Char(first));
    }
    if n < 3 || bytes[1] != 91 {
        return None;
    }
    let last: u8 = bytes[2];
    if last == 65 {
        Some(Key::Up)
    } else if last == 66 {
        Some(Key::Down)
    } else if last == 67 {
        Some(Key::Right)
    } else if last == 68 {
        Some(Key::Left)
    } else {
        None
    }
}

} // verus!
