use vstd::prelude::*;

verus! {

/// The key, 0x0 to 0xF, that a keyboard character stands for on the
/// conventional layout (`1 2 3 4 / q w e r / a s d f / z x c v`).
pub open spec fn key_of(c: char) -> Option<u8> {
    if c == '1' {
        Some(0x1)
    } else if c == '2' {
        Some(0x2)
    } else if c == '3' {
        Some(0x3)
    } else if c == '4' {
        Some(0xc)
    } else if c == 'q' {
        Some(0x4)
    } else if c == 'w' {
        Some(0x5)
    } else if c == 'e' {
        Some(0x6)
    } else if c == 'r' {
        Some(0xd)
    } else if c == 'a' {
        Some(0x7)
    } else if c == 's' {
        Some(0x8)
    } else if c == 'd' {
        Some(0x9)
    } else if c == 'f' {
        Some(0xe)
    } else if c == 'z' {
        Some(0xa)
    } else if c == 'x' {
        Some(0x0)
    } else if c == 'c' {
        Some(0xb)
    } else if c == 'v' {
        Some(0xf)
    } else {
        None
    }
}

/// The sixteen-key hexadecimal keypad, as read from a keyboard.
pub struct Keypad {}

impl Keypad {
    /// The key that a keyboard character stands for, if any.
    pub fn key_for_char(c: char) -> (r: Option<u8>)
        ensures
            r == key_of(c),
            r is Some ==> r->Some_0 < 16,
    {
        match c {
            '1' => Some(0x1),
            '2' => Some(0x2),
            '3' => Some(0x3),
            '4' => Some(0xc),
            'q' => Some(0x4),
            'w' => Some(0x5),
            'e' => Some(0x6),
            'r' => Some(0xd),
            'a' => Some(0x7),
            's' => Some(0x8),
            'd' => Some(0x9),
            'f' => Some(0xe),
            'z' => Some(0xa),
            'x' => Some(0x0),
            'c' => Some(0xb),
            'v' => Some(0xf),
            _ => None,
        }
    }

    /// The value of a decimal digit character from '1' to '9'; any other
    /// character has none.
    pub fn map_key(c: char) -> (r: Option<u32>)
        ensures
            r == (if '1' <= c && c <= '9' {
                Some((c as u32 - '0' as u32) as u32)
            } else {
                None::<u32>
            }),
    {
        if '1' <= c && c <= '9' {
            Some(c as u32 - '0' as u32)
        } else {
            None
        }
    }
}

} // verus!
