//! The mapping from host keyboard keys to the hexadecimal keypad.
use vstd::prelude::*;

use crate::NUM_KEYS;

verus! {

/// A key of the host keyboard: the two arrow keys the mapping reads, a key
/// that types a character (letters lower case), or any other key.
#[derive(Clone, Copy, Debug)]
pub enum HostKey {
    Up,
    Down,
    Char(char),
    Other,
}

/// The keypad key that a host key stands for: W and S for 1 and 4, the arrow
/// keys for C and D, and the digits and the letters A to F for themselves.
pub open spec fn spec_key_to_btn(key: HostKey) -> Option<usize> {
    match key {
        HostKey::Up => Some(0xC),
        HostKey::Down => Some(0xD),
        HostKey::Char(c) => if c == 'w' {
            Some(0x1)
        } else if c == 's' {
            Some(0x4)
        } else if '0' <= c && c <= '9' {
            Some((c as int - '0' as int) as usize)
        } else if 'a' <= c && c <= 'f' {
            Some((c as int - 'a' as int + 10) as usize)
        } else {
            None
        },
        HostKey::Other => None,
    }
}

/// The keypad key that a host key stands for, if any.
pub fn key_to_btn(key: HostKey) -> (btn: Option<usize>)
    ensures
        btn == spec_key_to_btn(key),
        btn matches Some(b) ==> b < NUM_KEYS,
{
    match key {
        HostKey::Char('w') => Some(0x1),
        HostKey::Char('s') => Some(0x4),
        HostKey::Up => Some(0xC),
        HostKey::Down => Some(0xD),
        HostKey::Char('1') => Some(0x1),
        HostKey::Char('2') => Some(0x2),
        HostKey::Char('3') => Some(0x3),
        HostKey::Char('4') => Some(0x4),
        HostKey::Char('5') => Some(0x5),
        HostKey::Char('6') => Some(0x6),
        HostKey::Char('7') => Some(0x7),
        HostKey::Char('8') => Some(0x8),
        HostKey::Char('9') => Some(0x9),
        HostKey::Char('0') => Some(0x0),
        HostKey::Char('a') => Some(0xA),
        HostKey::Char('b') => Some(0xB),
        HostKey::Char('c') => Some(0xC),
        HostKey::Char('d') => Some(0xD),
        HostKey::Char('e') => Some(0xE),
        HostKey::Char('f') => Some(0xF),
        _ => None,
    }
}

/// Every keypad key is reached by the character of its own hexadecimal
/// digit (lower case), W and S also reach 1 and 4, the arrow keys reach C and
/// D, and no other character nor key reaches any keypad key.
pub proof fn law_key_map(b: int, c: char)
    requires
        0 <= b < 16,
    ensures
        spec_key_to_btn(HostKey::Char(hex_digit_char(b))) == Some(b as usize),
        spec_key_to_btn(HostKey::Char('w')) == Some(1usize),
        spec_key_to_btn(HostKey::Char('s')) == Some(4usize),
        spec_key_to_btn(HostKey::Up) == Some(12usize),
        spec_key_to_btn(HostKey::Down) == Some(13usize),
        spec_key_to_btn(HostKey::Other) is None,
        spec_key_to_btn(HostKey::Char(c)) is Some <==> (c == 'w' || c == 's' || exists|d: int|
            0 <= d < 16 && c == #[trigger] hex_digit_char(d)),
{
    if spec_key_to_btn(HostKey::Char(c)) is Some && c != 'w' && c != 's' {
        if '0' <= c && c <= '9' {
            assert(c == hex_digit_char(c as int - '0' as int));
        } else {
            assert(c == hex_digit_char(c as int - 'a' as int + 10));
        }
    }
}

/// The lower-case hexadecimal digit character of `d`, for `d` below 16.
pub open spec fn hex_digit_char(d: int) -> char {
    if d < 10 {
        ('0' as int + d) as char
    } else {
        ('a' as int + d - 10) as char
    }
}

} // verus!
