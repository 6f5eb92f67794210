//! virtio-input event codes and the keyboard layout.
//!
//! The QEMU `virt` machine exposes virtio-mmio slots at 0x0a000000, 0x200 bytes apart,
//! 32 slots in all; keyboards and tablets found there send Linux input events.

use vstd::prelude::*;

verus! {

pub const VIRTIO_MMIO_BASE: usize = 0x0a00_0000;

pub const VIRTIO_MMIO_STRIDE: usize = 0x200;

pub const NUM_SLOTS: usize = 32;

// Linux input event codes (subset), from linux/input-event-codes.h.
pub const EV_SYN: u16 = 0x00;

pub const EV_KEY: u16 = 0x01;

pub const EV_REL: u16 = 0x02;

pub const EV_ABS: u16 = 0x03;

pub const REL_X: u16 = 0x00;

pub const REL_Y: u16 = 0x01;

pub const ABS_X: u16 = 0x00;

pub const ABS_Y: u16 = 0x01;

/// The character that Linux key code `code` types on a US layout, lower case:
/// digits, letters, space, backspace (`'\x08'`) and enter (`'\n'`).
pub open spec fn key_char(code: u16) -> Option<char> {
    match code {
        2 => Some('1'),
        3 => Some('2'),
        4 => Some('3'),
        5 => Some('4'),
        6 => Some('5'),
        7 => Some('6'),
        8 => Some('7'),
        9 => Some('8'),
        10 => Some('9'),
        11 => Some('0'),
        16 => Some('q'),
        17 => Some('w'),
        18 => Some('e'),
        19 => Some('r'),
        20 => Some('t'),
        21 => Some('y'),
        22 => Some('u'),
        23 => Some('i'),
        24 => Some('o'),
        25 => Some('p'),
        30 => Some('a'),
        31 => Some('s'),
        32 => Some('d'),
        33 => Some('f'),
        34 => Some('g'),
        35 => Some('h'),
        36 => Some('j'),
        37 => Some('k'),
        38 => Some('l'),
        44 => Some('z'),
        45 => Some('x'),
        46 => Some('c'),
        47 => Some('v'),
        48 => Some('b'),
        49 => Some('n'),
        50 => Some('m'),
        57 => Some(' '),
        14 => Some('\x08'),
        28 => Some('\n'),
        _ => None,
    }
}

/// The character typed by the key with Linux key code `code` (lower case, US layout).
pub fn keycode_to_char(code: u16) -> (c: Option<char>)
    ensures
        c == key_char(code),
{
    Some(match code {
        2 => '1',
        3 => '2',
        4 => '3',
        5 => '4',
        6 => '5',
        7 => '6',
        8 => '7',
        9 => '8',
        10 => '9',
        11 => '0',
        16 => 'q',
        17 => 'w',
        18 => 'e',
        19 => 'r',
        20 => 't',
        21 => 'y',
        22 => 'u',
        23 => 'i',
        24 => 'o',
        25 => 'p',
        30 => 'a',
        31 => 's',
        32 => 'd',
        33 => 'f',
        34 => 'g',
        35 => 'h',
        36 => 'j',
        37 => 'k',
        38 => 'l',
        44 => 'z',
        45 => 'x',
        46 => 'c',
        47 => 'v',
        48 => 'b',
        49 => 'n',
        50 => 'm',
        57 => ' ',
        14 => '\x08',
        28 => '\n',
        _ => return None,
    })
}

/// The keys type the US layout, row by row: key codes 2..11 the digits `1234567890`,
/// 16..25 `qwertyuiop`, 30..38 `asdfghjkl`, 44..50 `zxcvbnm`, 57 the space bar, 14
/// backspace and 28 enter; no two keys type the same character.
pub proof fn law_key_rows()
    ensures
        forall|i: int| 0 <= i < 10 ==> key_char((2 + i) as u16) == Some(#[trigger] "1234567890"@[i]),
        forall|i: int| 0 <= i < 10 ==> key_char((16 + i) as u16) == Some(#[trigger] "qwertyuiop"@[i]),
        forall|i: int| 0 <= i < 9 ==> key_char((30 + i) as u16) == Some(#[trigger] "asdfghjkl"@[i]),
        forall|i: int| 0 <= i < 7 ==> key_char((44 + i) as u16) == Some(#[trigger] "zxcvbnm"@[i]),
        key_char(57) == Some(' '),
        key_char(14) == Some('\x08'),
        key_char(28) == Some('\n'),
        forall|a: u16, b: u16| #[trigger] key_char(a) is Some && #[trigger] key_char(b) is Some && key_char(a)
            == key_char(b) ==> a == b,
{
    reveal_strlit("1234567890");
    reveal_strlit("qwertyuiop");
    reveal_strlit("asdfghjkl");
    reveal_strlit("zxcvbnm");
    assert forall|i: int| 0 <= i < 10 implies key_char((2 + i) as u16) == Some(#[trigger] "1234567890"@[i]) by {
        if i == 0 {} else if i == 1 {} else if i == 2 {} else if i == 3 {} else if i == 4 {}
        else if i == 5 {} else if i == 6 {} else if i == 7 {} else if i == 8 {} else {}
    }
    assert forall|i: int| 0 <= i < 10 implies key_char((16 + i) as u16) == Some(#[trigger] "qwertyuiop"@[i]) by {
        if i == 0 {} else if i == 1 {} else if i == 2 {} else if i == 3 {} else if i == 4 {}
        else if i == 5 {} else if i == 6 {} else if i == 7 {} else if i == 8 {} else {}
    }
    assert forall|i: int| 0 <= i < 9 implies key_char((30 + i) as u16) == Some(#[trigger] "asdfghjkl"@[i]) by {
        if i == 0 {} else if i == 1 {} else if i == 2 {} else if i == 3 {} else if i == 4 {}
        else if i == 5 {} else if i == 6 {} else if i == 7 {} else {}
    }
    assert forall|i: int| 0 <= i < 7 implies key_char((44 + i) as u16) == Some(#[trigger] "zxcvbnm"@[i]) by {
        if i == 0 {} else if i == 1 {} else if i == 2 {} else if i == 3 {} else if i == 4 {}
        else if i == 5 {} else {}
    }
}

} // verus!
