//! The host keyboard layout of the keypad.
use vstd::prelude::*;

verus! {

/// The keypad key under a host key, in the usual layout:
///
/// ```text
/// 1 2 3 4      1 2 3 C
/// q w e r      4 5 6 D
/// a s d f  ->  7 8 9 E
/// z x c v      A 0 B F
/// ```
pub open spec fn layout(c: char) -> Option<usize> {
    if c == '1' {
        Some(0x1)
    } else if c == '2' {
        Some(0x2)
    } else if c == '3' {
        Some(0x3)
    } else if c == '4' {
        Some(0xC)
    } else if c == 'q' {
        Some(0x4)
    } else if c == 'w' {
        Some(0x5)
    } else if c == 'e' {
        Some(0x6)
    } else if c == 'r' {
        Some(0xD)
    } else if c == 'a' {
        Some(0x7)
    } else if c == 's' {
        Some(0x8)
    } else if c == 'd' {
        Some(0x9)
    } else if c == 'f' {
        Some(0xE)
    } else if c == 'z' {
        Some(0xA)
    } else if c == 'x' {
        Some(0x0)
    } else if c == 'c' {
        Some(0xB)
    } else if c == 'v' {
        Some(0xF)
    } else {
        None
    }
}

/// The keypad key under host key `c`, if any.
pub fn keypad_index(c: char) -> (r: Option<usize>)
    ensures
        r == layout(c),
        r matches Some(k) ==> k < 16,
{
    match c {
        '1' => Some(0x1),
        '2' => Some(0x2),
        '3' => Some(0x3),
        '4' => Some(0xC),
        'q' => Some(0x4),
        'w' => Some(0x5),
        'e' => Some(0x6),
        'r' => Some(0xD),
        'a' => Some(0x7),
        's' => Some(0x8),
        'd' => Some(0x9),
        'f' => Some(0xE),
        'z' => Some(0xA),
        'x' => Some(0x0),
        'c' => Some(0xB),
        'v' => Some(0xF),
        _ => None,
    }
}

/// Every keypad key lies under exactly one host key.
pub proof fn lemma_layout_covers_pad(k: usize)
    requires
        k < 16,
    ensures
        exists|c: char| #[trigger] layout(c) == Some(k),
        forall|c1: char, c2: char|
            #[trigger] layout(c1) == Some(k) && #[trigger] layout(c2) == Some(k) ==> c1 == c2,
{
    let c = if k == 0x1 {
        '1'
    } else if k == 0x2 {
        '2'
    } else if k == 0x3 {
        '3'
    } else if k == 0xC {
        '4'
    } else if k == 0x4 {
        'q'
    } else if k == 0x5 {
        'w'
    } else if k == 0x6 {
        'e'
    } else if k == 0xD {
        'r'
    } else if k == 0x7 {
        'a'
    } else if k == 0x8 {
        's'
    } else if k == 0x9 {
        'd'
    } else if k == 0xE {
        'f'
    } else if k == 0xA {
        'z'
    } else if k == 0x0 {
        'x'
    } else if k == 0xB {
        'c'
    } else {
        'v'
    };
    assert(layout(c) == Some(k));
}

} // verus!
