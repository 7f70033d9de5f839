//! The VT100 / ANSI control sequences the editor emits, as byte sequences.

use vstd::prelude::*;

verus! {

/// The escape byte that starts every control sequence.
pub const ESC: u8 = 0x1b;

/// `[`, which follows the escape byte in a control sequence.
pub const CSI_OPEN: u8 = 0x5b;

pub const QUESTION: u8 = 0x3f;

pub const SEMICOLON: u8 = 0x3b;

pub const DIGIT_ZERO: u8 = 0x30;

pub const DIGIT_TWO: u8 = 0x32;

pub const DIGIT_FIVE: u8 = 0x35;

pub const LOWER_H: u8 = 0x68;

pub const LOWER_L: u8 = 0x6c;

pub const UPPER_H: u8 = 0x48;

pub const UPPER_J: u8 = 0x4a;

pub const UPPER_K: u8 = 0x4b;

/// Carriage return.
pub const CR: u8 = 0x0d;

/// Line feed.
pub const LF: u8 = 0x0a;

/// `ESC [ ? 2 5 l`: hide the cursor.
pub open spec fn hide_cursor_seq() -> Seq<u8> {
    seq![ESC, CSI_OPEN, QUESTION, DIGIT_TWO, DIGIT_FIVE, LOWER_L]
}

/// `ESC [ ? 2 5 h`: show the cursor.
pub open spec fn show_cursor_seq() -> Seq<u8> {
    seq![ESC, CSI_OPEN, QUESTION, DIGIT_TWO, DIGIT_FIVE, LOWER_H]
}

/// `ESC [ H`: move the cursor to row 1, column 1.
pub open spec fn cursor_home_seq() -> Seq<u8> {
    seq![ESC, CSI_OPEN, UPPER_H]
}

/// `ESC [ K`: erase from the cursor to the end of the line.
pub open spec fn erase_line_seq() -> Seq<u8> {
    seq![ESC, CSI_OPEN, UPPER_K]
}

/// `ESC [ 2 J`: erase the whole display.
pub open spec fn erase_display_seq() -> Seq<u8> {
    seq![ESC, CSI_OPEN, DIGIT_TWO, UPPER_J]
}

/// Carriage return and line feed.
pub open spec fn crlf_seq() -> Seq<u8> {
    seq![CR, LF]
}

/// The decimal digits of `n`, most significant first, without leading zeros.
pub open spec fn decimal(n: nat) -> Seq<u8>
    decreases n,
{
    if n < 10 {
        seq![(DIGIT_ZERO + n) as u8]
    } else {
        decimal(n / 10).push((DIGIT_ZERO + n % 10) as u8)
    }
}

/// `ESC [ row ; col H`: move the cursor to the 1-indexed position (row, col).
pub open spec fn cursor_to_seq(row: nat, col: nat) -> Seq<u8> {
    seq![ESC, CSI_OPEN] + decimal(row) + seq![SEMICOLON] + decimal(col) + seq![UPPER_H]
}

/// Appends every byte of `s` to `buf`.
pub fn push_all(buf: &mut Vec<u8>, s: &[u8])
    ensures
        final(buf)@ == old(buf)@ + s@,
{
    let mut i: usize = 0;
    while i < s.len()
        invariant
            i <= s@.len(),
            buf@ == old(buf)@ + s@.subrange(0, i as int),
        decreases s@.len() - i,
    {
        buf.push(s[i]);
        i += 1;
        assert(s@.subrange(0, i as int) == s@.subrange(0, i - 1 as int).push(s@[i - 1]));
    }
    assert(s@.subrange(0, s@.len() as int) == s@);
}

/// Appends the decimal digits of `n` to `buf`.
pub fn push_decimal(buf: &mut Vec<u8>, n: u32)
    ensures
        final(buf)@ == old(buf)@ + decimal(n as nat),
    decreases n,
{
    if n >= 10 {
        push_decimal(buf, n / 10);
    }
    buf.push(DIGIT_ZERO + (n % 10) as u8);
    assert(buf@ == old(buf)@ + decimal(n as nat));
}

} // verus!
