//! The text that puts one glyph on a terminal.

use vstd::prelude::*;

verus! {

/// The character of one decimal digit.
pub open spec fn digit(d: nat) -> char {
    if d == 0 {
        '0'
    } else if d == 1 {
        '1'
    } else if d == 2 {
        '2'
    } else if d == 3 {
        '3'
    } else if d == 4 {
        '4'
    } else if d == 5 {
        '5'
    } else if d == 6 {
        '6'
    } else if d == 7 {
        '7'
    } else if d == 8 {
        '8'
    } else {
        '9'
    }
}

/// A natural number in decimal, without leading zeros.
pub open spec fn digits(n: nat) -> Seq<char>
    decreases n,
{
    if n < 10 {
        seq![digit(n)]
    } else {
        digits(n / 10).push(digit(n % 10))
    }
}

/// An integer in decimal, with a minus sign where it is negative.
pub open spec fn decimal(n: int) -> Seq<char> {
    if n < 0 {
        seq!['-'] + digits((-n) as nat)
    } else {
        digits(n as nat)
    }
}

/// The text that draws `c` at the cell `(x, y)` in colour `col`: the cursor
/// goes to row `y + 1`, column `x + 1` (a terminal counts from one), the
/// colour is set, and the glyph follows.
pub open spec fn cell_text(x: int, y: int, c: char, col: int) -> Seq<char> {
    seq!['\x1b', '['] + decimal(y + 1) + seq![';'] + decimal(x + 1) + seq!['H', '\x1b', '[']
        + decimal(col) + seq!['m', c]
}

fn digit_char(d: u64) -> (c: char)
    requires
        d < 10,
    ensures
        c == digit(d as nat),
{
    if d == 0 {
        '0'
    } else if d == 1 {
        '1'
    } else if d == 2 {
        '2'
    } else if d == 3 {
        '3'
    } else if d == 4 {
        '4'
    } else if d == 5 {
        '5'
    } else if d == 6 {
        '6'
    } else if d == 7 {
        '7'
    } else if d == 8 {
        '8'
    } else {
        '9'
    }
}

fn push_digits(out: &mut Vec<char>, n: u64)
    ensures
        final(out)@ == old(out)@ + digits(n as nat),
    decreases n,
{
    if n >= 10 {
        push_digits(out, n / 10);
    }
    out.push(digit_char(n % 10));
    proof {
        if n >= 10 {
            assert(out@ =~= old(out)@ + digits((n / 10) as nat).push(digit((n % 10) as nat)));
        } else {
            assert(out@ =~= old(out)@ + seq![digit(n as nat)]);
        }
    }
}

/// Appends an integer in decimal.
pub fn push_decimal(out: &mut Vec<char>, n: i32)
    ensures
        final(out)@ == old(out)@ + decimal(n as int),
{
    if n < 0 {
        out.push('-');
        let wide: i64 = n as i64;
        let size: i64 = -wide;
        push_digits(out, size as u64);
        assert(out@ =~= old(out)@ + (seq!['-'] + digits((-n) as nat)));
    } else {
        push_digits(out, n as u64);
    }
}

/// The text that draws one glyph at one cell.
pub fn draw_char(x: i32, y: i32, c: char, col: i32) -> (out: Vec<char>)
    requires
        x < i32::MAX,
        y < i32::MAX,
    ensures
        out@ == cell_text(x as int, y as int, c, col as int),
{
    let mut out: Vec<char> = Vec::new();
    out.push('\x1b');
    out.push('[');
    push_decimal(&mut out, y + 1);
    out.push(';');
    push_decimal(&mut out, x + 1);
    out.push('H');
    out.push('\x1b');
    out.push('[');
    push_decimal(&mut out, col);
    out.push('m');
    out.push(c);
    assert(out@ =~= cell_text(x as int, y as int, c, col as int));
    out
}

} // verus!
