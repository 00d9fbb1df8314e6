use vstd::prelude::*;

verus! {

/// The window onto the buffer: first line shown, first column shown, and the
/// screen's size.
#[derive(Debug, Clone, Copy, PartialEq, Eq, Structural)]
pub struct Viewport {
    pub top: usize,
    pub left: usize,
    pub height: usize,
    pub width: usize,
}

/// The largest top line for a buffer of `lines` lines.
pub open spec fn last_top(lines: nat) -> nat {
    if lines == 0 {
        0
    } else {
        (lines - 1) as nat
    }
}

/// The top line that shows the last `height` lines.
pub open spec fn tail_top(lines: nat, height: nat) -> nat {
    if lines > height {
        (lines - height) as nat
    } else {
        0
    }
}

/// Half a screen of `n` rows or columns, rounded up.
pub open spec fn half(n: usize) -> usize {
    (n / 2 + n % 2) as usize
}

pub open spec fn sat_mul(a: usize, b: usize) -> usize {
    match a.checked_mul(b) {
        Some(x) => x,
        None => usize::MAX,
    }
}

pub open spec fn min_nat(a: nat, b: nat) -> nat {
    if a <= b {
        a
    } else {
        b
    }
}

/// Top line after moving `n` lines down, stopping at the last line.
pub open spec fn down_by(top: usize, n: usize, lines: nat) -> usize {
    min_nat(top as nat + n as nat, last_top(lines)) as usize
}

/// Top line after moving `n` lines up, stopping at the first line.
pub open spec fn up_by(top: usize, n: usize) -> usize {
    top.saturating_sub(n)
}

/// Index of line number `n` (counted from 1), clamped into the buffer.
pub open spec fn line_index(n: usize, lines: nat) -> usize {
    if lines == 0 || n <= 1 {
        0
    } else if n as nat > lines {
        (lines - 1) as usize
    } else {
        (n - 1) as usize
    }
}

pub fn half_of(n: usize) -> (r: usize)
    ensures
        r == half(n),
        2 * r == n || 2 * r == n + 1,
{
    n / 2 + n % 2
}

pub fn times(a: usize, b: usize) -> (r: usize)
    ensures
        r == sat_mul(a, b),
{
    match a.checked_mul(b) {
        Some(x) => x,
        None => usize::MAX,
    }
}

pub fn last_top_of(lines: usize) -> (r: usize)
    ensures
        r == last_top(lines as nat),
{
    if lines == 0 {
        0
    } else {
        lines - 1
    }
}

pub fn tail_top_of(lines: usize, height: usize) -> (r: usize)
    ensures
        r == tail_top(lines as nat, height as nat),
{
    if lines > height {
        lines - height
    } else {
        0
    }
}

pub fn scroll_down(top: usize, n: usize, lines: usize) -> (r: usize)
    ensures
        r == down_by(top, n, lines as nat),
        r <= last_top(lines as nat),
{
    let last = last_top_of(lines);
    if top >= last || n >= last - top {
        last
    } else {
        top + n
    }
}

pub fn scroll_up(top: usize, n: usize) -> (r: usize)
    ensures
        r == up_by(top, n),
        r <= top,
{
    top.saturating_sub(n)
}

pub fn go_to_line(n: usize, lines: usize) -> (r: usize)
    ensures
        r == line_index(n, lines as nat),
        r <= last_top(lines as nat),
{
    if lines == 0 || n <= 1 {
        0
    } else if n > lines {
        lines - 1
    } else {
        n - 1
    }
}

} // verus!
