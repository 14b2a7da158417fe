//! Where the x-axis labels stand and how an offset is written in them.
use crate::app::{App, DisplayMode};
use vstd::prelude::*;

verus! {

/// The character of digit `d` (`0`-`9`, then `a`-`f`).
pub open spec fn digit_char(d: nat) -> char {
    if d < 10 {
        (48 + d) as char
    } else {
        (87 + d) as char
    }
}

/// `n` written in base `base` without leading zeros (`0` for zero).
pub open spec fn digits(n: nat, base: nat) -> Seq<char>
    decreases n
    via digits_decreases
{
    if base < 2 || n < base {
        seq![digit_char(n)]
    } else {
        digits(n / base, base).push(digit_char(n % base))
    }
}

#[via_fn]
proof fn digits_decreases(n: nat, base: nat) {
    if !(base < 2 || n < base) {
        assert(n / base < n) by (nonlinear_arith)
            requires
                base >= 2,
                n >= base,
        ;
    }
}

/// `count` zero characters.
pub open spec fn zeros(count: nat) -> Seq<char> {
    Seq::new(count, |i: int| '0')
}

/// How an offset reads in a label: decimal, or `0x` and at least eight
/// lower-case hexadecimal digits, padded with zeros.
pub open spec fn offset_text(n: nat, mode: DisplayMode) -> Seq<char> {
    match mode {
        DisplayMode::Decimal => digits(n, 10),
        DisplayMode::Hexadecimal => {
            let h = digits(n, 16);
            let pad = if h.len() < 8 {
                (8 - h.len()) as nat
            } else {
                0
            };
            seq!['0', 'x'] + zeros(pad) + h
        },
    }
}

fn digit(d: u64) -> (c: char)
    requires
        d < 16,
    ensures
        c == digit_char(d as nat),
{
    if d < 10 {
        ((48 + d) as u8) as char
    } else {
        ((87 + d) as u8) as char
    }
}

fn push_digits(n: u64, base: u64, out: &mut Vec<char>)
    requires
        base == 10 || base == 16,
    ensures
        final(out)@ == old(out)@ + digits(n as nat, base as nat),
    decreases n,
{
    if n >= base {
        push_digits(n / base, base, out);
    }
    out.push(digit(n % base));
    proof {
        assert(final(out)@ =~= old(out)@ + digits(n as nat, base as nat));
    }
}

fn digit_count(n: u64, base: u64) -> (r: u64)
    requires
        base == 10 || base == 16,
    ensures
        r == digits(n as nat, base as nat).len(),
    decreases n,
{
    if n >= base {
        let k = digit_count(n / base, base);
        proof {
            lemma_digits_short(n as nat / base as nat, base as nat);
        }
        k + 1
    } else {
        1
    }
}

proof fn lemma_digits_short(n: nat, base: nat)
    requires
        base == 10 || base == 16,
    ensures
        digits(n, base).len() <= n + 1,
    decreases n,
{
    if n >= base {
        lemma_digits_short(n / base, base);
        assert(n / base + 1 <= n) by (nonlinear_arith)
            requires
                base >= 10,
                n >= base,
        ;
    }
}

/// Writes `value` as an axis label in `mode`.
pub fn format_offset(value: u64, mode: DisplayMode) -> (r: Vec<char>)
    ensures
        r@ == offset_text(value as nat, mode),
{
    let mut out: Vec<char> = Vec::new();
    match mode {
        DisplayMode::Decimal => {
            push_digits(value, 10, &mut out);
            proof {
                assert(out@ =~= digits(value as nat, 10));
            }
        },
        DisplayMode::Hexadecimal => {
            out.push('0');
            out.push('x');
            let len = digit_count(value, 16);
            let mut i: u64 = len;
            while i < 8
                invariant
                    len <= i <= 8 || (len > 8 && i == len),
                    out@ == seq!['0', 'x'] + zeros((i - len) as nat),
                decreases 8 - i,
            {
                out.push('0');
                i = i + 1;
                proof {
                    assert(out@ =~= seq!['0', 'x'] + zeros((i - len) as nat));
                }
            }
            push_digits(value, 16, &mut out);
            proof {
                assert(out@ =~= offset_text(value as nat, mode));
            }
        },
    }
    out
}

impl App {
    /// The offsets of the three x-axis labels: the window's start, middle
    /// and end.
    pub fn label_offsets(&self) -> (r: (u64, u64, u64))
        requires
            self.wf(),
        ensures
            r.0 == self.window_start,
            r.1 == self.window_start + self.window_width / 2,
            r.2 == self.window_start + self.window_width,
    {
        (
            self.window_start,
            self.window_start + self.window_width / 2,
            self.window_start + self.window_width,
        )
    }

    /// The three x-axis labels, written in the current display mode.
    pub fn x_labels(&self) -> (r: Vec<Vec<char>>)
        requires
            self.wf(),
        ensures
            r@.len() == 3,
            r@[0]@ == offset_text(self.window_start as nat, self.display_mode),
            r@[1]@ == offset_text(
                (self.window_start + self.window_width / 2) as nat,
                self.display_mode,
            ),
            r@[2]@ == offset_text((self.window_start + self.window_width) as nat, self.display_mode),
    {
        let (a, b, c) = self.label_offsets();
        let mut r: Vec<Vec<char>> = Vec::new();
        r.push(format_offset(a, self.display_mode));
        r.push(format_offset(b, self.display_mode));
        r.push(format_offset(c, self.display_mode));
        r
    }
}

} // verus!
