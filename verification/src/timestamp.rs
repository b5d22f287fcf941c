//! Capture timestamps. Output artifacts are named by source identifier
//! plus a wall-clock reading formatted as `YYYY-MM-DD_HH-MM-SS`; the
//! formatting is verified, and only the clock reading itself is trusted.

use chrono::Datelike;
use chrono::Timelike;
use vstd::prelude::*;

verus! {

/// The decimal digit character for `d`.
pub open spec fn digit_char(d: int) -> char
    recommends
        0 <= d < 10,
{
    if d == 0 {
        '0'
    } else if d == 1 {
        '1'
    } else if d == 2 {
        '2'
    } else if d == 3 {
        '3'
    } else if d == 4 {
        '4'
    } else if d == 5 {
        '5'
    } else if d == 6 {
        '6'
    } else if d == 7 {
        '7'
    } else if d == 8 {
        '8'
    } else {
        '9'
    }
}

/// `v` in decimal, zero-padded to two places.
pub open spec fn two_digits(v: int) -> Seq<char>
    recommends
        0 <= v < 100,
{
    seq![digit_char(v / 10), digit_char(v % 10)]
}

/// `v` in decimal, zero-padded to four places.
pub open spec fn four_digits(v: int) -> Seq<char>
    recommends
        0 <= v < 10000,
{
    seq![
        digit_char(v / 1000),
        digit_char((v / 100) % 10),
        digit_char((v / 10) % 10),
        digit_char(v % 10),
    ]
}

/// A wall-clock reading as it appears in an output file name:
/// `YYYY-MM-DD_HH-MM-SS`.
pub open spec fn timestamp_display(y: int, mo: int, d: int, h: int, mi: int, s: int) -> Seq<char> {
    four_digits(y) + seq!['-'] + two_digits(mo) + seq!['-'] + two_digits(d) + seq!['_']
        + two_digits(h) + seq!['-'] + two_digits(mi) + seq!['-'] + two_digits(s)
}

/// Appends the digit character for `d`.
fn push_digit(out: &mut String, d: u32)
    requires
        d < 10,
    ensures
        final(out)@ == old(out)@ + seq![digit_char(d as int)],
{
    let t: &str = if d == 0 {
        "0"
    } else if d == 1 {
        "1"
    } else if d == 2 {
        "2"
    } else if d == 3 {
        "3"
    } else if d == 4 {
        "4"
    } else if d == 5 {
        "5"
    } else if d == 6 {
        "6"
    } else if d == 7 {
        "7"
    } else if d == 8 {
        "8"
    } else {
        "9"
    };
    proof {
        reveal_strlit("0");
        reveal_strlit("1");
        reveal_strlit("2");
        reveal_strlit("3");
        reveal_strlit("4");
        reveal_strlit("5");
        reveal_strlit("6");
        reveal_strlit("7");
        reveal_strlit("8");
        reveal_strlit("9");
        assert(t@ =~= seq![digit_char(d as int)]);
    }
    out.append(t);
}

/// Appends `v` in decimal, zero-padded to two places.
fn push_two(out: &mut String, v: u32)
    requires
        v < 100,
    ensures
        final(out)@ == old(out)@ + two_digits(v as int),
{
    push_digit(out, v / 10);
    push_digit(out, v % 10);
    proof {
        assert(final(out)@ =~= old(out)@ + two_digits(v as int));
    }
}

/// Appends `v` in decimal, zero-padded to four places.
fn push_four(out: &mut String, v: u32)
    requires
        v < 10000,
    ensures
        final(out)@ == old(out)@ + four_digits(v as int),
{
    push_digit(out, v / 1000);
    push_digit(out, (v / 100) % 10);
    push_digit(out, (v / 10) % 10);
    push_digit(out, v % 10);
    proof {
        assert(final(out)@ =~= old(out)@ + four_digits(v as int));
    }
}

/// Appends one separator character.
fn push_dash(out: &mut String)
    ensures
        final(out)@ == old(out)@ + seq!['-'],
{
    out.append("-");
    proof {
        reveal_strlit("-");
        assert(final(out)@ =~= old(out)@ + seq!['-']);
    }
}

/// Formats a wall-clock reading as `YYYY-MM-DD_HH-MM-SS`.
pub fn format_timestamp(y: u32, mo: u32, d: u32, h: u32, mi: u32, s: u32) -> (r: String)
    requires
        y < 10000,
        1 <= mo <= 12,
        1 <= d <= 31,
        h < 24,
        mi < 60,
        s < 60,
    ensures
        r@ == timestamp_display(y as int, mo as int, d as int, h as int, mi as int, s as int),
        r@.len() == 19,
{
    let mut out = String::new();
    push_four(&mut out, y);
    push_dash(&mut out);
    push_two(&mut out, mo);
    push_dash(&mut out);
    push_two(&mut out, d);
    out.append("_");
    proof {
        reveal_strlit("_");
    }
    push_two(&mut out, h);
    push_dash(&mut out);
    push_two(&mut out, mi);
    push_dash(&mut out);
    push_two(&mut out, s);
    proof {
        assert(out@ =~= timestamp_display(
            y as int,
            mo as int,
            d as int,
            h as int,
            mi as int,
            s as int,
        ));
    }
    out
}

/// Relies on chrono's `Local::now` and its `Datelike` / `Timelike`
/// accessors, whose documentation bounds them: month 1 to 12, day of
/// month 1 to 31, hour below 24, minute and second below 60. The year
/// is handed back as chrono gives it, unconstrained.
#[verifier::external_body]
fn now_parts() -> (r: (i32, u32, u32, u32, u32, u32))
    ensures
        1 <= r.1 <= 12,
        1 <= r.2 <= 31,
        r.3 < 24,
        r.4 < 60,
        r.5 < 60,
{
    let t = chrono::Local::now();
    (t.year(), t.month(), t.day(), t.hour(), t.minute(), t.second())
}

/// The timestamp that names a capture starting now: the local wall
/// clock as `YYYY-MM-DD_HH-MM-SS`. A year outside 0 to 9999 is clamped
/// to that range, keeping the name's shape fixed.
pub fn current_timestamp() -> (r: String)
    ensures
        exists|y: int, mo: int, d: int, h: int, mi: int, s: int|
            0 <= y < 10000 && 1 <= mo <= 12 && 1 <= d <= 31 && 0 <= h < 24 && 0 <= mi < 60 && 0
                <= s < 60 && r@ == timestamp_display(y, mo, d, h, mi, s),
        r@.len() == 19,
{
    let (y, mo, d, h, mi, s) = now_parts();
    let yc: u32 = if y < 0 {
        0
    } else if y > 9999 {
        9999
    } else {
        y as u32
    };
    let r = format_timestamp(yc, mo, d, h, mi, s);
    proof {
        assert({
            &&& 0 <= (yc as int) < 10000
            &&& 1 <= (mo as int) <= 12
            &&& 1 <= (d as int) <= 31
            &&& 0 <= (h as int) < 24
            &&& 0 <= (mi as int) < 60
            &&& 0 <= (s as int) < 60
            &&& r@ == timestamp_display(
                yc as int,
                mo as int,
                d as int,
                h as int,
                mi as int,
                s as int,
            )
        });
    }
    r
}

} // verus!
