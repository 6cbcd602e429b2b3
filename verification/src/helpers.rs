//! Small display helpers: window titles, duration formatting and text
//! truncation, together with a verified decimal printer.

use vstd::prelude::*;
use vstd::string::StrSliceExecFns;
use vstd::string::StringExecFns;
use crate::text::push_char;

verus! {

/// The decimal digit character for `d` (`d < 10`).
pub open spec fn digit_char(d: nat) -> char {
    if d == 0 {
        '0'
    } else if d == 1 {
        '1'
    } else if d == 2 {
        '2'
    } else if d == 3 {
        '3'
    } else if d == 4 {
        '4'
    } else if d == 5 {
        '5'
    } else if d == 6 {
        '6'
    } else if d == 7 {
        '7'
    } else if d == 8 {
        '8'
    } else {
        '9'
    }
}

/// The decimal digits of `n`, most significant first, without leading zeros
/// (except for `n == 0`, which is the single digit `0`).
pub open spec fn dec_str(n: nat) -> Seq<char>
    decreases n,
{
    if n < 10 {
        seq![digit_char(n)]
    } else {
        dec_str(n / 10).push(digit_char(n % 10))
    }
}

fn digit_char_of(d: u64) -> (c: char)
    requires
        d < 10,
    ensures
        c == digit_char(d as nat),
{
    if d == 0 {
        '0'
    } else if d == 1 {
        '1'
    } else if d == 2 {
        '2'
    } else if d == 3 {
        '3'
    } else if d == 4 {
        '4'
    } else if d == 5 {
        '5'
    } else if d == 6 {
        '6'
    } else if d == 7 {
        '7'
    } else if d == 8 {
        '8'
    } else {
        '9'
    }
}

/// Renders `n` in decimal.
pub fn u64_string(n: u64) -> (s: String)
    ensures
        s@ == dec_str(n as nat),
    decreases n,
{
    if n < 10 {
        let mut s: String = String::new();
        push_char(&mut s, digit_char_of(n));
        assert(s@ =~= dec_str(n as nat));
        s
    } else {
        let mut s: String = u64_string(n / 10);
        push_char(&mut s, digit_char_of(n % 10));
        assert(s@ =~= dec_str(n as nat));
        s
    }
}

/// The application's window title for a page: `Falcon | <title>`.
pub fn page_title(title: &str) -> (r: String)
    ensures
        r@ == "Falcon | "@ + title@,
{
    String::from_str("Falcon | ").concat(title)
}

/// A quantity with one decimal digit: `<t/10>.<t%10>`.
pub open spec fn one_decimal(t: nat) -> Seq<char> {
    dec_str(t / 10) + seq!['.', digit_char(t % 10)]
}

/// An elapsed time of `micros` microseconds, formatted for display:
/// milliseconds with two decimals under a second, then seconds, minutes and
/// hours with one decimal. Fractions round half away from zero.
pub open spec fn spec_format_duration(micros: nat) -> Seq<char> {
    if micros < 1000000 {
        let h = (micros + 5) / 10;
        dec_str(h / 100) + seq!['.', digit_char((h % 100) / 10), digit_char(h % 10), 'm', 's']
    } else if micros < 60000000 {
        one_decimal((micros + 50000) / 100000) + seq!['s']
    } else if micros < 3600000000 {
        one_decimal((micros + 3000000) / 6000000) + seq!['m']
    } else {
        let t = micros / 360000000 + (if micros % 360000000 >= 180000000 {
            1nat
        } else {
            0nat
        });
        one_decimal(t) + seq!['h']
    }
}

fn one_decimal_of(t: u64) -> (s: String)
    ensures
        s@ == one_decimal(t as nat),
{
    let mut s: String = u64_string(t / 10);
    push_char(&mut s, '.');
    push_char(&mut s, digit_char_of(t % 10));
    assert(s@ =~= one_decimal(t as nat));
    s
}

/// Formats a duration of `micros` microseconds for display.
pub fn format_duration(micros: u64) -> (s: String)
    ensures
        s@ == spec_format_duration(micros as nat),
{
    if micros < 1000000 {
        let h: u64 = (micros + 5) / 10;
        let mut s: String = u64_string(h / 100);
        push_char(&mut s, '.');
        push_char(&mut s, digit_char_of((h % 100) / 10));
        push_char(&mut s, digit_char_of(h % 10));
        push_char(&mut s, 'm');
        push_char(&mut s, 's');
        assert(s@ =~= spec_format_duration(micros as nat));
        s
    } else if micros < 60000000 {
        let mut s: String = one_decimal_of((micros + 50000) / 100000);
        push_char(&mut s, 's');
        assert(s@ =~= spec_format_duration(micros as nat));
        s
    } else if micros < 3600000000 {
        let mut s: String = one_decimal_of((micros + 3000000) / 6000000);
        push_char(&mut s, 'm');
        assert(s@ =~= spec_format_duration(micros as nat));
        s
    } else {
        let round_up: u64 = if micros % 360000000 >= 180000000 {
            1
        } else {
            0
        };
        let mut s: String = one_decimal_of(micros / 360000000 + round_up);
        push_char(&mut s, 'h');
        assert(s@ =~= spec_format_duration(micros as nat));
        s
    }
}

/// Truncates `s` to at most `max_chars` characters, appending `...` when
/// anything was cut off.
pub fn ellipse_text(s: &str, max_chars: usize) -> (r: String)
    ensures
        s@.len() > max_chars ==> r@ == s@.take(max_chars as int) + "..."@,
        s@.len() <= max_chars ==> r@ == s@,
{
    let n: usize = s.unicode_len();
    if n > max_chars {
        let prefix: &str = s.substring_char(0, max_chars);
        assert(prefix@ =~= s@.take(max_chars as int));
        String::from_str(prefix).concat("...")
    } else {
        String::from_str(s)
    }
}

} // verus!
