//! Display text: whole numbers in decimal, durations as "MM:SS", and the
//! "done N days ago" line for a recorded completion. Timestamps are Unix
//! seconds; calendar days are counted in a fixed UTC offset.

use vstd::prelude::*;
use vstd::arithmetic::div_mod::lemma_div_nonincreasing;
use vstd::arithmetic::div_mod::lemma_fundamental_div_mod;
use vstd::arithmetic::div_mod::lemma_fundamental_div_mod_converse;
use vstd::string::StringExecFns;

verus! {

/// The decimal digit character for `d` (0 through 9).
pub open spec fn digit_char(d: int) -> char {
    if d == 0 {
        '0'
    } else if d == 1 {
        '1'
    } else if d == 2 {
        '2'
    } else if d == 3 {
        '3'
    } else if d == 4 {
        '4'
    } else if d == 5 {
        '5'
    } else if d == 6 {
        '6'
    } else if d == 7 {
        '7'
    } else if d == 8 {
        '8'
    } else {
        '9'
    }
}

/// The decimal representation of `n >= 0`, most significant digit first,
/// without leading zeros (a single zero for 0).
pub open spec fn dec_digits(n: int) -> Seq<char>
    decreases n,
{
    if n < 10 {
        seq![digit_char(n)]
    } else {
        dec_digits(n / 10).push(digit_char(n % 10))
    }
}

/// The one-character text of a decimal digit.
fn digit_str(d: u64) -> (r: &'static str)
    requires
        d < 10,
    ensures
        r@ == seq![digit_char(d as int)],
{
    proof {
        reveal_strlit("0");
        reveal_strlit("1");
        reveal_strlit("2");
        reveal_strlit("3");
        reveal_strlit("4");
        reveal_strlit("5");
        reveal_strlit("6");
        reveal_strlit("7");
        reveal_strlit("8");
        reveal_strlit("9");
    }
    let r: &'static str = if d == 0 {
        "0"
    } else if d == 1 {
        "1"
    } else if d == 2 {
        "2"
    } else if d == 3 {
        "3"
    } else if d == 4 {
        "4"
    } else if d == 5 {
        "5"
    } else if d == 6 {
        "6"
    } else if d == 7 {
        "7"
    } else if d == 8 {
        "8"
    } else {
        "9"
    };
    proof {
        assert(r@ =~= seq![digit_char(d as int)]);
    }
    r
}

/// `n` in decimal.
pub fn u64_to_dec(n: u64) -> (r: String)
    ensures
        r@ == dec_digits(n as int),
{
    let mut m = n;
    let mut r = String::new();
    proof {
        assert(dec_digits(n as int) =~= dec_digits(m as int) + r@);
    }
    loop
        invariant_except_break
            dec_digits(n as int) == dec_digits(m as int) + r@,
        ensures
            r@ == dec_digits(n as int),
        decreases m,
    {
        let d = m % 10;
        let ds = digit_str(d);
        proof {
            if m >= 10 {
                assert(dec_digits(m as int) =~= dec_digits(m as int / 10) + seq![digit_char(
                    m as int % 10,
                )]);
            }
        }
        let ghost r_old = r@;
        r = ds.to_owned().concat(r.as_str());
        proof {
            if m < 10 {
                assert(dec_digits(m as int) + r_old =~= seq![digit_char(m as int)] + r_old);
                assert(r@ =~= dec_digits(n as int));
            } else {
                assert(dec_digits(m as int / 10) + r@ =~= dec_digits(m as int) + r_old);
            }
        }
        m = m / 10;
        if m == 0 {
            break;
        }
    }
    r
}

/// Zero-padded to at least two digits.
pub open spec fn padded2(n: int) -> Seq<char> {
    if n < 10 {
        seq!['0'] + dec_digits(n)
    } else {
        dec_digits(n)
    }
}

/// A duration of `total_secs` whole seconds as minutes and seconds,
/// each zero-padded to two digits.
pub open spec fn spec_mmss(total_secs: int) -> Seq<char> {
    padded2(total_secs / 60) + seq![':'] + padded2(total_secs % 60)
}

/// Formats a duration of whole seconds as "MM:SS".
pub fn format_duration(total_secs: u64) -> (r: String)
    ensures
        r@ == spec_mmss(total_secs as int),
{
    let minutes = total_secs / 60;
    let seconds = total_secs % 60;
    let mut r = String::new();
    if minutes < 10 {
        r.append("0");
    }
    let md = u64_to_dec(minutes);
    r.append(md.as_str());
    r.append(":");
    if seconds < 10 {
        r.append("0");
    }
    let sd = u64_to_dec(seconds);
    r.append(sd.as_str());
    proof {
        reveal_strlit("0");
        reveal_strlit(":");
        assert(r@ =~= spec_mmss(total_secs as int));
    }
    r
}

/// Days elapsed by calendar date, in a fixed UTC offset, from a
/// completion timestamp to the current time (both Unix seconds):
/// the difference of the two day numbers.
pub open spec fn spec_days_between(completion_ts: int, now_ts: int, offset_secs: int) -> int {
    (now_ts + offset_secs) / 86400 - (completion_ts + offset_secs) / 86400
}

/// The day number (days since the Unix epoch, rounding down) of a
/// local-time value of `x` seconds.
fn day_number(x: i128) -> (q: i64)
    requires
        -0x1_0000_0000_0000_0000i128 <= x <= 0x1_0000_0000_0000_0000i128,
    ensures
        q == x as int / 86400,
        -0x8_0000_0000_0000i64 <= q <= 0x8_0000_0000_0000i64,
{
    if x >= 0 {
        let q = (x as u128) / 86400;
        proof {
            lemma_fundamental_div_mod(x as int, 86400);
            assert(86400 * (x as int / 86400) <= x as int);
            assert(x as int / 86400 >= 0) by {
                lemma_div_nonincreasing(x as int, 86400);
                lemma_fundamental_div_mod(x as int, 86400);
                if x as int / 86400 < 0 {
                    assert(86400 * (x as int / 86400) <= -86400) by (nonlinear_arith)
                        requires
                            x as int / 86400 <= -1,
                    ;
                }
            }
            assert(q <= 0x8_0000_0000_0000) by (nonlinear_arith)
                requires
                    86400 * (q as int) <= 0x1_0000_0000_0000_0000int,
                    q >= 0,
            ;
        }
        q as i64
    } else {
        let m = (-x) as u128;
        let q = (m + 86399) / 86400;
        proof {
            lemma_fundamental_div_mod(m as int + 86399, 86400);
            let qi = (m as int + 86399) / 86400;
            let ri = (m as int + 86399) % 86400;
            assert(x as int == 86400 * (-qi) + (86399 - ri));
            lemma_fundamental_div_mod_converse(x as int, 86400, -qi, 86399 - ri);
            assert(qi >= 0) by {
                if qi < 0 {
                    assert(86400 * qi <= -86400) by (nonlinear_arith)
                        requires
                            qi <= -1,
                    ;
                }
            }
            assert(qi <= 0x8_0000_0000_0000) by (nonlinear_arith)
                requires
                    86400 * qi <= 0x1_0000_0000_0000_0000int + 86399,
                    qi >= 0,
            ;
        }
        let qd = q as i64;
        -qd
    }
}

/// Days elapsed by calendar date between a completion and now, in the
/// given UTC offset. Negative for a completion dated in the future.
pub fn days_between(completion_ts: i64, now_ts: i64, offset_secs: i32) -> (days: i64)
    ensures
        days == spec_days_between(completion_ts as int, now_ts as int, offset_secs as int),
{
    let a = now_ts as i128 + offset_secs as i128;
    let b = completion_ts as i128 + offset_secs as i128;
    let qa = day_number(a);
    let qb = day_number(b);
    qa - qb
}

/// The text shown for a last completion: empty when none is recorded or
/// the completion is dated in the future; otherwise how long ago it was,
/// by calendar date.
pub open spec fn spec_last_completion_text(
    completion: Option<int>,
    now_ts: int,
    offset_secs: int,
) -> Seq<char> {
    match completion {
        None => Seq::empty(),
        Some(ts) => {
            let days = spec_days_between(ts, now_ts, offset_secs);
            if days == 0 {
                "done today"@
            } else if days == 1 {
                "done yesterday"@
            } else if days > 1 {
                "done "@ + dec_digits(days) + " days ago"@
            } else {
                Seq::empty()
            }
        },
    }
}

/// The line a routine card shows for its last completion, given the
/// current time and the local UTC offset in effect.
pub fn format_last_completion(last_completion: Option<i64>, now_ts: i64, offset_secs: i32) -> (r:
    String)
    ensures
        r@ == spec_last_completion_text(
            match last_completion {
                None => None,
                Some(ts) => Some(ts as int),
            },
            now_ts as int,
            offset_secs as int,
        ),
{
    match last_completion {
        None => String::new(),
        Some(ts) => {
            let days = days_between(ts, now_ts, offset_secs);
            if days == 0 {
                "done today".to_owned()
            } else if days == 1 {
                "done yesterday".to_owned()
            } else if days > 1 {
                let digits = u64_to_dec(days as u64);
                let mut r = "done ".to_owned();
                r.append(digits.as_str());
                r.append(" days ago");
                r
            } else {
                String::new()
            }
        },
    }
}

} // verus!
