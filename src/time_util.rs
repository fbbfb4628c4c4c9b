//! Clock access and timestamp formatting.

use vstd::prelude::*;
use vstd::string::*;

verus! {

pub const SECONDS_PER_DAY: u64 = 86400;

/// Relies on `std::time::SystemTime::now` and `duration_since(UNIX_EPOCH)`:
/// whole seconds since the Unix epoch, `None` for a clock set before it.
/// Nothing is promised of the value: it is the time of the call.
#[verifier::external_body]
fn system_secs() -> (r: Option<u64>) {
    std::time::SystemTime::now().duration_since(std::time::UNIX_EPOCH).ok().map(|d| d.as_secs())
}

/// Seconds since the Unix epoch now; 0 for a clock set before the epoch.
pub fn now() -> u64 {
    match system_secs() {
        Some(s) => s,
        None => 0,
    }
}

/// `now` plus `days` whole days, saturating at `u64::MAX`.
pub open spec fn after_days_spec(now: u64, days: u64) -> u64 {
    if now + days * SECONDS_PER_DAY <= u64::MAX {
        (now + days * SECONDS_PER_DAY) as u64
    } else {
        u64::MAX
    }
}

pub fn ts_after_days(now: u64, days: u64) -> (r: u64)
    ensures
        r == after_days_spec(now, days),
{
    match days.checked_mul(SECONDS_PER_DAY) {
        Some(span) => now.saturating_add(span),
        None => {
            assert(days * SECONDS_PER_DAY > u64::MAX);
            u64::MAX
        },
    }
}

/// The time, in seconds since the epoch, `days` days from now.
pub fn get_ts_from_now_in_secs(days: u64) -> (r: u64)
    ensures
        exists|now: u64| r == after_days_spec(now, days),
{
    ts_after_days(now(), days)
}

pub open spec fn digit_char(d: int) -> char {
    if d == 0 {
        '0'
    } else if d == 1 {
        '1'
    } else if d == 2 {
        '2'
    } else if d == 3 {
        '3'
    } else if d == 4 {
        '4'
    } else if d == 5 {
        '5'
    } else if d == 6 {
        '6'
    } else if d == 7 {
        '7'
    } else if d == 8 {
        '8'
    } else {
        '9'
    }
}

/// The last `width` decimal digits of `n`, zero-padded.
pub open spec fn padded(n: int, width: nat) -> Seq<char>
    decreases width,
{
    if width == 0 {
        seq![]
    } else {
        padded(n / 10, (width - 1) as nat).push(digit_char(n % 10))
    }
}

/// `HH:MM:SS.mmm` of a millisecond timestamp, the hours taken modulo 24.
pub open spec fn format_ts_spec(ms: u64) -> Seq<char> {
    let secs = ms / 1000;
    padded(((secs / 3600) % 24) as int, 2) + ":"@ + padded(((secs / 60) % 60) as int, 2) + ":"@ + padded(
        (secs % 60) as int,
        2,
    ) + "."@ + padded((ms % 1000) as int, 3)
}

fn digit_str(d: u64) -> (r: &'static str)
    requires
        d < 10,
    ensures
        r@ == seq![digit_char(d as int)],
{
    proof {
        reveal_strlit("0");
        reveal_strlit("1");
        reveal_strlit("2");
        reveal_strlit("3");
        reveal_strlit("4");
        reveal_strlit("5");
        reveal_strlit("6");
        reveal_strlit("7");
        reveal_strlit("8");
        reveal_strlit("9");
    }
    let r = if d == 0 {
        "0"
    } else if d == 1 {
        "1"
    } else if d == 2 {
        "2"
    } else if d == 3 {
        "3"
    } else if d == 4 {
        "4"
    } else if d == 5 {
        "5"
    } else if d == 6 {
        "6"
    } else if d == 7 {
        "7"
    } else if d == 8 {
        "8"
    } else {
        "9"
    };
    assert(r@ =~= seq![digit_char(d as int)]);
    r
}

fn append_padded(s: &mut String, n: u64, width: u64)
    requires
        width <= 3,
    ensures
        final(s)@ == old(s)@ + padded(n as int, width as nat),
    decreases width,
{
    if width == 0 {
        assert(old(s)@ + padded(n as int, 0) =~= old(s)@);
        return;
    }
    append_padded(s, n / 10, width - 1);
    s.append(digit_str(n % 10));
    assert(old(s)@ + padded(n as int, width as nat) =~= old(s)@ + padded((n / 10) as int, (width - 1) as nat)
        + seq![digit_char((n % 10) as int)]);
}

pub fn format_ts_ms(timestamp_ms: u64) -> (r: String)
    ensures
        r@ == format_ts_spec(timestamp_ms),
{
    let secs = timestamp_ms / 1000;
    let mut s = String::new();
    append_padded(&mut s, (secs / 3600) % 24, 2);
    s.append(":");
    append_padded(&mut s, (secs / 60) % 60, 2);
    s.append(":");
    append_padded(&mut s, secs % 60, 2);
    s.append(".");
    append_padded(&mut s, timestamp_ms % 1000, 3);
    assert(s@ =~= format_ts_spec(timestamp_ms));
    s
}

} // verus!
