//! Wall-clock stamps, elapsed spans, and their decimal rendering.
//!
//! Detections carry the publisher's wall-clock time as seconds plus a
//! nanosecond fraction.  Sector and lap durations are differences of two
//! such stamps; a clock that ran backwards yields no duration rather
//! than a bogus one.

use vstd::prelude::*;
use vstd::string::*;

verus! {

/// A wall-clock instant: seconds and a nanosecond fraction since the
/// Unix epoch, exactly as a detection message carries it.  The fraction
/// is not required to be below one second; comparisons work on the
/// total nanosecond count.
#[derive(Clone, Copy, Debug, PartialEq, Eq, Structural)]
pub struct TimeStamp {
    pub secs: u64,
    pub nanos: u32,
}

/// An elapsed span: whole seconds and a nanosecond fraction below one
/// second.
#[derive(Clone, Copy, Debug, PartialEq, Eq, Structural)]
pub struct TimeSpan {
    pub secs: u64,
    pub nanos: u32,
}

impl TimeStamp {
    /// The instant as a total count of nanoseconds since the epoch.
    pub open spec fn spec_total_nanos(self) -> int {
        self.secs * 1_000_000_000 + self.nanos
    }

    pub fn new(secs: u64, nanos: u32) -> (r: TimeStamp)
        ensures
            r == (TimeStamp { secs, nanos }),
    {
        TimeStamp { secs, nanos }
    }

    /// The span from `earlier` up to this instant, or `None` when this
    /// instant lies before `earlier` (the clock ran backwards) or the
    /// difference does not fit a span.
    pub fn duration_since(&self, earlier: &TimeStamp) -> (r: Option<TimeSpan>)
        ensures
            r == spec_duration_since(*self, *earlier),
    {
        let lt: u128 = self.secs as u128 * 1_000_000_000 + self.nanos as u128;
        let et: u128 = earlier.secs as u128 * 1_000_000_000 + earlier.nanos as u128;
        if lt < et {
            None
        } else {
            let d: u128 = lt - et;
            let s: u128 = d / 1_000_000_000;
            if s > u64::MAX as u128 {
                None
            } else {
                Some(TimeSpan { secs: s as u64, nanos: (d % 1_000_000_000) as u32 })
            }
        }
    }
}

/// The span from `earlier` up to `later`: `None` when `later` lies
/// before `earlier` or the difference in whole seconds overflows.
pub open spec fn spec_duration_since(later: TimeStamp, earlier: TimeStamp) -> Option<TimeSpan> {
    let d = later.spec_total_nanos() - earlier.spec_total_nanos();
    if d < 0 {
        None
    } else if d / 1_000_000_000 > u64::MAX {
        None
    } else {
        Some(TimeSpan { secs: (d / 1_000_000_000) as u64, nanos: (d % 1_000_000_000) as u32 })
    }
}

impl TimeSpan {
    /// The span in whole milliseconds.
    pub open spec fn spec_millis(self) -> int {
        self.secs * 1000 + self.nanos / 1_000_000
    }

    pub fn from_secs(secs: u64) -> (r: TimeSpan)
        ensures
            r == (TimeSpan { secs, nanos: 0u32 }),
    {
        TimeSpan { secs, nanos: 0 }
    }

    pub fn from_millis(ms: u64) -> (r: TimeSpan)
        ensures
            r.secs == ms / 1000,
            r.nanos == (ms % 1000) * 1_000_000,
    {
        TimeSpan { secs: ms / 1000, nanos: (ms % 1000) as u32 * 1_000_000 }
    }

    pub fn as_secs(&self) -> (r: u64)
        ensures
            r == self.secs,
    {
        self.secs
    }

    /// The millisecond part of the sub-second fraction.
    pub fn subsec_millis(&self) -> (r: u32)
        ensures
            r == self.nanos / 1_000_000,
    {
        self.nanos / 1_000_000
    }

    pub fn as_millis(&self) -> (r: u128)
        ensures
            r == self.spec_millis(),
    {
        self.secs as u128 * 1000 + (self.nanos / 1_000_000) as u128
    }
}

/// The decimal digit character for `d`.
pub open spec fn spec_digit(d: int) -> char {
    if d == 0 {
        '0'
    } else if d == 1 {
        '1'
    } else if d == 2 {
        '2'
    } else if d == 3 {
        '3'
    } else if d == 4 {
        '4'
    } else if d == 5 {
        '5'
    } else if d == 6 {
        '6'
    } else if d == 7 {
        '7'
    } else if d == 8 {
        '8'
    } else {
        '9'
    }
}

/// The decimal rendering of `n`, without padding or sign.
pub open spec fn spec_dec(n: nat) -> Seq<char>
    decreases n,
{
    if n < 10 {
        seq![spec_digit(n as int)]
    } else {
        spec_dec(n / 10) + seq![spec_digit((n % 10) as int)]
    }
}

/// Appends the digit character for `d` to `s`.
fn append_digit(s: &mut String, d: u64)
    requires
        d < 10,
    ensures
        final(s)@ == old(s)@ + seq![spec_digit(d as int)],
{
    let lit: &str = if d == 0 {
        "0"
    } else if d == 1 {
        "1"
    } else if d == 2 {
        "2"
    } else if d == 3 {
        "3"
    } else if d == 4 {
        "4"
    } else if d == 5 {
        "5"
    } else if d == 6 {
        "6"
    } else if d == 7 {
        "7"
    } else if d == 8 {
        "8"
    } else {
        "9"
    };
    proof {
        reveal_strlit("0");
        reveal_strlit("1");
        reveal_strlit("2");
        reveal_strlit("3");
        reveal_strlit("4");
        reveal_strlit("5");
        reveal_strlit("6");
        reveal_strlit("7");
        reveal_strlit("8");
        reveal_strlit("9");
        assert(lit@ =~= seq![spec_digit(d as int)]);
    }
    s.append(lit);
}

/// Appends the decimal rendering of `n` to `s`.
pub fn push_dec(s: &mut String, n: u64)
    ensures
        final(s)@ == old(s)@ + spec_dec(n as nat),
    decreases n,
{
    if n < 10 {
        append_digit(s, n);
    } else {
        push_dec(s, n / 10);
        append_digit(s, n % 10);
        proof {
            assert(final(s)@ =~= old(s)@ + spec_dec(n as nat));
        }
    }
}

/// The decimal rendering of `n` as an owned string.
pub fn u64_to_string(n: u64) -> (s: String)
    ensures
        s@ == spec_dec(n as nat),
{
    let mut s = String::new();
    push_dec(&mut s, n);
    proof {
        assert(s@ =~= spec_dec(n as nat));
    }
    s
}

/// Two-digit rendering of a number below sixty.
pub open spec fn spec_pad2(n: nat) -> Seq<char> {
    if n < 10 {
        seq!['0'] + spec_dec(n)
    } else {
        spec_dec(n)
    }
}

/// Rendering of a span as `m:ss.mmm`: minutes, zero-padded seconds
/// below a minute, and the millisecond fraction.
pub open spec fn spec_format_time(t: TimeSpan) -> Seq<char> {
    spec_dec((t.secs / 60) as nat) + seq![':'] + spec_pad2((t.secs % 60) as nat) + seq!['.']
        + spec_dec((t.nanos / 1_000_000) as nat)
}

/// Formats the passed span as `m:ss.mmm`.
pub fn format_time(t: &TimeSpan) -> (r: String)
    ensures
        r@ == spec_format_time(*t),
{
    let mut s = String::new();
    push_dec(&mut s, t.secs / 60);
    append_colon(&mut s);
    let sec: u64 = t.secs % 60;
    if sec < 10 {
        proof {
            reveal_strlit("0");
            assert("0"@ =~= seq!['0']);
        }
        s.append("0");
    }
    push_dec(&mut s, sec);
    proof {
        reveal_strlit(".");
        assert("."@ =~= seq!['.']);
    }
    s.append(".");
    push_dec(&mut s, (t.nanos / 1_000_000) as u64);
    proof {
        assert(s@ =~= spec_format_time(*t));
    }
    s
}

/// Appends a `:` separator to `s`.
pub fn append_colon(s: &mut String)
    ensures
        final(s)@ == old(s)@ + seq![':'],
{
    proof {
        reveal_strlit(":");
        assert(":"@ =~= seq![':']);
    }
    s.append(":");
}

} // verus!
