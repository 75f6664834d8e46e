use vstd::prelude::*;

use crate::marker::{digit_run, digit_run_exec, is_digit, lemma_digit_run_bound, marker_len};

verus! {

/// An offset from the start of a track: whole minutes, and seconds counted in
/// hundredths.
#[derive(Clone, Copy, PartialEq, Eq, Structural, Debug)]
pub struct TimeStamp {
    pub minutes: u8,
    pub centis: u32,
}

/// The difference of two time stamps, taken part by part: minutes from minutes,
/// hundredths from hundredths, with no borrowing between them.
#[derive(Clone, Copy, PartialEq, Eq, Structural, Debug)]
pub struct TimeDelta {
    pub minutes: i16,
    pub centis: i64,
}

impl TimeStamp {
    /// `self` minus `b`, part by part.
    pub fn minus(&self, b: &TimeStamp) -> (r: TimeDelta)
        ensures
            r.minutes == self.minutes - b.minutes,
            r.centis == self.centis - b.centis,
    {
        TimeDelta {
            minutes: self.minutes as i16 - b.minutes as i16,
            centis: self.centis as i64 - b.centis as i64,
        }
    }
}

/// Why a marker or its line could not become a timed line.
#[derive(Clone, Copy, PartialEq, Eq, Structural, Debug)]
pub enum ParseError {
    /// The minutes do not fit in a byte.
    Minutes,
    /// The seconds, in hundredths, do not fit in 32 bits.
    Seconds,
    /// The line that the marker points to does not exist.
    MissingLine,
}

/// The value of an ASCII digit.
pub open spec fn digit_val(c: char) -> int {
    (c as u32) as int - ('0' as u32) as int
}

/// The value of a string of decimal digits.
pub open spec fn dec(d: Seq<char>) -> nat
    decreases d.len(),
{
    if d.len() == 0 {
        0
    } else {
        (dec(d.drop_last()) * 10 + digit_val(d.last())) as nat
    }
}

/// The `k`-th digit of a fraction, 0 past its end.
pub open spec fn frac_digit(f: Seq<char>, k: int) -> int {
    if k < f.len() {
        digit_val(f[k])
    } else {
        0
    }
}

/// The hundredths of a decimal fraction, rounded half up on the third digit.
pub open spec fn frac_centis(f: Seq<char>) -> int {
    frac_digit(f, 0) * 10 + frac_digit(f, 1) + if frac_digit(f, 2) >= 5 {
        1int
    } else {
        0int
    }
}

/// The minutes digits of a marker `[m:s.f]`.
pub open spec fn minute_text(m: Seq<char>) -> Seq<char> {
    m.subrange(1, 1 + digit_run(m, 1) as int)
}

/// The whole-second digits of a marker.
pub open spec fn second_text(m: Seq<char>) -> Seq<char> {
    let a = digit_run(m, 1) as int;
    m.subrange(2 + a, 2 + a + digit_run(m, 2 + a) as int)
}

/// The fraction digits of a marker.
pub open spec fn fraction_text(m: Seq<char>) -> Seq<char> {
    let a = digit_run(m, 1) as int;
    let b = digit_run(m, 2 + a) as int;
    m.subrange(3 + a + b, 3 + a + b + digit_run(m, 3 + a + b) as int)
}

/// The seconds of a marker, in hundredths.
pub open spec fn marker_centis(m: Seq<char>) -> int {
    dec(second_text(m)) * 100 + frac_centis(fraction_text(m))
}

/// The time stamp that a marker gives, or why it gives none.
pub open spec fn parse_stamp(m: Seq<char>) -> Result<TimeStamp, ParseError> {
    if dec(minute_text(m)) > u8::MAX {
        Err(ParseError::Minutes)
    } else if marker_centis(m) > u32::MAX {
        Err(ParseError::Seconds)
    } else {
        Ok(TimeStamp { minutes: dec(minute_text(m)) as u8, centis: marker_centis(m) as u32 })
    }
}

proof fn lemma_dec_prefix(d: Seq<char>, k: int)
    requires
        0 <= k <= d.len(),
        forall|j: int| 0 <= j < d.len() ==> is_digit(#[trigger] d[j]),
    ensures
        dec(d.take(k)) <= dec(d),
    decreases d.len(),
{
    if k < d.len() {
        assert(d.drop_last().take(k) =~= d.take(k));
        lemma_dec_prefix(d.drop_last(), k);
    } else {
        assert(d.take(k) =~= d);
    }
}

/// The value of the digits `s[from..to]`, when it is at most `limit`.
fn dec_bounded(s: &Vec<char>, from: usize, to: usize, limit: u64) -> (r: Option<u64>)
    requires
        from <= to <= s.len(),
        limit <= u32::MAX,
        forall|j: int| from <= j < to ==> is_digit(#[trigger] s@[j]),
    ensures
        dec(s@.subrange(from as int, to as int)) <= limit ==> r == Some(
            dec(s@.subrange(from as int, to as int)) as u64,
        ),
        dec(s@.subrange(from as int, to as int)) > limit ==> r is None,
{
    let ghost d = s@.subrange(from as int, to as int);
    let mut acc: u64 = 0;
    let mut k: usize = from;
    assert(d.take(0) =~= seq![]);
    while k < to
        invariant
            from <= k <= to <= s.len(),
            limit <= u32::MAX,
            d == s@.subrange(from as int, to as int),
            forall|j: int| from <= j < to ==> is_digit(#[trigger] s@[j]),
            acc == dec(d.take(k - from)),
            acc <= limit,
        decreases to - k,
    {
        assert(d.take(k - from + 1).drop_last() =~= d.take(k - from));
        assert(is_digit(s@[k as int]));
        let v = acc * 10 + (s[k] as u32 - '0' as u32) as u64;
        k += 1;
        if v > limit {
            proof {
                lemma_dec_prefix(d, k - from);
            }
            return None;
        }
        acc = v;
    }
    assert(d.take(k - from) =~= d);
    Some(acc)
}

/// The time stamp of a marker `[m:s.f]`.
pub fn parse_marker(m: &Vec<char>) -> (r: Result<TimeStamp, ParseError>)
    requires
        marker_len(m@, 0) == m@.len(),
        m@.len() > 0,
    ensures
        r == parse_stamp(m@),
{
    let ghost a = digit_run(m@, 1) as int;
    let ghost b = digit_run(m@, 2 + a) as int;
    proof {
        lemma_digit_run_bound(m@, 1);
        lemma_digit_run_bound(m@, 2 + a);
        lemma_digit_run_bound(m@, 3 + a + b);
    }
    let ea = 1 + digit_run_exec(m, 1);
    let eb = ea + 1 + digit_run_exec(m, ea + 1);
    let ec = eb + 1 + digit_run_exec(m, eb + 1);
    let minutes = match dec_bounded(m, 1, ea, u8::MAX as u64) {
        Some(v) => v,
        None => {
            return Err(ParseError::Minutes);
        },
    };
    let whole = match dec_bounded(m, ea + 1, eb, u32::MAX as u64) {
        Some(v) => v,
        None => {
            return Err(ParseError::Seconds);
        },
    };
    let f0 = frac_digit_exec(m, eb + 1, ec, 0);
    let f1 = frac_digit_exec(m, eb + 1, ec, 1);
    let f2 = frac_digit_exec(m, eb + 1, ec, 2);
    let centis: u64 = whole * 100 + f0 * 10 + f1 + if f2 >= 5 {
        1u64
    } else {
        0u64
    };
    if centis > u32::MAX as u64 {
        return Err(ParseError::Seconds);
    }
    Ok(TimeStamp { minutes: minutes as u8, centis: centis as u32 })
}

/// The `k`-th digit of the fraction `s[from..to]`, 0 past its end.
fn frac_digit_exec(s: &Vec<char>, from: usize, to: usize, k: usize) -> (r: u64)
    requires
        from <= to <= s.len(),
        k < 3,
        forall|j: int| from <= j < to ==> is_digit(#[trigger] s@[j]),
    ensures
        r == frac_digit(s@.subrange(from as int, to as int), k as int),
        r <= 9,
{
    if k < to - from {
        assert(is_digit(s@[from + k]));
        (s[from + k] as u32 - '0' as u32) as u64
    } else {
        0
    }
}

} // verus!
