//! Wall-clock stamps: the UTC time a run is created, locked and named at.
use crate::hash::{hex_encode, hex_spec};
use crate::text::{digit, digit_char, push_str, string_from_chars};
use vstd::prelude::*;

verus! {

/// A UTC date and time to the second, in the proleptic Gregorian calendar.
#[derive(Debug, Clone, Copy, PartialEq, Eq, Structural)]
pub struct UtcTime {
    pub year: i32,
    pub month: u8,
    pub day: u8,
    pub hour: u8,
    pub minute: u8,
    pub second: u8,
}

impl UtcTime {
    /// The ranges a calendar date and a time of day keep.
    pub open spec fn wf(self) -> bool {
        &&& -9999 <= self.year <= 9999
        &&& 1 <= self.month <= 12
        &&& 1 <= self.day <= 31
        &&& self.hour < 24
        &&& self.minute < 60
        &&& self.second < 60
    }
}

/// `time::OffsetDateTime::now_utc`, read field by field. The time is what
/// the clock says, so nothing is stated of it but the ranges that the crate's
/// types keep (its years run from -9999 to 9999 without its `large-dates`
/// feature, which this crate does not enable).
#[verifier::external_body]
fn now_utc() -> (t: UtcTime)
    ensures
        t.wf(),
{
    let now = time::OffsetDateTime::now_utc();
    UtcTime {
        year: now.year(),
        month: u8::from(now.month()),
        day: now.day(),
        hour: now.hour(),
        minute: now.minute(),
        second: now.second(),
    }
}

/// Two decimal digits of `n < 100`, zero-padded.
pub open spec fn two_digits(n: nat) -> Seq<char> {
    seq![digit_char(n / 10), digit_char(n % 10)]
}

/// Four decimal digits of `n < 10000`, zero-padded.
pub open spec fn four_digits(n: nat) -> Seq<char> {
    two_digits(n / 100) + two_digits(n % 100)
}

/// A year as `[year]` writes it: a minus sign for years before 1, then four
/// zero-padded digits of its magnitude.
pub open spec fn year_spec(y: int) -> Seq<char> {
    if y < 0 {
        seq!['-'] + four_digits((-y) as nat)
    } else {
        four_digits(y as nat)
    }
}

/// `YYYY-MM-DDTHH:MM:SSZ`.
pub open spec fn iso_spec(t: UtcTime) -> Seq<char> {
    year_spec(t.year as int) + "-"@ + two_digits(t.month as nat) + "-"@ + two_digits(t.day as nat) + "T"@
        + two_digits(t.hour as nat) + ":"@ + two_digits(t.minute as nat) + ":"@ + two_digits(
        t.second as nat,
    ) + "Z"@
}

/// `YYYYMMDD`.
pub open spec fn compact_date_spec(t: UtcTime) -> Seq<char> {
    year_spec(t.year as int) + two_digits(t.month as nat) + two_digits(t.day as nat)
}

/// `HHMMSS`.
pub open spec fn compact_time_spec(t: UtcTime) -> Seq<char> {
    two_digits(t.hour as nat) + two_digits(t.minute as nat) + two_digits(t.second as nat)
}

/// A run id: `lbx_`, the compact date, `_`, the compact time, `_`, and the
/// random bytes in lowercase hex.
pub open spec fn run_id_spec(t: UtcTime, random: Seq<u8>) -> Seq<char> {
    "lbx_"@ + compact_date_spec(t) + "_"@ + compact_time_spec(t) + "_"@ + hex_spec(random)
}

fn push_two(v: &mut Vec<char>, n: u8)
    requires
        n < 100,
    ensures
        final(v)@ == old(v)@ + two_digits(n as nat),
{
    v.push(digit((n / 10) as u128));
    v.push(digit((n % 10) as u128));
}

fn push_year(v: &mut Vec<char>, y: i32)
    requires
        -9999 <= y <= 9999,
    ensures
        final(v)@ == old(v)@ + year_spec(y as int),
{
    let ghost start = v@;
    let m: u32 = if y < 0 {
        v.push('-');
        (-y) as u32
    } else {
        y as u32
    };
    let ghost mid = v@;
    let hi = (m / 100) as u8;
    let lo = (m % 100) as u8;
    push_two(v, hi);
    push_two(v, lo);
    proof {
        assert(v@ =~= mid + four_digits(m as nat));
        if y < 0 {
            assert(mid =~= start + seq!['-']);
            assert(v@ =~= start + (seq!['-'] + four_digits(m as nat)));
        } else {
            assert(mid =~= start);
        }
    }
}

/// The timestamp `YYYY-MM-DDTHH:MM:SSZ` of `t`.
pub fn iso_format(t: &UtcTime) -> (s: String)
    requires
        t.wf(),
    ensures
        s@ == iso_spec(*t),
{
    let mut v: Vec<char> = Vec::new();
    push_year(&mut v, t.year);
    push_str(&mut v, "-");
    push_two(&mut v, t.month);
    push_str(&mut v, "-");
    push_two(&mut v, t.day);
    push_str(&mut v, "T");
    push_two(&mut v, t.hour);
    push_str(&mut v, ":");
    push_two(&mut v, t.minute);
    push_str(&mut v, ":");
    push_two(&mut v, t.second);
    push_str(&mut v, "Z");
    proof {
        assert(v@ =~= iso_spec(*t));
    }
    string_from_chars(&v)
}

/// The current UTC time as `YYYY-MM-DDTHH:MM:SSZ`.
pub fn now_iso() -> (s: String)
    ensures
        exists|t: UtcTime| t.wf() && s@ == iso_spec(t),
{
    let t = now_utc();
    iso_format(&t)
}

/// The run id for time `t` and two random bytes.
pub fn run_id_at(t: &UtcTime, random: [u8; 2]) -> (id: String)
    requires
        t.wf(),
    ensures
        id@ == run_id_spec(*t, random@),
{
    let mut v: Vec<char> = Vec::new();
    push_str(&mut v, "lbx_");
    push_year(&mut v, t.year);
    push_two(&mut v, t.month);
    push_two(&mut v, t.day);
    push_str(&mut v, "_");
    push_two(&mut v, t.hour);
    push_two(&mut v, t.minute);
    push_two(&mut v, t.second);
    push_str(&mut v, "_");
    let hex = hex_encode(random.as_slice());
    let mut w = crate::text::chars_of(hex.as_str());
    let ghost before = v@;
    v.append(&mut w);
    proof {
        assert(v@ =~= run_id_spec(*t, random@));
    }
    string_from_chars(&v)
}

/// A fresh run id: the current UTC time and two random bytes.
pub fn new_run_id(random: [u8; 2]) -> (id: String)
    ensures
        exists|t: UtcTime| t.wf() && id@ == run_id_spec(t, random@),
{
    let t = now_utc();
    run_id_at(&t, random)
}

} // verus!
