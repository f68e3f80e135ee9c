//! Time stamps, refresh cadences and fresh identifiers.

use vstd::prelude::*;

use crate::text::{chars_of, is_white, is_whitespace};

verus! {

// ---- cadences ------------------------------------------------------------

/// The nanoseconds that a duration holds are fewer than these: the seconds count in 64 bits.
pub const DURATION_END: u128 = 18_446_744_073_709_551_616_000_000_000;

/// The nanoseconds of the unit whose name begins at position `i` of a cadence.
pub open spec fn unit_nanos(s: Seq<char>, i: int) -> nat {
    let c = s[i];
    let next = if i + 1 < s.len() {
        s[i + 1]
    } else {
        ' '
    };
    if c == 'n' {
        1
    } else if c == 'u' || c == 'µ' {
        1_000
    } else if c == 'm' && (next == 's' || (next == 'i' && i + 2 < s.len() && s[i + 2] == 'l')) {
        1_000_000
    } else if c == 's' {
        1_000_000_000
    } else if c == 'M' || (c == 'm' && next == 'o') {
        2_630_016_000_000_000
    } else if c == 'm' {
        60_000_000_000
    } else if c == 'h' {
        3_600_000_000_000
    } else if c == 'd' {
        86_400_000_000_000
    } else if c == 'w' {
        604_800_000_000_000
    } else {
        31_557_600_000_000_000
    }
}

/// The numeral that is being read of a cadence: its whole part, and its fraction as a
/// numerator over a power of ten once the decimal point was seen.
pub struct Numeral {
    pub whole: nat,
    pub pointed: bool,
    pub part: nat,
    pub scale: nat,
}

impl Numeral {
    /// The numeral before its first digit.
    pub open spec fn zero() -> Numeral {
        Numeral { whole: 0, pointed: false, part: 0, scale: 1 }
    }

    /// The numeral with one more digit.
    pub open spec fn with_digit(self, d: nat) -> Numeral {
        if self.pointed {
            Numeral { part: self.part * 10 + d, scale: self.scale * 10, ..self }
        } else {
            Numeral { whole: self.whole * 10 + d, ..self }
        }
    }

    /// Whether each part of the numeral counts in 64 bits.
    pub open spec fn counts(self) -> bool {
        self.whole <= u64::MAX && self.part <= u64::MAX && self.scale <= u64::MAX
    }

    /// So many of a unit.
    pub open spec fn of(self, unit: nat) -> nat {
        self.whole * unit + self.part * unit / self.scale
    }
}

/// Whether a cadence from position `i` on, where `numeral` is read and `total` nanoseconds
/// came before it, stays within what a duration holds. A span is a numeral and a unit; white
/// space does not end a numeral.
pub open spec fn spans_fit(s: Seq<char>, i: int, numeral: Numeral, total: nat) -> bool
    decreases s.len() - i,
{
    if total >= DURATION_END || !numeral.counts() {
        false
    } else if i < 0 || i >= s.len() {
        true
    } else if '0' <= s[i] <= '9' {
        spans_fit(s, i + 1, numeral.with_digit((s[i] as nat - '0' as nat) as nat), total)
    } else if is_white(s[i]) {
        spans_fit(s, i + 1, numeral, total)
    } else if s[i] == '.' {
        spans_fit(s, i + 1, Numeral { pointed: true, ..numeral }, total)
    } else {
        spans_fit(s, i + 1, Numeral::zero(), total + numeral.of(unit_nanos(s, i)))
    }
}

/// Whether the spans of a cadence add up to what a duration holds.
pub open spec fn cadence_in_range(s: Seq<char>) -> bool {
    spans_fit(s, 0, Numeral::zero(), 0)
}

fn unit_len(chars: &Vec<char>, i: usize) -> (r: u64)
    requires
        i < chars@.len(),
    ensures
        r == unit_nanos(chars@, i as int),
        1 <= r <= 31_557_600_000_000_000,
{
    let c = chars[i];
    let left: usize = chars.len() - i;
    let next = if left > 1 {
        chars[i + 1]
    } else {
        ' '
    };
    if c == 'n' {
        1
    } else if c == 'u' || c == 'µ' {
        1_000
    } else if c == 'm' && (next == 's' || (next == 'i' && left > 2 && chars[i + 2] == 'l')) {
        1_000_000
    } else if c == 's' {
        1_000_000_000
    } else if c == 'M' || (c == 'm' && next == 'o') {
        2_630_016_000_000_000
    } else if c == 'm' {
        60_000_000_000
    } else if c == 'h' {
        3_600_000_000_000
    } else if c == 'd' {
        86_400_000_000_000
    } else if c == 'w' {
        604_800_000_000_000
    } else {
        31_557_600_000_000_000
    }
}

fn span_of(whole: u64, part: u64, scale: u64, unit: u64) -> (r: u128)
    requires
        scale >= 1,
        unit <= 31_557_600_000_000_000,
    ensures
        r == whole * unit + part * unit / scale as int,
        r <= 2 * (u64::MAX * 31_557_600_000_000_000),
{
    assert(whole * unit <= u64::MAX * 31_557_600_000_000_000) by (nonlinear_arith)
        requires
            0 <= whole <= u64::MAX,
            0 <= unit <= 31_557_600_000_000_000,
    ;
    assert(0 <= part * unit <= u64::MAX * 31_557_600_000_000_000) by (nonlinear_arith)
        requires
            0 <= part <= u64::MAX,
            0 <= unit <= 31_557_600_000_000_000,
    ;
    let p: u128 = part as u128 * unit as u128;
    assert(0 <= p as int / scale as int <= p) by (nonlinear_arith)
        requires
            scale >= 1,
            p >= 0,
    ;
    whole as u128 * unit as u128 + p / scale as u128
}

fn is_in_range(text: &str) -> (r: bool)
    ensures
        r == cadence_in_range(text@),
{
    let chars = chars_of(text);
    let mut whole: u64 = 0;
    let mut pointed = false;
    let mut part: u64 = 0;
    let mut scale: u64 = 1;
    let mut total: u128 = 0;
    for i in 0..chars.len()
        invariant
            chars@ == text@,
            scale >= 1,
            total < DURATION_END,
            cadence_in_range(text@) == spans_fit(
                chars@,
                i as int,
                Numeral { whole: whole as nat, pointed, part: part as nat, scale: scale as nat },
                total as nat,
            ),
    {
        let ghost numeral = Numeral {
            whole: whole as nat,
            pointed,
            part: part as nat,
            scale: scale as nat,
        };
        let c = chars[i];
        if '0' <= c && c <= '9' {
            let d: u64 = (c as u64) - ('0' as u64);
            if pointed {
                if part > (u64::MAX - d) / 10 || scale > u64::MAX / 10 {
                    assert(!spans_fit(chars@, i + 1, numeral.with_digit(d as nat), total as nat));
                    return false;
                }
                part = part * 10 + d;
                scale = scale * 10;
            } else {
                if whole > (u64::MAX - d) / 10 {
                    assert(!spans_fit(chars@, i + 1, numeral.with_digit(d as nat), total as nat));
                    return false;
                }
                whole = whole * 10 + d;
            }
        } else if is_whitespace(c) {
        } else if c == '.' {
            pointed = true;
        } else {
            let unit = unit_len(&chars, i);
            let span = span_of(whole, part, scale, unit);
            assert(span == numeral.of(unit as nat));
            total = total + span;
            if total >= DURATION_END {
                assert(!spans_fit(chars@, i + 1, Numeral::zero(), total as nat));
                return false;
            }
            whole = 0;
            pointed = false;
            part = 0;
            scale = 1;
        }
    }
    true
}

/// The whole seconds of the duration that `humantime::parse_duration` reads from a text.
pub uninterp spec fn cadence_secs(text: Seq<char>) -> Option<u64>;

/// Calls `humantime::parse_duration` and keeps the whole seconds; a text that it rejects
/// gives `None`. `parse_duration` panics when the spans that it adds up come to exactly one
/// second more than 64 bits count, which a text in range does not come to.
#[verifier::external_body]
fn parse_cadence(text: &str) -> (r: Option<u64>)
    requires
        cadence_in_range(text@),
    ensures
        r == cadence_secs(text@),
{
    humantime::parse_duration(text).ok().map(|d| d.as_secs())
}

/// The seconds of a cadence. One that no duration holds is not readable.
pub open spec fn read_secs(text: Seq<char>) -> Option<u64> {
    if cadence_in_range(text) {
        cadence_secs(text)
    } else {
        None
    }
}

/// Reads the seconds of a cadence.
pub fn read_cadence(text: &str) -> (r: Option<u64>)
    ensures
        r == read_secs(text@),
{
    if is_in_range(text) {
        parse_cadence(text)
    } else {
        None
    }
}

// ---- instants ------------------------------------------------------------

/// A moment: the seconds since 1970 in UTC and the nanoseconds since the last second. As
/// many as two thousand million nanoseconds stand for a leap second, after a 59th second.
#[derive(Clone, Copy, Debug, PartialEq, Eq)]
pub struct Instant {
    pub secs: i64,
    pub nanos: u32,
}

/// The seconds that `chrono` can date, and the nanoseconds that it admits there.
pub open spec fn datable(t: Instant) -> bool {
    &&& -8_334_601_228_800 <= t.secs <= 8_210_266_876_799
    &&& t.nanos < 1_000_000_000 || (t.nanos < 2_000_000_000 && t.secs % 60 == 59)
}

/// The leap second that lies between two times of day.
pub open spec fn leap_between(now: Instant, last: Instant) -> int {
    if now.secs % 86_400 > last.secs % 86_400 && last.nanos >= 1_000_000_000 {
        1
    } else if now.secs % 86_400 < last.secs % 86_400 && now.nanos >= 1_000_000_000 {
        -1
    } else {
        0
    }
}

/// The nanoseconds from `last` to `now`.
pub open spec fn nanos_between(now: Instant, last: Instant) -> int {
    (now.secs - last.secs + leap_between(now, last)) * 1_000_000_000 + now.nanos - last.nanos
}

/// The whole seconds from `last` to `now`, rounded towards zero.
pub open spec fn secs_between(now: Instant, last: Instant) -> int {
    let n = nanos_between(now, last);
    if n >= 0 {
        n / 1_000_000_000
    } else {
        -((-n) / 1_000_000_000)
    }
}

/// Whether `chrono` can date a moment.
pub fn is_datable(t: Instant) -> (r: bool)
    ensures
        r == datable(t),
{
    -8_334_601_228_800 <= t.secs && t.secs <= 8_210_266_876_799 && (t.nanos < 1_000_000_000 || (
    t.nanos < 2_000_000_000 && (t.secs + 8_334_601_228_800) % 60 == 59))
}

/// The moment that `chrono::DateTime::parse_from_rfc3339` reads from a text.
pub uninterp spec fn rfc3339_instant(text: Seq<char>) -> Option<Instant>;

/// Calls `chrono::DateTime::parse_from_rfc3339`; a text that it rejects gives `None`. What
/// it reads lies in the years 0 to 9999.
#[verifier::external_body]
pub(crate) fn parse_rfc3339(text: &str) -> (r: Option<Instant>)
    ensures
        r == rfc3339_instant(text@),
        r matches Some(t) ==> datable(t),
{
    chrono::DateTime::parse_from_rfc3339(text).ok().map(
        |t| Instant { secs: t.timestamp(), nanos: t.timestamp_subsec_nanos() })
}

/// Calls `chrono::DateTime::signed_duration_since` and `TimeDelta::num_seconds`: the whole
/// seconds between two moments, with a leap second counted when the time of day shows that
/// it lies between them.
#[verifier::external_body]
pub(crate) fn seconds_since(now: Instant, last: Instant) -> (r: i64)
    requires
        datable(now),
        datable(last),
    ensures
        r == secs_between(now, last),
{
    let now = chrono::DateTime::from_timestamp(now.secs, now.nanos).unwrap();
    let last = chrono::DateTime::from_timestamp(last.secs, last.nanos).unwrap();
    now.signed_duration_since(last).num_seconds()
}

/// Calls `chrono::Utc::now`: some moment that can be dated.
#[verifier::external_body]
pub(crate) fn now_instant() -> (r: Instant)
    ensures
        datable(r),
{
    let t = chrono::Utc::now();
    Instant { secs: t.timestamp(), nanos: t.timestamp_subsec_nanos() }
}

/// The text that `chrono::DateTime::to_rfc3339` writes of a moment in UTC.
pub uninterp spec fn rfc3339_of(t: Instant) -> Seq<char>;

/// Whether a moment lies in the years 0 to 9999, which RFC 3339 can write.
pub open spec fn in_calendar(t: Instant) -> bool {
    -62_167_219_200 <= t.secs <= 253_402_300_799
}

/// Calls `chrono::DateTime::to_rfc3339` on a moment in UTC. The text of a moment in the years
/// that RFC 3339 can write reads back as that moment; of other years nothing is claimed but
/// that the text depends on the moment alone.
#[verifier::external_body]
fn write_rfc3339(t: Instant) -> (r: String)
    requires
        datable(t),
    ensures
        r@ == rfc3339_of(t),
        in_calendar(t) ==> rfc3339_instant(r@) == Some(t),
{
    chrono::DateTime::from_timestamp(t.secs, t.nanos).unwrap().to_rfc3339()
}

/// Whether a text is the time stamp of some moment: it reads back as that moment in the years
/// that can be written so.
pub open spec fn is_stamp(text: Seq<char>) -> bool {
    exists|t: Instant|
        datable(t) && text == #[trigger] rfc3339_of(t) && (in_calendar(t) ==> rfc3339_instant(text)
            == Some(t))
}

/// The time stamp of now.
pub fn now() -> (r: String)
    ensures
        is_stamp(r@),
{
    write_rfc3339(now_instant())
}

// ---- identifiers ---------------------------------------------------------

/// Thirty-two lower-case hexadecimal digits.
pub open spec fn is_simple_uuid(s: Seq<char>) -> bool {
    &&& s.len() == 32
    &&& forall|i: int| 0 <= i < 32 ==> '0' <= #[trigger] s[i] <= '9' || 'a' <= s[i] <= 'f'
}

/// An identifier made of a prefix and a random identifier.
pub open spec fn is_generated(id: Seq<char>, prefix: Seq<char>) -> bool {
    exists|u: Seq<char>| #[trigger] is_simple_uuid(u) && id == prefix + u
}

/// Calls `uuid::Uuid::new_v4` and writes it in the simple form: some thirty-two lower-case
/// hexadecimal digits.
#[verifier::external_body]
fn random_uuid() -> (r: String)
    ensures
        is_simple_uuid(r@),
{
    uuid::Uuid::new_v4().simple().to_string()
}

fn generated_id(prefix: &str) -> (r: String)
    ensures
        is_generated(r@, prefix@),
{
    let u = random_uuid();
    let mut id = prefix.to_owned();
    id.append(u.as_str());
    id
}

/// A fresh dashboard identifier.
pub fn new_dashboard_id() -> (r: String)
    ensures
        is_generated(r@, "dash_"@),
{
    generated_id("dash_")
}

/// A fresh widget identifier.
pub fn new_widget_id() -> (r: String)
    ensures
        is_generated(r@, "wgt_"@),
{
    generated_id("wgt_")
}

} // verus!
