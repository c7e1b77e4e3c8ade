//! Settings read from a consumer's JSON config: every field is optional and
//! keeps its default when absent, durations read like `30d` or `1h`, and an
//! unknown field is an error.

use vstd::prelude::*;
use crate::cache::same_text;
use crate::text::chars_of;

verus! {

/// One field of a config object: its name, its value when that is a JSON
/// string, and its value when that is a JSON number that fits a `u64`.
pub struct Field {
    pub name: String,
    pub text: Option<String>,
    pub number: Option<u64>,
}

pub open spec fn text_view(text: Option<String>) -> Option<Seq<char>> {
    match text {
        Some(t) => Some(t@),
        None => None,
    }
}

pub open spec fn field_view(field: Field) -> (Seq<char>, Option<Seq<char>>, Option<u64>) {
    (field.name@, text_view(field.text), field.number)
}

pub open spec fn fields_view(fields: Seq<Field>) -> Seq<(Seq<char>, Option<Seq<char>>, Option<u64>)> {
    fields.map_values(|f: Field| field_view(f))
}

/// The fields of the JSON object in `text`, or `None` when `text` is not a
/// JSON object.
pub uninterp spec fn json_object_fields(text: Seq<char>) -> Option<
    Seq<(Seq<char>, Option<Seq<char>>, Option<u64>)>,
>;

/// `serde_json::from_str` into a `serde_json::Map`, each value kept when it
/// is a string or a number that fits a `u64`. The result is named
/// `json_object_fields`; its order and what it holds are left to that name.
#[verifier::external_body]
fn parse_object(text: &str) -> (fields: Option<Vec<Field>>)
    ensures
        match fields {
            Some(f) => json_object_fields(text@) == Some(fields_view(f@)),
            None => json_object_fields(text@) is None,
        },
{
    let map: serde_json::Map<String, serde_json::Value> = serde_json::from_str(text).ok()?;
    Some(
        map.into_iter().map(|(name, value)| match value {
            serde_json::Value::String(text) => Field { name, text: Some(text), number: None },
            serde_json::Value::Number(number) => Field { name, text: None, number: number.as_u64() },
            _ => Field { name, text: None, number: None },
        }).collect(),
    )
}

/// The whole seconds and the nanoseconds of the duration `text` writes, as
/// `humantime` reads it (`30d`, `1h 30m`, `250ms`).
pub uninterp spec fn humantime_duration(text: Seq<char>) -> Option<(u64, u32)>;

/// `10^n`.
pub open spec fn pow10(n: nat) -> nat
    decreases n,
{
    if n == 0 {
        1
    } else {
        10 * pow10((n - 1) as nat)
    }
}

/// A letter, which ends the number before it in a duration's text.
pub open spec fn is_unit_letter(c: char) -> bool {
    ('a' <= c && c <= 'z') || ('A' <= c && c <= 'Z') || c == '\u{b5}'
}

/// The most nanoseconds one unit can be whose name starts with `c`: `n`
/// nanoseconds, `u` and `µ` microseconds, `s` seconds, `h` hours, `d` days,
/// `w` weeks, `m` and `M` the longest of milliseconds, minutes and months
/// (30.44 days); years (365.25 days) for anything else.
pub open spec fn unit_scale(c: char) -> nat {
    if c == 'n' {
        1
    } else if c == 'u' || c == '\u{b5}' {
        1_000
    } else if c == 's' {
        1_000_000_000
    } else if c == 'h' {
        3_600_000_000_000
    } else if c == 'd' {
        86_400_000_000_000
    } else if c == 'w' {
        604_800_000_000_000
    } else if c == 'm' || c == 'M' {
        2_630_016_000_000_000
    } else {
        31_557_600_000_000_000
    }
}

/// A number of `digits` digits before a unit whose name starts with `c`
/// writes less than this many nanoseconds.
pub open spec fn segment_bound(digits: nat, c: char) -> nat {
    if digits == 0 {
        0
    } else {
        pow10(digits) * unit_scale(c)
    }
}

/// The bound from position `i` of `text`, with `digits` digits of the
/// current number read before it. Digits count across anything but a letter:
/// humantime reads a number up to the first letter of its unit, skipping
/// whitespace and reading a fraction after `.`, and fails on anything else.
pub open spec fn duration_bound_from(text: Seq<char>, i: int, digits: nat) -> nat
    decreases text.len() - i,
{
    if i >= text.len() {
        segment_bound(digits, 'y')
    } else if '0' <= text[i] && text[i] <= '9' {
        duration_bound_from(text, i + 1, digits + 1)
    } else if is_unit_letter(text[i]) {
        segment_bound(digits, text[i]) + duration_bound_from(text, i + 1, 0)
    } else {
        duration_bound_from(text, i + 1, digits)
    }
}

/// More nanoseconds than any duration `text` can write: each number with
/// its fraction adds less than `10^d` of its unit, `d` its digits.
pub open spec fn duration_bound(text: Seq<char>) -> nat {
    duration_bound_from(text, 0, 0)
}

/// `u64::MAX` seconds in nanoseconds: a text whose bound stays within this
/// never adds up to `u64::MAX` seconds.
pub open spec fn max_duration_ns() -> nat {
    18_446_744_073_709_551_615_000_000_000
}

/// `humantime::parse_duration`, split into whole seconds and the
/// nanoseconds below one second, which are fewer than a billion. The value
/// is named `humantime_duration`.
///
/// humantime panics only when the seconds it adds up reach `u64::MAX` and a
/// carry of nanoseconds follows. Each item of the text adds less than
/// `10^d` of its unit, `d` the digits of its number, so a text whose
/// `duration_bound` stays within `u64::MAX` seconds never gets there; only
/// such texts are passed.
#[verifier::external_body]
fn parse_duration(text: &str) -> (parts: Option<(u64, u32)>)
    requires
        duration_bound(text@) <= max_duration_ns(),
    ensures
        parts == humantime_duration(text@),
        parts matches Some((_, nanos)) ==> nanos < 1_000_000_000,
{
    humantime::parse_duration(text).ok().map(|duration| (duration.as_secs(), duration.subsec_nanos()))
}

/// `x`, or one past the largest bound allowed when `x` is larger.
pub open spec fn capped(x: nat) -> nat {
    if x <= max_duration_ns() {
        x
    } else {
        max_duration_ns() + 1
    }
}

const CAP: u128 = 18_446_744_073_709_551_615_000_000_001;

fn scale_of(c: char) -> (scale: u128)
    ensures
        scale == unit_scale(c),
{
    if c == 'n' {
        1
    } else if c == 'u' || c == '\u{b5}' {
        1_000
    } else if c == 's' {
        1_000_000_000
    } else if c == 'h' {
        3_600_000_000_000
    } else if c == 'd' {
        86_400_000_000_000
    } else if c == 'w' {
        604_800_000_000_000
    } else if c == 'm' || c == 'M' {
        2_630_016_000_000_000
    } else {
        31_557_600_000_000_000
    }
}

proof fn lemma_pow10_positive(n: nat)
    ensures
        pow10(n) >= 1,
    decreases n,
{
    if n > 0 {
        lemma_pow10_positive((n - 1) as nat);
    }
}

/// `segment_bound(digits, c)`, capped.
fn capped_segment(digits: usize, c: char) -> (bound: u128)
    ensures
        bound == capped(segment_bound(digits as nat, c)),
{
    if digits == 0 {
        return 0;
    }
    let mut p: u128 = 1;
    let mut k: usize = 0;
    while k < digits
        invariant
            k <= digits,
            p == capped(pow10(k as nat)),
        decreases digits - k,
    {
        proof {
            lemma_pow10_positive(k as nat);
        }
        assert(pow10((k + 1) as nat) == 10 * pow10(k as nat));
        if p > CAP / 10 {
            p = CAP;
        } else {
            p = p * 10;
            if p > CAP {
                p = CAP;
            }
        }
        k = k + 1;
    }
    let scale = scale_of(c);
    let ghost full = pow10(digits as nat);
    proof {
        lemma_pow10_positive(digits as nat);
    }
    assert(scale >= 1);
    if p > CAP / scale {
        assert(p * scale > CAP - 1) by (nonlinear_arith)
            requires
                p > CAP / scale,
                scale >= 1,
        ;
        assert(full * scale >= p * scale) by (nonlinear_arith)
            requires
                full >= p,
                scale >= 1,
        ;
        CAP
    } else {
        assert(p * scale <= CAP) by (nonlinear_arith)
            requires
                p <= CAP / scale,
                scale >= 1,
        ;
        let scaled = p * scale;
        if p == CAP {
            assert(full * scale >= full) by (nonlinear_arith)
                requires
                    scale >= 1,
                    full >= 0,
            ;
        }
        if scaled > CAP {
            CAP
        } else {
            scaled
        }
    }
}

/// Whether `text` may go to humantime: its bound stays within `u64::MAX`
/// seconds.
pub fn duration_in_bounds(text: &str) -> (ok: bool)
    ensures
        ok == (duration_bound(text@) <= max_duration_ns()),
{
    let chars = chars_of(text);
    let ghost s = text@;
    let ghost mut emitted: nat = 0;
    let mut acc: u128 = 0;
    let mut digits: usize = 0;
    let mut i: usize = 0;
    while i < chars.len()
        invariant
            i <= chars.len(),
            chars@ == s,
            s == text@,
            digits <= i,
            duration_bound(s) == emitted + duration_bound_from(s, i as int, digits as nat),
            acc == capped(emitted),
        decreases chars.len() - i,
    {
        let c = chars[i];
        if '0' <= c && c <= '9' {
            digits = digits + 1;
        } else if ('a' <= c && c <= 'z') || ('A' <= c && c <= 'Z') || c == '\u{b5}' {
            let term = capped_segment(digits, c);
            proof {
                emitted = emitted + segment_bound(digits as nat, c);
            }
            acc = if acc + term > CAP { CAP } else { acc + term };
            digits = 0;
        }
        i = i + 1;
    }
    let last = capped_segment(digits, 'y');
    let total = if acc + last > CAP { CAP } else { acc + last };
    assert(total == capped(duration_bound(s)));
    total < CAP
}

/// A duration of `secs` seconds and `nanos` nanoseconds in whole
/// milliseconds, rounded down and saturating at `u64::MAX`.
pub open spec fn millis_of(secs: u64, nanos: u32) -> u64 {
    let total = secs * 1000 + nanos / 1_000_000;
    if total <= u64::MAX {
        total as u64
    } else {
        u64::MAX
    }
}

/// A duration in whole milliseconds, rounded down and saturating.
pub fn millis(secs: u64, nanos: u32) -> (ms: u64)
    ensures
        ms == millis_of(secs, nanos),
{
    let below = (nanos / 1_000_000) as u64;
    match secs.checked_mul(1000) {
        Some(whole) => match whole.checked_add(below) {
            Some(total) => total,
            None => u64::MAX,
        },
        None => u64::MAX,
    }
}

/// A setting's duration in whole milliseconds: rounded down and saturating,
/// except that a nonzero duration below one millisecond counts as one, so
/// that it never reads as `0`, which turns a bound off.
pub open spec fn setting_millis_of(secs: u64, nanos: u32) -> u64 {
    if secs == 0 && 0 < nanos && nanos < 1_000_000 {
        1
    } else {
        millis_of(secs, nanos)
    }
}

/// A setting's duration in whole milliseconds, a nonzero one never `0`.
pub fn setting_millis(secs: u64, nanos: u32) -> (ms: u64)
    ensures
        ms == setting_millis_of(secs, nanos),
{
    if secs == 0 && 0 < nanos && nanos < 1_000_000 {
        1
    } else {
        millis(secs, nanos)
    }
}

/// The seconds and nanoseconds a duration field's value writes, when it is
/// a string whose bound humantime may read and that it reads.
pub open spec fn duration_parts(field: (Seq<char>, Option<Seq<char>>, Option<u64>)) -> Option<(u64, u32)> {
    match field.1 {
        Some(text) => if duration_bound(text) <= max_duration_ns() {
            humantime_duration(text)
        } else {
            None
        },
        None => None,
    }
}

/// The milliseconds a timeout or lifetime field writes: a nonzero duration
/// never reads as `0`.
pub open spec fn duration_value(field: (Seq<char>, Option<Seq<char>>, Option<u64>)) -> Option<u64> {
    match duration_parts(field) {
        Some((secs, nanos)) => Some(setting_millis_of(secs, nanos)),
        None => None,
    }
}

/// The milliseconds a cache horizon field writes, rounded down.
pub open spec fn horizon_value(field: (Seq<char>, Option<Seq<char>>, Option<u64>)) -> Option<u64> {
    match duration_parts(field) {
        Some((secs, nanos)) => Some(millis_of(secs, nanos)),
        None => None,
    }
}

/// Reads a duration field's seconds and nanoseconds.
fn duration_parts_of(field: &Field) -> (parts: Option<(u64, u32)>)
    ensures
        parts == duration_parts(field_view(*field)),
{
    match &field.text {
        Some(text) => {
            if !duration_in_bounds(text.as_str()) {
                return None;
            }
            parse_duration(text.as_str())
        },
        None => None,
    }
}

/// Reads a timeout or lifetime field.
pub fn duration_of(field: &Field) -> (ms: Option<u64>)
    ensures
        ms == duration_value(field_view(*field)),
{
    match duration_parts_of(field) {
        Some((secs, nanos)) => Some(setting_millis(secs, nanos)),
        None => None,
    }
}

/// Reads a cache horizon field.
pub fn horizon_of(field: &Field) -> (ms: Option<u64>)
    ensures
        ms == horizon_value(field_view(*field)),
{
    match duration_parts_of(field) {
        Some((secs, nanos)) => Some(millis(secs, nanos)),
        None => None,
    }
}

/// Why a config could not be read.
#[derive(Clone, Debug, PartialEq, Eq)]
pub enum ConfigError {
    /// The text is not a JSON object.
    NotAnObject,
    /// A field this config does not have.
    UnknownField(String),
    /// A field whose value is not of its type.
    InvalidValue(String),
}

/// A group of settings with defaults that a config overrides field by field.
pub trait Settings: Sized {
    /// Whether the settings have a field called `name`.
    spec fn knows(name: Seq<char>) -> bool;

    /// The settings with `field` applied, or `None` when its value is not of
    /// the field's type.
    spec fn with_field(self, field: (Seq<char>, Option<Seq<char>>, Option<u64>)) -> Option<Self>;

    /// Applies `field`.
    fn set(&mut self, field: &Field) -> (result: Result<(), ConfigError>)
        ensures
            match result {
                Ok(()) => Self::knows(field.name@) && old(self).with_field(field_view(*field))
                    == Some(*final(self)),
                Err(ConfigError::UnknownField(name)) => !Self::knows(field.name@) && name@
                    == field.name@,
                Err(ConfigError::InvalidValue(name)) => Self::knows(field.name@) && old(
                    self,
                ).with_field(field_view(*field)) is None && name@ == field.name@,
                Err(ConfigError::NotAnObject) => false,
            },
    ;
}

/// The settings `start` with `fields` applied in order: `Err` with the name
/// of the first field that is unknown or whose value is not of its type.
pub open spec fn apply_fields<S: Settings>(
    start: S,
    fields: Seq<(Seq<char>, Option<Seq<char>>, Option<u64>)>,
) -> Result<S, Seq<char>>
    decreases fields.len(),
{
    if fields.len() == 0 {
        Ok(start)
    } else {
        match apply_fields(start, fields.drop_last()) {
            Ok(s) => if !S::knows(fields.last().0) {
                Err(fields.last().0)
            } else {
                match s.with_field(fields.last()) {
                    Some(next) => Ok(next),
                    None => Err(fields.last().0),
                }
            },
            Err(name) => Err(name),
        }
    }
}

/// What reading `text` over `start` gives.
pub open spec fn read_config<S: Settings>(start: S, text: Seq<char>) -> Option<Result<S, Seq<char>>> {
    match json_object_fields(text) {
        Some(fields) => Some(apply_fields(start, fields)),
        None => None,
    }
}

/// Reads the config in `text` over `start`.
pub fn from_config<S: Settings>(start: S, text: &str) -> (result: Result<S, ConfigError>)
    ensures
        match result {
            Ok(settings) => read_config(start, text@) == Some(Ok::<S, Seq<char>>(settings)),
            Err(ConfigError::NotAnObject) => read_config(start, text@) is None,
            Err(ConfigError::UnknownField(name)) => read_config(start, text@) == Some(
                Err::<S, Seq<char>>(name@),
            ) && !S::knows(name@),
            Err(ConfigError::InvalidValue(name)) => read_config(start, text@) == Some(
                Err::<S, Seq<char>>(name@),
            ) && S::knows(name@),
        },
{
    let fields = match parse_object(text) {
        Some(fields) => fields,
        None => return Err(ConfigError::NotAnObject),
    };
    let ghost view = fields_view(fields@);
    let mut settings = start;
    let mut i: usize = 0;
    while i < fields.len()
        invariant
            i <= fields.len(),
            view == fields_view(fields@),
            json_object_fields(text@) == Some(view),
            apply_fields(start, view.take(i as int)) == Ok::<S, Seq<char>>(settings),
        decreases fields.len() - i,
    {
        assert(view.take(i + 1).drop_last() =~= view.take(i as int));
        assert(view[i as int] == field_view(fields@[i as int]));
        match settings.set(&fields[i]) {
            Ok(()) => {},
            Err(e) => {
                proof {
                    assert(view.take(i + 1).last() == view[i as int]);
                    lemma_error_stays(start, view, i as int + 1);
                }
                return Err(e);
            },
        }
        i = i + 1;
    }
    assert(view.take(fields.len() as int) =~= view);
    Ok(settings)
}

/// Once a field fails, the rest do not change the outcome.
proof fn lemma_error_stays<S: Settings>(
    start: S,
    fields: Seq<(Seq<char>, Option<Seq<char>>, Option<u64>)>,
    k: int,
)
    requires
        0 <= k <= fields.len(),
        apply_fields(start, fields.take(k)) is Err,
    ensures
        apply_fields(start, fields) == apply_fields(start, fields.take(k)),
    decreases fields.len() - k,
{
    if k < fields.len() {
        assert(fields.take(k + 1).drop_last() =~= fields.take(k));
        lemma_error_stays(start, fields, k + 1);
    } else {
        assert(fields.take(k) =~= fields);
    }
}

} // verus!
