//! Per-source readings and their aggregation.
//!
//! Each poll cycle samples every configured power-supply source once:
//! its status token is classified into a `SourceState`, and for
//! discharging-like sources its capacity text is parsed into a level.
//! The set of readings is then reduced to one system-wide effective
//! percentage: any charging, full or unrecognized source forces the
//! aggregate to 100, and otherwise the aggregate is the maximum level
//! across the discharging/unknown sources.

use vstd::prelude::*;
use vstd::string::StrSliceExecFns;

verus! {

/// The charge state a power-supply source reports.
///
/// `Other` stands for any unrecognized status token; it is treated as
/// non-discharging (full-charge override) by design, not by omission.
#[derive(Clone, Copy, PartialEq, Eq, Structural, Debug)]
pub enum SourceState {
    Charging,
    Full,
    Discharging,
    Unknown,
    Other,
}

/// One fresh per-source sample: the reported state, and the charge level
/// in 0..=100, meaningful only when the state is discharging-like.
#[derive(Clone, Copy, PartialEq, Eq, Structural, Debug)]
pub struct SourceReading {
    pub state: SourceState,
    pub level: u8,
}

/// A discharging-like source contributes its numeric level to the
/// aggregate; every other state forces the aggregate to 100.
pub open spec fn discharging_like(state: SourceState) -> bool {
    state is Discharging || state is Unknown
}

/// The state a raw status token denotes. The recognized tokens are the
/// exact file contents the power-supply interface exposes, trailing
/// newline included; anything else is `Other`.
pub open spec fn status_state(token: Seq<char>) -> SourceState {
    if token == "Unknown\n"@ {
        SourceState::Unknown
    } else if token == "Discharging\n"@ {
        SourceState::Discharging
    } else if token == "Charging\n"@ {
        SourceState::Charging
    } else if token == "Full\n"@ {
        SourceState::Full
    } else {
        SourceState::Other
    }
}

/// Whether the two strings hold the same characters.
fn str_eq(a: &str, b: &str) -> (r: bool)
    ensures
        r == (a@ == b@),
{
    let a_len = a.unicode_len();
    let b_len = b.unicode_len();
    if a_len != b_len {
        return false;
    }
    let mut i: usize = 0;
    while i < a_len
        invariant
            a_len == a@.len(),
            a@.len() == b@.len(),
            i <= a_len,
            forall|j: int| 0 <= j < i ==> a@[j] == b@[j],
        decreases a_len - i,
    {
        if a.get_char(i) != b.get_char(i) {
            return false;
        }
        i = i + 1;
    }
    proof {
        assert(a@ =~= b@);
    }
    true
}

/// Classify one source's raw status token.
pub fn classify_status(status: &str) -> (state: SourceState)
    ensures
        state == status_state(status@),
{
    if str_eq(status, "Unknown\n") {
        SourceState::Unknown
    } else if str_eq(status, "Discharging\n") {
        SourceState::Discharging
    } else if str_eq(status, "Charging\n") {
        SourceState::Charging
    } else if str_eq(status, "Full\n") {
        SourceState::Full
    } else {
        SourceState::Other
    }
}

/// ASCII whitespace, as found trailing the capacity text (usually one
/// newline).
pub open spec fn is_space(c: char) -> bool {
    c == ' ' || c == '\n' || c == '\t' || c == '\r'
}

/// The text with its trailing whitespace removed.
pub open spec fn trim_trailing_space(text: Seq<char>) -> Seq<char>
    decreases text.len(),
{
    if text.len() > 0 && is_space(text.last()) {
        trim_trailing_space(text.drop_last())
    } else {
        text
    }
}

pub open spec fn is_dec_digit(c: char) -> bool {
    '0' <= c && c <= '9'
}

pub open spec fn all_dec_digits(text: Seq<char>) -> bool {
    forall|i: int| 0 <= i < text.len() ==> is_dec_digit(text[i])
}

/// The value of a string of decimal digits, most significant first.
pub open spec fn dec_value(digits: Seq<char>) -> int
    decreases digits.len(),
{
    if digits.len() == 0 {
        0
    } else {
        10 * dec_value(digits.drop_last()) + (digits.last() as int - '0' as int)
    }
}

/// The level a raw capacity text denotes: after trimming trailing
/// whitespace the text must be one or more decimal digits whose value is
/// at most 100; anything else (empty, non-numeric, out of range) is
/// malformed.
pub open spec fn level_of_text(text: Seq<char>) -> Option<u8> {
    let digits = trim_trailing_space(text);
    if digits.len() > 0 && all_dec_digits(digits) && dec_value(digits) <= 100 {
        Some(dec_value(digits) as u8)
    } else {
        None
    }
}

fn is_space_char(c: char) -> (r: bool)
    ensures
        r == is_space(c),
{
    c == ' ' || c == '\n' || c == '\t' || c == '\r'
}

/// Parse one source's raw capacity text into a charge level, `None` when
/// the text is malformed or out of range.
pub fn parse_level(text: &str) -> (level: Option<u8>)
    ensures
        level == level_of_text(text@),
{
    let len = text.unicode_len();
    proof {
        assert(text@.take(len as int) =~= text@);
    }
    let mut end = len;
    while end > 0 && is_space_char(text.get_char(end - 1))
        invariant
            len == text@.len(),
            end <= len,
            trim_trailing_space(text@) == trim_trailing_space(text@.take(end as int)),
        decreases end,
    {
        proof {
            assert(text@.take(end as int).drop_last() =~= text@.take(end - 1));
        }
        end = end - 1;
    }
    proof {
        assert(trim_trailing_space(text@) == text@.take(end as int));
    }
    if end == 0 {
        return None;
    }
    let mut value: u32 = 0;
    let mut i: usize = 0;
    while i < end
        invariant
            len == text@.len(),
            0 < end <= len,
            i <= end,
            trim_trailing_space(text@) == text@.take(end as int),
            forall|j: int| 0 <= j < i ==> is_dec_digit(text@[j]),
            dec_value(text@.take(i as int)) <= 100 ==> value == dec_value(
                text@.take(i as int),
            ),
            dec_value(text@.take(i as int)) > 100 ==> value == 101,
        decreases end - i,
    {
        let c = text.get_char(i);
        if c < '0' || c > '9' {
            proof {
                assert(!is_dec_digit(text@.take(end as int)[i as int]));
            }
            return None;
        }
        let digit = (c as u32) - ('0' as u32);
        proof {
            assert(text@.take(i + 1).drop_last() =~= text@.take(i as int));
            assert(text@.take(i + 1).last() == text@[i as int]);
        }
        let grown = 10 * value + digit;
        if grown > 100 {
            value = 101;
        } else {
            value = grown;
        }
        i = i + 1;
    }
    proof {
        assert(text@.take(end as int).len() == end);
        assert(all_dec_digits(text@.take(end as int)));
    }
    if value <= 100 {
        Some(value as u8)
    } else {
        None
    }
}

/// Some reading forces the full-charge override: its source is charging,
/// full, or in an unrecognized state.
pub open spec fn any_override(readings: Seq<SourceReading>) -> bool {
    exists|i: int| 0 <= i < readings.len() && !discharging_like(readings[i].state)
}

/// The maximum level across the readings, starting from 0 for none.
pub open spec fn max_discharge_level(readings: Seq<SourceReading>) -> int
    decreases readings.len(),
{
    if readings.len() == 0 {
        0
    } else if readings.last().level as int > max_discharge_level(readings.drop_last()) {
        readings.last().level as int
    } else {
        max_discharge_level(readings.drop_last())
    }
}

/// The system-wide effective percentage one cycle's readings reduce to:
/// 100 as soon as any source is charging, full or unrecognized, and the
/// maximum discharging level otherwise.
pub open spec fn effective_spec(readings: Seq<SourceReading>) -> int {
    if any_override(readings) {
        100
    } else {
        max_discharge_level(readings)
    }
}

/// Reduce one cycle's readings to the effective percentage.
pub fn effective_percentage(readings: &Vec<SourceReading>) -> (percentage: u8)
    requires
        forall|i: int| 0 <= i < readings@.len() ==> readings@[i].level <= 100,
    ensures
        percentage as int == effective_spec(readings@),
        percentage <= 100,
{
    let mut aggregate: u8 = 0;
    let mut i: usize = 0;
    while i < readings.len()
        invariant
            i <= readings@.len(),
            forall|j: int| 0 <= j < readings@.len() ==> readings@[j].level <= 100,
            aggregate as int == effective_spec(readings@.take(i as int)),
            aggregate <= 100,
        decreases readings@.len() - i,
    {
        let reading = readings[i];
        proof {
            assert(readings@.take(i + 1).drop_last() =~= readings@.take(i as int));
            assert(readings@.take(i + 1).last() == readings@[i as int]);
            if any_override(readings@.take(i as int)) {
                let w = choose|k: int|
                    0 <= k < i && !discharging_like(readings@.take(i as int)[k].state);
                assert(!discharging_like(readings@.take(i + 1)[w].state));
            }
        }
        match reading.state {
            SourceState::Discharging | SourceState::Unknown => {
                if reading.level > aggregate {
                    aggregate = reading.level;
                }
                proof {
                    if !any_override(readings@.take(i + 1)) {
                        assert(!any_override(readings@.take(i as int)));
                    } else {
                        let w = choose|k: int|
                            0 <= k < i + 1 && !(#[trigger] discharging_like(
                                readings@.take(i + 1)[k].state,
                            ));
                        assert(0 <= w < i);
                        assert(!discharging_like(readings@.take(i as int)[w].state));
                    }
                }
            },
            _ => {
                aggregate = 100;
                proof {
                    assert(!discharging_like(readings@.take(i + 1)[i as int].state));
                }
            },
        }
        i = i + 1;
    }
    proof {
        assert(readings@.take(readings@.len() as int) =~= readings@);
    }
    aggregate
}

/// With at least one source and every source charging or full, the
/// effective percentage is 100, regardless of any levels present.
pub proof fn lemma_all_charging_or_full_gives_100(readings: Seq<SourceReading>)
    requires
        readings.len() > 0,
        forall|i: int|
            0 <= i < readings.len() ==> readings[i].state is Charging
                || readings[i].state is Full,
    ensures
        effective_spec(readings) == 100,
{
    assert(!discharging_like(readings[0].state));
}

/// With every source discharging or unknown, the effective percentage is
/// the maximum of the sources' levels.
pub proof fn lemma_all_discharging_gives_max(readings: Seq<SourceReading>)
    requires
        forall|i: int| 0 <= i < readings.len() ==> discharging_like(readings[i].state),
    ensures
        effective_spec(readings) == max_discharge_level(readings),
{
}

/// What the maximum is: at least every level, 0 for no readings, and
/// attained by some reading when there is one.
pub proof fn lemma_max_discharge_level_is_max(readings: Seq<SourceReading>)
    ensures
        forall|i: int|
            0 <= i < readings.len() ==> readings[i].level as int <= max_discharge_level(
                readings,
            ),
        max_discharge_level(readings) >= 0,
        readings.len() > 0 ==> exists|i: int|
            0 <= i < readings.len() && readings[i].level as int == max_discharge_level(
                readings,
            ),
        readings.len() == 0 ==> max_discharge_level(readings) == 0,
    decreases readings.len(),
{
    if readings.len() > 0 {
        lemma_max_discharge_level_is_max(readings.drop_last());
        let rest = readings.drop_last();
        assert(forall|i: int| 0 <= i < rest.len() ==> rest[i] == readings[i]);
        if readings.last().level as int > max_discharge_level(rest) {
            assert(readings[readings.len() - 1].level as int == max_discharge_level(
                readings,
            ));
        } else {
            if rest.len() == 0 {
                assert(max_discharge_level(readings) == 0);
                assert(readings[0].level as int >= 0);
                assert(readings[0].level as int == max_discharge_level(readings));
            } else {
                let w = choose|i: int|
                    0 <= i < rest.len() && rest[i].level as int == max_discharge_level(
                        rest,
                    );
                assert(readings[w].level as int == max_discharge_level(readings));
            }
        }
    }
}

} // verus!
