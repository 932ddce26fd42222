//! The level and the temperature of the battery, read from a battery report.

use crate::error::{AdbError, Missing};
use crate::numeral::{numeral, numeral_of};
use crate::quantity::{amount_of, plain, Amount, Quantity};
use crate::select::{last_some, lemma_last_some_step};
use crate::text::{after_prefix, chars_of, lines, rest_after, split_lines, texts, trim, trimmed};
use vstd::prelude::*;

verus! {

/// What the battery report says of the battery. At least one of the two is there.
#[derive(Debug, Clone, PartialEq, Eq)]
pub struct BatteryStats {
    /// The charge, in percent.
    pub level: Option<Quantity>,
    /// The temperature, in degrees Celsius.
    pub temp_c: Option<Quantity>,
}

/// What `line` says of the level, where it begins with `level:`: the
/// numeral behind the label, or that there is none.
pub open spec fn level_field(line: Seq<char>) -> Option<Option<Seq<char>>> {
    match after_prefix(line, "level:"@) {
        Some(rest) => Some(numeral_of(trimmed(rest))),
        None => None,
    }
}

/// The numeral behind the label on `line`, where the line begins with
/// `temperature:`, and not with `level:`, and a numeral follows.
pub open spec fn temperature_field(line: Seq<char>) -> Option<Seq<char>> {
    match (after_prefix(line, "level:"@), after_prefix(line, "temperature:"@)) {
        (None, Some(rest)) => numeral_of(trimmed(rest)),
        _ => None,
    }
}

/// The level according to the report `text`: what the last line that
/// begins with `level:` says.
pub open spec fn battery_level(text: Seq<char>) -> Option<Amount> {
    match last_some(lines(text).map_values(|l: Seq<char>| level_field(l))) {
        Some(Some(t)) => Some(plain(t)),
        _ => None,
    }
}

/// The temperature according to the report `text`, in degrees Celsius: the
/// figure of the last line that has one, which is in tenths of a degree, over 10.
pub open spec fn battery_temperature(text: Seq<char>) -> Option<Amount> {
    match last_some(lines(text).map_values(|l: Seq<char>| temperature_field(l))) {
        Some(t) => Some(Amount::Reading { numeral: t, divisor: 10 }),
        None => None,
    }
}

/// Reads level and temperature of the battery from the battery report `raw`.
///
/// The level is the numeral on the last line that begins with `level:`,
/// and is absent where that line has no numeral there. The temperature is
/// the numeral of the last line that begins with `temperature:` and has
/// one, over 10. Where both are absent the fields are missing.
pub fn parse_battery(raw: &str) -> (r: Result<BatteryStats, AdbError>)
    ensures
        match r {
            Ok(b) => {
                &&& amount_of(b.level) == battery_level(raw@)
                &&& amount_of(b.temp_c) == battery_temperature(raw@)
                &&& (b.level is Some || b.temp_c is Some)
            },
            Err(e) => {
                &&& battery_level(raw@) is None
                &&& battery_temperature(raw@) is None
                &&& e == AdbError::ParseFailed(Missing::BatteryFields)
            },
        },
{
    let text = chars_of(raw);
    let rows = split_lines(&text);
    let ghost levels = lines(raw@).map_values(|l: Seq<char>| level_field(l));
    let ghost temperatures = lines(raw@).map_values(|l: Seq<char>| temperature_field(l));
    let mut level: Option<Vec<char>> = None;
    let mut temperature: Option<Vec<char>> = None;
    let mut k: usize = 0;
    assert(levels.take(0) =~= Seq::empty());
    assert(temperatures.take(0) =~= Seq::empty());
    while k < rows.len()
        invariant
            k <= rows.len(),
            texts(rows@) == lines(raw@),
            levels == lines(raw@).map_values(|l: Seq<char>| level_field(l)),
            temperatures == lines(raw@).map_values(|l: Seq<char>| temperature_field(l)),
            match last_some(levels.take(k as int)) {
                Some(Some(t)) => level is Some && level->0@ == t,
                _ => level is None,
            },
            match last_some(temperatures.take(k as int)) {
                Some(t) => temperature is Some && temperature->0@ == t,
                None => temperature is None,
            },
        decreases rows.len() - k,
    {
        assert(texts(rows@)[k as int] == rows@[k as int]@);
        proof {
            lemma_last_some_step(levels, k as int);
            lemma_last_some_step(temperatures, k as int);
        }
        match rest_after(&rows[k], "level:") {
            Some(rest) => {
                let token = trim(&rest);
                if numeral(&token) {
                    level = Some(token);
                } else {
                    level = None;
                }
            },
            None => {
                match rest_after(&rows[k], "temperature:") {
                    Some(rest) => {
                        let token = trim(&rest);
                        if numeral(&token) {
                            temperature = Some(token);
                        }
                    },
                    None => {},
                }
            },
        }
        k += 1;
    }
    assert(levels.take(rows.len() as int) =~= levels);
    assert(temperatures.take(rows.len() as int) =~= temperatures);
    if level.is_none() && temperature.is_none() {
        return Err(AdbError::ParseFailed(Missing::BatteryFields));
    }
    let level = match level {
        Some(t) => Some(Quantity::reading(&t, 1)),
        None => None,
    };
    let temp_c = match temperature {
        Some(t) => Some(Quantity::reading(&t, 10)),
        None => None,
    };
    Ok(BatteryStats { level, temp_c })
}

} // verus!
