//! The power a package draws, read from the battery statistics, and the
//! current that leaves the battery, read from the battery report.

use crate::error::{AdbError, Missing};
use crate::numeral::{
    exceeds_hundred, find_numeral, first_numeral, is_numeral, magnitude_above_hundred, numeral,
    numeral_of,
};
use crate::quantity::{plain, Amount, Quantity};
use crate::select::{first_some, lemma_first_some_at, lemma_first_some_none};
use crate::text::{
    chars_of, find, holds, lines, occurs, position_of, segments, slice, split, split_lines,
    split_words, starts_with, texts, trim, trimmed, words,
};
use vstd::prelude::*;

verus! {

/// The estimate on the trimmed line `t`, where it holds the words
/// `Estimated power use` and a colon: what stands behind the first colon,
/// up to the next colon and to the unit `mAh`, where that is a numeral.
pub open spec fn estimate_field(t: Seq<char>) -> Option<Seq<char>> {
    let parts = segments(t, ':');
    if occurs(t, "Estimated power use"@) && parts.len() >= 2 {
        numeral_of(trimmed(parts[1].take(position_of(parts[1], "mAh"@) as int)))
    } else {
        None
    }
}

/// The first numeral among the words of the trimmed line `t`, where the
/// line holds the words `power use`, with a small or a capital letter in front.
pub open spec fn power_use_field(t: Seq<char>) -> Option<Seq<char>> {
    if occurs(t, "power use"@) || occurs(t, "Power use"@) {
        first_numeral(words(t))
    } else {
        None
    }
}

/// The power figure on `line`: the estimate, else the first numeral of a
/// line on power use.
pub open spec fn power_field(line: Seq<char>) -> Option<Seq<char>> {
    match estimate_field(trimmed(line)) {
        Some(t) => Some(t),
        None => power_use_field(trimmed(line)),
    }
}

/// The power that the package draws according to the battery statistics
/// `text`: the figure of the first line that has one.
pub open spec fn power_usage(text: Seq<char>) -> Option<Amount> {
    match first_some(lines(text).map_values(|l: Seq<char>| power_field(l))) {
        Some(t) => Some(plain(t)),
        None => None,
    }
}

/// The current on `line`, in microamperes: the numeral behind the first
/// colon of a line that begins with `current now:`, where its magnitude is
/// greater than 100. A smaller current is noise.
pub open spec fn current_field(line: Seq<char>) -> Option<Seq<char>> {
    let t = trimmed(line);
    let parts = segments(t, ':');
    if "current now:"@.is_prefix_of(t) && parts.len() >= 2 && is_numeral(trimmed(parts[1]))
        && magnitude_above_hundred(trimmed(parts[1])) {
        Some(trimmed(parts[1]))
    } else {
        None
    }
}

/// The current that leaves the battery according to the battery report
/// `text`, in milliamperes: the current of the first line that has one,
/// which is in microamperes, over 1000.
pub open spec fn battery_current(text: Seq<char>) -> Option<Amount> {
    match first_some(lines(text).map_values(|l: Seq<char>| current_field(l))) {
        Some(t) => Some(Amount::Reading { numeral: t, divisor: 1000 }),
        None => None,
    }
}

/// The power figure on the line `row`.
fn power_on(row: &Vec<char>) -> (r: Option<Vec<char>>)
    ensures
        match r {
            Some(t) => power_field(row@) == Some(t@),
            None => power_field(row@) is None,
        },
{
    let t = trim(row);
    if holds(&t, "Estimated power use") {
        let parts = split(&t, ':');
        if parts.len() >= 2 {
            assert(texts(parts@)[1] == parts@[1]@);
            let part = &parts[1];
            let end = match find(part, &chars_of("mAh")) {
                Some(i) => i,
                None => part.len(),
            };
            let token = trim(&slice(part, 0, end));
            if numeral(&token) {
                return Some(token);
            }
        }
    }
    if holds(&t, "power use") || holds(&t, "Power use") {
        let fields = split_words(&t);
        match find_numeral(&fields) {
            Some(i) => {
                return Some(slice(&fields[i], 0, fields[i].len()));
            },
            None => {},
        }
    }
    None
}

/// Reads the power that a package draws from the battery statistics `raw`.
///
/// The figure is taken from the first line that has one: from a line with
/// `Estimated power use`, the numeral between the first colon and the unit
/// `mAh`; else from a line with `power use`, its first numeral. Without
/// such a line the figure is missing.
pub fn parse_power(raw: &str) -> (r: Result<Quantity, AdbError>)
    ensures
        match r {
            Ok(q) => power_usage(raw@) == Some(q@),
            Err(e) => power_usage(raw@) is None && e == AdbError::ParseFailed(
                Missing::PowerFigure,
            ),
        },
{
    let text = chars_of(raw);
    let rows = split_lines(&text);
    let ghost found = lines(raw@).map_values(|l: Seq<char>| power_field(l));
    let mut k: usize = 0;
    while k < rows.len()
        invariant
            k <= rows.len(),
            texts(rows@) == lines(raw@),
            found == lines(raw@).map_values(|l: Seq<char>| power_field(l)),
            forall|j: int| 0 <= j < k ==> found[j] is None,
        decreases rows.len() - k,
    {
        assert(texts(rows@)[k as int] == rows@[k as int]@);
        match power_on(&rows[k]) {
            Some(token) => {
                proof {
                    lemma_first_some_at(found, k as int);
                }
                return Ok(Quantity::reading(&token, 1));
            },
            None => {},
        }
        k += 1;
    }
    proof {
        lemma_first_some_none(found);
    }
    Err(AdbError::ParseFailed(Missing::PowerFigure))
}

/// The current on the line `row`.
fn current_on(row: &Vec<char>) -> (r: Option<Vec<char>>)
    ensures
        match r {
            Some(t) => current_field(row@) == Some(t@),
            None => current_field(row@) is None,
        },
{
    let t = trim(row);
    if starts_with(&t, &chars_of("current now:")) {
        let parts = split(&t, ':');
        if parts.len() >= 2 {
            assert(texts(parts@)[1] == parts@[1]@);
            let token = trim(&parts[1]);
            if numeral(&token) && exceeds_hundred(&token) {
                return Some(token);
            }
        }
    }
    None
}

/// Reads the current that leaves the battery, in milliamperes, from the
/// battery report `raw`.
///
/// It is taken from the first line that begins with `current now:` and
/// holds, behind the colon, a numeral whose magnitude is greater than 100:
/// that numeral, which is in microamperes, over 1000. A current of 100
/// microamperes or less is not accepted. Without such a line the figure is
/// missing.
pub fn parse_current(raw: &str) -> (r: Result<Quantity, AdbError>)
    ensures
        match r {
            Ok(q) => battery_current(raw@) == Some(q@),
            Err(e) => battery_current(raw@) is None && e == AdbError::ParseFailed(
                Missing::PowerFigure,
            ),
        },
{
    let text = chars_of(raw);
    let rows = split_lines(&text);
    let ghost found = lines(raw@).map_values(|l: Seq<char>| current_field(l));
    let mut k: usize = 0;
    while k < rows.len()
        invariant
            k <= rows.len(),
            texts(rows@) == lines(raw@),
            found == lines(raw@).map_values(|l: Seq<char>| current_field(l)),
            forall|j: int| 0 <= j < k ==> found[j] is None,
        decreases rows.len() - k,
    {
        assert(texts(rows@)[k as int] == rows@[k as int]@);
        match current_on(&rows[k]) {
            Some(token) => {
                proof {
                    lemma_first_some_at(found, k as int);
                }
                return Ok(Quantity::reading(&token, 1000));
            },
            None => {},
        }
        k += 1;
    }
    proof {
        lemma_first_some_none(found);
    }
    Err(AdbError::ParseFailed(Missing::PowerFigure))
}

} // verus!
