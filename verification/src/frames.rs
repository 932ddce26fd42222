//! Frames rendered by a package, read from a graphics report.

use crate::error::{AdbError, Missing};
use crate::numeral::{numeral, numeral_of, parse_u32, parse_u64, unsigned_of};
use crate::quantity::{amount_of, plain, Amount, Quantity};
use crate::select::{last_some, lemma_last_some_step};
use crate::text::{
    after_prefix, chars_of, ends_with, lines, rest_after, segments, slice, split, split_lines,
    texts, trim, trimmed,
};
use vstd::prelude::*;

verus! {

/// What a graphics report says of the frames of a package.
#[derive(Debug, Clone, PartialEq, Eq)]
pub struct FrameReport {
    /// The frames rendered since the package started.
    pub total_frames: u64,
    /// How many of them took too long.
    pub janky_frames: Option<u32>,
    /// The time within which nine frames in ten were rendered, in milliseconds.
    pub percentile_90: Option<Quantity>,
    /// The time within which nineteen frames in twenty were rendered, in milliseconds.
    pub percentile_95: Option<Quantity>,
}

/// The count of rendered frames on `line`: the unsigned integer behind the
/// label `Total frames rendered:`.
pub open spec fn frames_field(line: Seq<char>) -> Option<nat> {
    match after_prefix(line, "Total frames rendered:"@) {
        Some(rest) => unsigned_of(trimmed(rest), u64::MAX as nat),
        None => None,
    }
}

/// The count of janky frames on `line`: the unsigned integer behind the
/// label `Janky frames:`, before any parenthesis.
pub open spec fn janky_field(line: Seq<char>) -> Option<nat> {
    match after_prefix(line, "Janky frames:"@) {
        Some(rest) => unsigned_of(trimmed(segments(rest, '(')[0]), u32::MAX as nat),
        None => None,
    }
}

/// The frame time on `line`: the numeral between `label` and the unit `ms`
/// that ends the line.
pub open spec fn percentile_field(line: Seq<char>, label: Seq<char>) -> Option<Seq<char>> {
    match after_prefix(line, label) {
        Some(rest) => if "ms"@.is_suffix_of(rest) {
            numeral_of(trimmed(rest.take(rest.len() - "ms"@.len())))
        } else {
            None
        },
        None => None,
    }
}

/// The count of rendered frames according to the report `text`: that of the
/// last line that has one.
pub open spec fn frame_count(text: Seq<char>) -> Option<nat> {
    last_some(lines(text).map_values(|l: Seq<char>| frames_field(l)))
}

/// The count of janky frames according to the report `text`: that of the
/// last line that has one.
pub open spec fn janky_count(text: Seq<char>) -> Option<nat> {
    last_some(lines(text).map_values(|l: Seq<char>| janky_field(l)))
}

/// The frame time that the report `text` gives under `label`: that of the
/// last line that has one.
pub open spec fn percentile(text: Seq<char>, label: Seq<char>) -> Option<Amount> {
    match last_some(lines(text).map_values(|l: Seq<char>| percentile_field(l, label))) {
        Some(t) => Some(plain(t)),
        None => None,
    }
}

/// The view of an optional count.
pub open spec fn count_of(n: Option<u32>) -> Option<nat> {
    match n {
        Some(n) => Some(n as nat),
        None => None,
    }
}

/// The count of rendered frames on the line `row`.
fn frames_on(row: &Vec<char>) -> (r: Option<u64>)
    ensures
        frames_field(row@) == (match r {
            Some(n) => Some(n as nat),
            None => None,
        }),
{
    match rest_after(row, "Total frames rendered:") {
        Some(rest) => parse_u64(&trim(&rest)),
        None => None,
    }
}

/// The count of janky frames on the line `row`.
fn janky_on(row: &Vec<char>) -> (r: Option<u32>)
    ensures
        janky_field(row@) == count_of(r),
{
    match rest_after(row, "Janky frames:") {
        Some(rest) => {
            let parts = split(&rest, '(');
            assert(texts(parts@)[0] == parts@[0]@);
            parse_u32(&trim(&parts[0]))
        },
        None => None,
    }
}

/// The frame time on the line `row` under `label`.
fn percentile_on(row: &Vec<char>, label: &str) -> (r: Option<Vec<char>>)
    ensures
        match r {
            Some(t) => percentile_field(row@, label@) == Some(t@),
            None => percentile_field(row@, label@) is None,
        },
{
    match rest_after(row, label) {
        Some(rest) => {
            let unit = chars_of("ms");
            if ends_with(&rest, &unit) {
                let token = trim(&slice(&rest, 0, rest.len() - unit.len()));
                if numeral(&token) {
                    Some(token)
                } else {
                    None
                }
            } else {
                None
            }
        },
        None => None,
    }
}

/// Reads the frames of a package from the graphics report `raw`.
///
/// Each field is taken from the last line that has it: the count of frames
/// behind `Total frames rendered:`, the count of janky frames behind
/// `Janky frames:`, the frame times behind `90th percentile:` and
/// `95th percentile:`. Without a count of frames the report is of no use.
pub fn parse_frames(raw: &str) -> (r: Result<FrameReport, AdbError>)
    ensures
        match r {
            Ok(f) => {
                &&& frame_count(raw@) == Some(f.total_frames as nat)
                &&& janky_count(raw@) == count_of(f.janky_frames)
                &&& percentile(raw@, "90th percentile:"@) == amount_of(f.percentile_90)
                &&& percentile(raw@, "95th percentile:"@) == amount_of(f.percentile_95)
            },
            Err(e) => frame_count(raw@) is None && e == AdbError::ParseFailed(
                Missing::FrameCount,
            ),
        },
{
    let text = chars_of(raw);
    let rows = split_lines(&text);
    let ghost totals = lines(raw@).map_values(|l: Seq<char>| frames_field(l));
    let ghost jankies = lines(raw@).map_values(|l: Seq<char>| janky_field(l));
    let ghost ninety = lines(raw@).map_values(
        |l: Seq<char>| percentile_field(l, "90th percentile:"@),
    );
    let ghost ninety_five = lines(raw@).map_values(
        |l: Seq<char>| percentile_field(l, "95th percentile:"@),
    );
    let mut total: Option<u64> = None;
    let mut janky: Option<u32> = None;
    let mut p90: Option<Vec<char>> = None;
    let mut p95: Option<Vec<char>> = None;
    let mut k: usize = 0;
    assert(totals.take(0) =~= Seq::empty());
    assert(jankies.take(0) =~= Seq::empty());
    assert(ninety.take(0) =~= Seq::empty());
    assert(ninety_five.take(0) =~= Seq::empty());
    while k < rows.len()
        invariant
            k <= rows.len(),
            texts(rows@) == lines(raw@),
            totals == lines(raw@).map_values(|l: Seq<char>| frames_field(l)),
            jankies == lines(raw@).map_values(|l: Seq<char>| janky_field(l)),
            ninety == lines(raw@).map_values(
                |l: Seq<char>| percentile_field(l, "90th percentile:"@),
            ),
            ninety_five == lines(raw@).map_values(
                |l: Seq<char>| percentile_field(l, "95th percentile:"@),
            ),
            last_some(totals.take(k as int)) == (match total {
                Some(n) => Some(n as nat),
                None => None,
            }),
            last_some(jankies.take(k as int)) == count_of(janky),
            match last_some(ninety.take(k as int)) {
                Some(t) => p90 is Some && p90->0@ == t,
                None => p90 is None,
            },
            match last_some(ninety_five.take(k as int)) {
                Some(t) => p95 is Some && p95->0@ == t,
                None => p95 is None,
            },
        decreases rows.len() - k,
    {
        assert(texts(rows@)[k as int] == rows@[k as int]@);
        proof {
            lemma_last_some_step(totals, k as int);
            lemma_last_some_step(jankies, k as int);
            lemma_last_some_step(ninety, k as int);
            lemma_last_some_step(ninety_five, k as int);
        }
        match frames_on(&rows[k]) {
            Some(n) => {
                total = Some(n);
            },
            None => {},
        }
        match janky_on(&rows[k]) {
            Some(n) => {
                janky = Some(n);
            },
            None => {},
        }
        match percentile_on(&rows[k], "90th percentile:") {
            Some(t) => {
                p90 = Some(t);
            },
            None => {},
        }
        match percentile_on(&rows[k], "95th percentile:") {
            Some(t) => {
                p95 = Some(t);
            },
            None => {},
        }
        k += 1;
    }
    assert(totals.take(rows.len() as int) =~= totals);
    assert(jankies.take(rows.len() as int) =~= jankies);
    assert(ninety.take(rows.len() as int) =~= ninety);
    assert(ninety_five.take(rows.len() as int) =~= ninety_five);
    match total {
        Some(total_frames) => {
            let percentile_90 = match p90 {
                Some(t) => Some(Quantity::reading(&t, 1)),
                None => None,
            };
            let percentile_95 = match p95 {
                Some(t) => Some(Quantity::reading(&t, 1)),
                None => None,
            };
            Ok(FrameReport { total_frames, janky_frames: janky, percentile_90, percentile_95 })
        },
        None => Err(AdbError::ParseFailed(Missing::FrameCount)),
    }
}

} // verus!
