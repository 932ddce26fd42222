//! The CPU share of a process, read from a process listing.

use crate::error::{AdbError, Missing};
use crate::numeral::{
    above_hundred, below_zero, exceeds_hundred, has_minus, is_numeral, is_undefined,
    magnitude_above, negative, numeral, undefined, unsign,
};
use crate::quantity::{plain, whole, Amount, Quantity};
use crate::select::{
    first_some, lemma_first_some_at, lemma_first_some_is_member, lemma_first_some_none,
};
use crate::text::{chars_of, lines, same, split_lines, split_words, texts, words};
use vstd::prelude::*;

verus! {

/// The CPU figure on `line`: the ninth field, where the line has at least
/// nine fields, the first is `pid` and the ninth is a numeral.
pub open spec fn cpu_field(line: Seq<char>, pid: Seq<char>) -> Option<Seq<char>> {
    let w = words(line);
    if w.len() >= 9 && w[0] == pid && is_numeral(w[8]) {
        Some(w[8])
    } else {
        None
    }
}

/// A share in percent, held to the range from 0 to 100: a value above 100 or
/// undefined counts as 100, one below 0 as 0.
pub open spec fn percent_of(t: Seq<char>) -> Amount {
    if is_undefined(unsign(t)) || above_hundred(t) {
        whole(100)
    } else if below_zero(t) {
        whole(0)
    } else {
        plain(t)
    }
}

/// The CPU share of process `pid` according to the listing `text`: the
/// figure of the first line that has one for `pid`.
pub open spec fn cpu_usage(text: Seq<char>, pid: Seq<char>) -> Option<Amount> {
    match first_some(lines(text).map_values(|l: Seq<char>| cpu_field(l, pid))) {
        Some(t) => Some(percent_of(t)),
        None => None,
    }
}

/// Whether `a` is a defined quantity that is not less than zero.
pub open spec fn not_below_zero(a: Amount) -> bool {
    match a {
        Amount::Reading { numeral, divisor } => divisor >= 1 && is_numeral(numeral)
            && !is_undefined(unsign(numeral)) && !below_zero(numeral),
        Amount::Ratio { numerator, denominator } => denominator >= 1,
    }
}

/// Whether `a` is a defined quantity that is not greater than `bound`.
pub open spec fn not_above(a: Amount, bound: nat) -> bool {
    match a {
        Amount::Reading { numeral, divisor } => divisor >= 1 && is_numeral(numeral)
            && !is_undefined(unsign(numeral)) && (has_minus(numeral) || !magnitude_above(
            numeral,
            bound * divisor,
        )),
        Amount::Ratio { numerator, denominator } => denominator >= 1 && numerator <= bound
            * denominator,
    }
}

/// A share in percent is never below 0 nor above 100, whatever the text said.
pub proof fn lemma_percent_in_range(t: Seq<char>)
    requires
        is_numeral(t),
    ensures
        not_below_zero(percent_of(t)),
        not_above(percent_of(t), 100),
{
}

/// A CPU share that is found lies in the range from 0 to 100.
pub proof fn lemma_cpu_usage_in_range(text: Seq<char>, pid: Seq<char>)
    ensures
        cpu_usage(text, pid) matches Some(a) ==> not_below_zero(a) && not_above(a, 100),
{
    let found = lines(text).map_values(|l: Seq<char>| cpu_field(l, pid));
    lemma_first_some_is_member(found);
    match first_some(found) {
        Some(t) => {
            let k = choose|k: int| 0 <= k < found.len() && found[k] == first_some(found);
            assert(cpu_field(lines(text)[k], pid) == Some(t));
            lemma_percent_in_range(t);
        },
        None => {},
    }
}

/// Holds a share in percent to the range from 0 to 100.
pub fn percent(token: &Vec<char>) -> (q: Quantity)
    ensures
        q@ == percent_of(token@),
        is_numeral(token@) ==> not_below_zero(q@) && not_above(q@, 100),
{
    if undefined(token) || (!(token.len() > 0 && token[0] == '-') && exceeds_hundred(token)) {
        Quantity::ratio(100, 1)
    } else if negative(token) {
        Quantity::ratio(0, 1)
    } else {
        Quantity::reading(token, 1)
    }
}

/// Reads the CPU share of process `pid` from the process listing `raw`.
///
/// The share is that of the first line with at least nine fields whose first
/// field is `pid` and whose ninth is a numeral, held to the range from 0 to
/// 100. Without such a line the share is missing.
pub fn parse_cpu(raw: &str, pid: &str) -> (r: Result<Quantity, AdbError>)
    ensures
        match r {
            Ok(q) => cpu_usage(raw@, pid@) == Some(q@) && not_below_zero(q@) && not_above(
                q@,
                100,
            ),
            Err(e) => cpu_usage(raw@, pid@) is None && e == AdbError::ParseFailed(
                Missing::CpuShare,
            ),
        },
{
    let text = chars_of(raw);
    let wanted = chars_of(pid);
    let rows = split_lines(&text);
    let ghost found = lines(raw@).map_values(|l: Seq<char>| cpu_field(l, pid@));
    let mut k: usize = 0;
    while k < rows.len()
        invariant
            k <= rows.len(),
            texts(rows@) == lines(raw@),
            wanted@ == pid@,
            found == lines(raw@).map_values(|l: Seq<char>| cpu_field(l, pid@)),
            forall|j: int| 0 <= j < k ==> found[j] is None,
        decreases rows.len() - k,
    {
        let fields = split_words(&rows[k]);
        assert(texts(rows@)[k as int] == rows@[k as int]@);
        if fields.len() >= 9 && same(&fields[0], &wanted) && numeral(&fields[8]) {
            proof {
                assert(texts(fields@)[0] == fields@[0]@);
                assert(texts(fields@)[8] == fields@[8]@);
                lemma_first_some_at(found, k as int);
            }
            return Ok(percent(&fields[8]));
        }
        proof {
            if fields.len() >= 9 {
                assert(texts(fields@)[0] == fields@[0]@);
                assert(texts(fields@)[8] == fields@[8]@);
            }
        }
        k += 1;
    }
    proof {
        lemma_first_some_none(found);
    }
    Err(AdbError::ParseFailed(Missing::CpuShare))
}

} // verus!
