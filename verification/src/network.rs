//! The bytes that went through the wireless or mobile interface of the
//! device, read from the interface table.

use crate::error::{AdbError, Missing};
use crate::numeral::{parse_u64, unsigned_of};
use crate::quantity::{Amount, Quantity};
use crate::select::{first_some, lemma_first_some_at, lemma_first_some_none};
use crate::text::{chars_of, holds, lines, occurs, split_lines, split_words, texts, words};
use vstd::prelude::*;

verus! {

/// The byte counter that `t` spells; zero where it spells none that fits 64 bits.
pub open spec fn counter_of(t: Seq<char>) -> nat {
    match unsigned_of(t, u64::MAX as nat) {
        Some(n) => n,
        None => 0,
    }
}

/// The bytes received and sent according to `line`: the sum of its second
/// and tenth fields, where the line names `wlan0` or `rmnet` and has at
/// least seventeen fields.
pub open spec fn interface_total(line: Seq<char>) -> Option<nat> {
    let w = words(line);
    if (occurs(line, "wlan0"@) || occurs(line, "rmnet"@)) && w.len() >= 17 {
        Some(counter_of(w[1]) + counter_of(w[9]))
    } else {
        None
    }
}

/// The traffic according to the interface table `text`, in kilobytes: the
/// bytes of the first line that has them, over 1024. This is a running
/// total since the interface came up, not a rate.
pub open spec fn network_total(text: Seq<char>) -> Option<Amount> {
    match first_some(lines(text).map_values(|l: Seq<char>| interface_total(l))) {
        Some(n) => Some(Amount::Ratio { numerator: n, denominator: 1024 }),
        None => None,
    }
}

/// Reads the byte counter in `token`; zero where there is none.
pub fn counter(token: &Vec<char>) -> (n: u64)
    ensures
        n == counter_of(token@),
{
    match parse_u64(token) {
        Some(n) => n,
        None => 0,
    }
}

/// Reads the traffic of the device, in kilobytes, from the interface table `raw`.
///
/// It is taken from the first line that names `wlan0` or `rmnet` and has at
/// least seventeen fields: bytes received and bytes sent, added up, over
/// 1024. Without such a line the counters are missing.
pub fn parse_network(raw: &str) -> (r: Result<Quantity, AdbError>)
    ensures
        match r {
            Ok(q) => network_total(raw@) == Some(q@),
            Err(e) => network_total(raw@) is None && e == AdbError::ParseFailed(
                Missing::InterfaceCounters,
            ),
        },
{
    let text = chars_of(raw);
    let rows = split_lines(&text);
    let ghost found = lines(raw@).map_values(|l: Seq<char>| interface_total(l));
    let mut k: usize = 0;
    while k < rows.len()
        invariant
            k <= rows.len(),
            texts(rows@) == lines(raw@),
            found == lines(raw@).map_values(|l: Seq<char>| interface_total(l)),
            forall|j: int| 0 <= j < k ==> found[j] is None,
        decreases rows.len() - k,
    {
        assert(texts(rows@)[k as int] == rows@[k as int]@);
        if holds(&rows[k], "wlan0") || holds(&rows[k], "rmnet") {
            let fields = split_words(&rows[k]);
            if fields.len() >= 17 {
                assert(texts(fields@)[1] == fields@[1]@);
                assert(texts(fields@)[9] == fields@[9]@);
                let rx = counter(&fields[1]);
                let tx = counter(&fields[9]);
                proof {
                    lemma_first_some_at(found, k as int);
                }
                return Ok(Quantity::ratio(rx as u128 + tx as u128, 1024));
            }
        }
        k += 1;
    }
    proof {
        lemma_first_some_none(found);
    }
    Err(AdbError::ParseFailed(Missing::InterfaceCounters))
}

} // verus!
