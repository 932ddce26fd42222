//! The memory a package uses, read from a memory report.

use crate::error::{AdbError, Missing};
use crate::numeral::{find_numeral, first_numeral};
use crate::quantity::{Amount, Quantity};
use crate::select::{first_some, lemma_first_some_at, lemma_first_some_none};
use crate::text::{chars_of, holds, lines, occurs, split_lines, split_words, texts, words};
use vstd::prelude::*;

verus! {

/// The figure on `line`: its first numeral, where the line holds the word `TOTAL`.
pub open spec fn memory_field(line: Seq<char>) -> Option<Seq<char>> {
    if occurs(line, "TOTAL"@) {
        first_numeral(words(line))
    } else {
        None
    }
}

/// The memory in use according to the report `text`, in megabytes: the
/// figure of the first line that has one, which is in kilobytes, over 1024.
pub open spec fn memory_usage(text: Seq<char>) -> Option<Amount> {
    match first_some(lines(text).map_values(|l: Seq<char>| memory_field(l))) {
        Some(t) => Some(Amount::Reading { numeral: t, divisor: 1024 }),
        None => None,
    }
}

/// Reads the memory in use, in megabytes, from the memory report `raw`.
///
/// It is the first numeral of the first line that holds `TOTAL` and a
/// numeral, over 1024. Without such a line the total is missing.
pub fn parse_memory(raw: &str) -> (r: Result<Quantity, AdbError>)
    ensures
        match r {
            Ok(q) => memory_usage(raw@) == Some(q@),
            Err(e) => memory_usage(raw@) is None && e == AdbError::ParseFailed(
                Missing::MemoryTotal,
            ),
        },
{
    let text = chars_of(raw);
    let rows = split_lines(&text);
    let ghost found = lines(raw@).map_values(|l: Seq<char>| memory_field(l));
    let mut k: usize = 0;
    while k < rows.len()
        invariant
            k <= rows.len(),
            texts(rows@) == lines(raw@),
            found == lines(raw@).map_values(|l: Seq<char>| memory_field(l)),
            forall|j: int| 0 <= j < k ==> found[j] is None,
        decreases rows.len() - k,
    {
        assert(texts(rows@)[k as int] == rows@[k as int]@);
        if holds(&rows[k], "TOTAL") {
            let fields = split_words(&rows[k]);
            match find_numeral(&fields) {
                Some(i) => {
                    proof {
                        lemma_first_some_at(found, k as int);
                    }
                    return Ok(Quantity::reading(&fields[i], 1024));
                },
                None => {},
            }
        }
        k += 1;
    }
    proof {
        lemma_first_some_none(found);
    }
    Err(AdbError::ParseFailed(Missing::MemoryTotal))
}

} // verus!
