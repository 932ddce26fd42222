//! The process of a package, read from the answer to a lookup by name.

use crate::error::{AdbError, Missing};
use crate::text::{chars_of, split_words, string_of, texts, words};
use vstd::prelude::*;

verus! {

/// The process identifier in the answer `text`: its first word.
pub open spec fn first_word(text: Seq<char>) -> Option<Seq<char>> {
    if words(text).len() > 0 {
        Some(words(text)[0])
    } else {
        None
    }
}

/// Reads the process identifier of a package from the answer `raw` to a
/// lookup by name: the first word of the answer. An answer without a word
/// means that no process of the package runs.
pub fn resolve_pid(raw: &str) -> (r: Result<String, AdbError>)
    ensures
        match r {
            Ok(pid) => first_word(raw@) == Some(pid@),
            Err(e) => first_word(raw@) is None && e == AdbError::ParseFailed(Missing::ProcessId),
        },
{
    let fields = split_words(&chars_of(raw));
    if fields.len() > 0 {
        assert(texts(fields@)[0] == fields@[0]@);
        Ok(string_of(&fields[0]))
    } else {
        Err(AdbError::ParseFailed(Missing::ProcessId))
    }
}

} // verus!
