//! Character-level primitives for reading diagnostic text.
//!
//! Text is modelled as a sequence of characters. Every executable function
//! here works on a vector of characters and is specified by a function on
//! the vector's view.

use vstd::prelude::*;

verus! {

/// Whether `c` is white space in the sense of the Unicode `White_Space` property.
pub open spec fn is_space(c: char) -> bool {
    let n = c as u32;
    (0x09 <= n <= 0x0D) || n == 0x20 || n == 0x85 || n == 0xA0 || n == 0x1680 || (0x2000 <= n
        <= 0x200A) || n == 0x2028 || n == 0x2029 || n == 0x202F || n == 0x205F || n == 0x3000
}

/// The number of white-space characters that `s` begins with.
pub open spec fn leading_spaces(s: Seq<char>) -> nat
    decreases s.len(),
{
    if s.len() > 0 && is_space(s[0]) {
        1 + leading_spaces(s.drop_first())
    } else {
        0
    }
}

/// The number of white-space characters that `s` ends with.
pub open spec fn trailing_spaces(s: Seq<char>) -> nat
    decreases s.len(),
{
    if s.len() > 0 && is_space(s.last()) {
        1 + trailing_spaces(s.drop_last())
    } else {
        0
    }
}

/// `s` without the white space at either end.
pub open spec fn trimmed(s: Seq<char>) -> Seq<char> {
    let a = leading_spaces(s);
    if a >= s.len() {
        Seq::empty()
    } else {
        s.subrange(a as int, s.len() - trailing_spaces(s))
    }
}

/// The position of the first `c` in `s`, or the length of `s` where there is none.
pub open spec fn index_of(s: Seq<char>, c: char) -> nat
    decreases s.len(),
{
    if s.len() == 0 || s[0] == c {
        0
    } else {
        1 + index_of(s.drop_first(), c)
    }
}

/// The pieces of `s` between occurrences of `c`. There is always at least
/// one piece; a piece may be empty.
pub open spec fn segments(s: Seq<char>, c: char) -> Seq<Seq<char>>
    decreases s.len(),
{
    let i = index_of(s, c);
    if i >= s.len() {
        seq![s]
    } else {
        seq![s.take(i as int)] + segments(s.skip(i as int + 1), c)
    }
}

/// The lines of `s`: its pieces between line feeds. A carriage return before
/// a line feed stays on its line, where it is white space.
pub open spec fn lines(s: Seq<char>) -> Seq<Seq<char>> {
    segments(s, '\n')
}

/// The number of characters before the first white space in `s`.
pub open spec fn word_len(s: Seq<char>) -> nat
    decreases s.len(),
{
    if s.len() == 0 || is_space(s[0]) {
        0
    } else {
        1 + word_len(s.drop_first())
    }
}

/// The words of `s`: its maximal runs of characters that are not white space.
pub open spec fn words(s: Seq<char>) -> Seq<Seq<char>>
    decreases s.len(),
    via words_decreases
{
    if s.len() == 0 {
        Seq::empty()
    } else if is_space(s[0]) {
        words(s.drop_first())
    } else {
        seq![s.take(word_len(s) as int)] + words(s.skip(word_len(s) as int))
    }
}

#[via_fn]
proof fn words_decreases(s: Seq<char>) {
    if s.len() > 0 && !is_space(s[0]) {
        lemma_word_len_bound(s);
    }
}

/// Whether `pat` occurs in `s` as a contiguous run.
pub open spec fn occurs(s: Seq<char>, pat: Seq<char>) -> bool
    decreases s.len(),
{
    pat.is_prefix_of(s) || (s.len() > 0 && occurs(s.drop_first(), pat))
}

/// The position at which `pat` first occurs in `s`, or the length of `s`
/// where it does not occur.
pub open spec fn position_of(s: Seq<char>, pat: Seq<char>) -> nat
    decreases s.len(),
{
    if s.len() == 0 || pat.is_prefix_of(s) {
        0
    } else {
        1 + position_of(s.drop_first(), pat)
    }
}

/// What follows `prefix` in `line` once the white space around the line is
/// removed, where the line begins with `prefix` then.
pub open spec fn after_prefix(line: Seq<char>, prefix: Seq<char>) -> Option<Seq<char>> {
    if prefix.is_prefix_of(trimmed(line)) {
        Some(trimmed(line).skip(prefix.len() as int))
    } else {
        None
    }
}

/// The views of the vectors in `v`, in order.
pub open spec fn texts(v: Seq<Vec<char>>) -> Seq<Seq<char>> {
    Seq::new(v.len(), |i: int| v[i]@)
}

/// A word is no longer than the text it begins, and not empty where the
/// text begins with a character that is no white space.
pub proof fn lemma_word_len_bound(s: Seq<char>)
    ensures
        word_len(s) <= s.len(),
        s.len() > 0 && !is_space(s[0]) ==> word_len(s) >= 1,
    decreases s.len(),
{
    if s.len() > 0 && !is_space(s[0]) {
        lemma_word_len_bound(s.drop_first());
    }
}

/// `String::push` of the standard library appends one character to the string.
pub assume_specification[ String::push ](s: &mut String, c: char)
    ensures
        final(s)@ == old(s)@.push(c),
;

/// Decides [`is_space`].
pub fn space(c: char) -> (b: bool)
    ensures
        b == is_space(c),
{
    let n: u32 = c as u32;
    (0x09 <= n && n <= 0x0D) || n == 0x20 || n == 0x85 || n == 0xA0 || n == 0x1680 || (0x2000
        <= n && n <= 0x200A) || n == 0x2028 || n == 0x2029 || n == 0x202F || n == 0x205F || n
        == 0x3000
}

/// The characters of `s`, in order.
pub fn chars_of(s: &str) -> (v: Vec<char>)
    ensures
        v@ == s@,
{
    let mut v: Vec<char> = Vec::new();
    for c in it: s.chars()
        invariant
            v@ == it.seq().take(it.index()),
            it.seq() == s@,
    {
        v.push(c);
    }
    v
}

/// A string of the characters of `v`, in order.
pub fn string_of(v: &Vec<char>) -> (s: String)
    ensures
        s@ == v@,
{
    let mut s = String::new();
    let mut i: usize = 0;
    while i < v.len()
        invariant
            i <= v.len(),
            s@ == v@.take(i as int),
        decreases v.len() - i,
    {
        s.push(v[i]);
        i += 1;
        assert(s@ =~= v@.take(i as int));
    }
    assert(v@.take(v.len() as int) =~= v@);
    s
}

/// A copy of the characters of `v` from position `from` up to, but without, position `to`.
pub fn slice(v: &Vec<char>, from: usize, to: usize) -> (r: Vec<char>)
    requires
        from <= to <= v.len(),
    ensures
        r@ == v@.subrange(from as int, to as int),
{
    let mut r: Vec<char> = Vec::new();
    let mut i: usize = from;
    while i < to
        invariant
            from <= i <= to <= v.len(),
            r@ == v@.subrange(from as int, i as int),
        decreases to - i,
    {
        r.push(v[i]);
        i += 1;
        assert(r@ =~= v@.subrange(from as int, i as int));
    }
    r
}

/// Removes the white space at both ends.
pub fn trim(v: &Vec<char>) -> (r: Vec<char>)
    ensures
        r@ == trimmed(v@),
{
    let n = v.len();
    let mut a: usize = 0;
    assert(v@.skip(0) =~= v@);
    while a < n && space(v[a])
        invariant
            a <= n == v.len(),
            leading_spaces(v@) == a + leading_spaces(v@.skip(a as int)),
        decreases n - a,
    {
        assert(v@.skip(a as int).drop_first() =~= v@.skip(a + 1));
        a += 1;
    }
    if a == n {
        return Vec::new();
    }
    assert(leading_spaces(v@) == a);
    let mut b: usize = n;
    assert(v@.take(n as int) =~= v@);
    while b > a && space(v[b - 1])
        invariant
            a < b <= n == v.len(),
            !is_space(v@[a as int]),
            trailing_spaces(v@) == (n - b) + trailing_spaces(v@.take(b as int)),
        decreases b,
    {
        assert(v@.take(b as int).drop_last() =~= v@.take(b - 1));
        b -= 1;
    }
    assert(trailing_spaces(v@) == n - b);
    slice(v, a, b)
}

/// Splits at every occurrence of `c`.
pub fn split(v: &Vec<char>, c: char) -> (r: Vec<Vec<char>>)
    ensures
        texts(r@) == segments(v@, c),
        r.len() >= 1,
{
    let n = v.len();
    let mut out: Vec<Vec<char>> = Vec::new();
    let mut start: usize = 0;
    let mut i: usize = 0;
    assert(v@.skip(0) =~= v@);
    assert(texts(out@) + segments(v@, c) =~= segments(v@, c));
    while i < n
        invariant
            start <= i <= n == v.len(),
            segments(v@, c) == texts(out@) + segments(v@.skip(start as int), c),
            index_of(v@.skip(start as int), c) == (i - start) + index_of(v@.skip(i as int), c),
        decreases n - i,
    {
        let ghost rest = v@.skip(start as int);
        assert(v@.skip(i as int).drop_first() =~= v@.skip(i + 1));
        if v[i] == c {
            let piece = slice(v, start, i);
            proof {
                assert(index_of(rest, c) == i - start);
                assert(rest.take(i - start) =~= v@.subrange(start as int, i as int));
                assert(rest.skip(i - start + 1) =~= v@.skip(i + 1));
                assert(texts(out@.push(piece)) =~= texts(out@) + seq![piece@]);
                assert(texts(out@) + (seq![piece@] + segments(v@.skip(i + 1), c)) =~= (texts(out@)
                    + seq![piece@]) + segments(v@.skip(i + 1), c));
            }
            out.push(piece);
            start = i + 1;
            i += 1;
            assert(v@.skip(i as int).skip(0) =~= v@.skip(i as int));
        } else {
            i += 1;
        }
    }
    let piece = slice(v, start, n);
    proof {
        let rest = v@.skip(start as int);
        assert(v@.skip(n as int).len() == 0);
        assert(index_of(rest, c) == n - start);
        assert(rest =~= v@.subrange(start as int, n as int));
        assert(texts(out@.push(piece)) =~= texts(out@) + seq![piece@]);
    }
    out.push(piece);
    out
}

/// Splits into lines.
pub fn split_lines(v: &Vec<char>) -> (r: Vec<Vec<char>>)
    ensures
        texts(r@) == lines(v@),
{
    split(v, '\n')
}

/// Splits into words.
pub fn split_words(v: &Vec<char>) -> (r: Vec<Vec<char>>)
    ensures
        texts(r@) == words(v@),
{
    let n = v.len();
    let mut out: Vec<Vec<char>> = Vec::new();
    let mut i: usize = 0;
    assert(v@.skip(0) =~= v@);
    assert(texts(out@) + words(v@) =~= words(v@));
    while i < n
        invariant
            i <= n == v.len(),
            words(v@) == texts(out@) + words(v@.skip(i as int)),
        decreases n - i,
    {
        if space(v[i]) {
            assert(v@.skip(i as int).drop_first() =~= v@.skip(i + 1));
            i += 1;
        } else {
            let mut j: usize = i;
            while j < n && !space(v[j])
                invariant
                    i <= j <= n == v.len(),
                    word_len(v@.skip(i as int)) == (j - i) + word_len(v@.skip(j as int)),
                decreases n - j,
            {
                assert(v@.skip(j as int).drop_first() =~= v@.skip(j + 1));
                j += 1;
            }
            let piece = slice(v, i, j);
            proof {
                let rest = v@.skip(i as int);
                assert(word_len(rest) == j - i);
                assert(rest.take(j - i) =~= v@.subrange(i as int, j as int));
                assert(rest.skip(j - i) =~= v@.skip(j as int));
                assert(texts(out@.push(piece)) =~= texts(out@) + seq![piece@]);
                assert(texts(out@) + (seq![piece@] + words(v@.skip(j as int))) =~= (texts(out@)
                    + seq![piece@]) + words(v@.skip(j as int)));
            }
            out.push(piece);
            i = j;
        }
    }
    assert(words(v@.skip(n as int)) =~= Seq::<Seq<char>>::empty());
    assert(texts(out@) + Seq::<Seq<char>>::empty() =~= texts(out@));
    out
}

/// Whether `v` begins with `pat`.
pub fn starts_with(v: &Vec<char>, pat: &Vec<char>) -> (b: bool)
    ensures
        b == pat@.is_prefix_of(v@),
{
    starts_with_at(v, 0, pat)
}

/// Whether `pat` stands in `v` at position `at`.
pub fn starts_with_at(v: &Vec<char>, at: usize, pat: &Vec<char>) -> (b: bool)
    requires
        at <= v.len(),
    ensures
        b == pat@.is_prefix_of(v@.skip(at as int)),
{
    let m = pat.len();
    if m > v.len() - at {
        return false;
    }
    let mut k: usize = 0;
    while k < m
        invariant
            k <= m == pat.len(),
            at + m <= v.len(),
            forall|j: int| 0 <= j < k ==> v@[at + j] == pat@[j],
        decreases m - k,
    {
        if v[at + k] != pat[k] {
            assert(v@.skip(at as int).subrange(0, m as int)[k as int] != pat@[k as int]);
            return false;
        }
        k += 1;
    }
    assert(pat@ =~= v@.skip(at as int).subrange(0, m as int));
    true
}

/// Whether `v` ends with `pat`.
pub fn ends_with(v: &Vec<char>, pat: &Vec<char>) -> (b: bool)
    ensures
        b == pat@.is_suffix_of(v@),
{
    let m = pat.len();
    let n = v.len();
    if m > n {
        return false;
    }
    let b = starts_with_at(v, n - m, pat);
    proof {
        assert(v@.skip(n - m).subrange(0, m as int) =~= v@.subrange(n - m, n as int));
    }
    b
}

/// The position at which `pat` first occurs in `v`, if it occurs at all.
pub fn find(v: &Vec<char>, pat: &Vec<char>) -> (r: Option<usize>)
    ensures
        r is Some <==> occurs(v@, pat@),
        r is Some ==> r->0 == position_of(v@, pat@) && r->0 <= v.len() && pat@.is_prefix_of(
            v@.skip(r->0 as int),
        ),
        r is None ==> position_of(v@, pat@) == v.len(),
{
    let n = v.len();
    let mut i: usize = 0;
    assert(v@.skip(0) =~= v@);
    while i < n
        invariant
            i <= n == v.len(),
            occurs(v@, pat@) == occurs(v@.skip(i as int), pat@),
            position_of(v@, pat@) == i + position_of(v@.skip(i as int), pat@),
        decreases n - i,
    {
        if starts_with_at(v, i, pat) {
            return Some(i);
        }
        assert(v@.skip(i as int).drop_first() =~= v@.skip(i + 1));
        i += 1;
    }
    if starts_with_at(v, n, pat) {
        return Some(n);
    }
    None
}

/// Whether `pat` occurs in `v`.
pub fn contains(v: &Vec<char>, pat: &Vec<char>) -> (b: bool)
    ensures
        b == occurs(v@, pat@),
{
    find(v, pat).is_some()
}

/// Whether `a` and `b` hold the same characters.
pub fn same(a: &Vec<char>, b: &Vec<char>) -> (r: bool)
    ensures
        r == (a@ == b@),
{
    if a.len() != b.len() {
        return false;
    }
    let r = starts_with_at(a, 0, b);
    proof {
        assert(a@.skip(0) =~= a@);
        assert(a@.subrange(0, b@.len() as int) =~= a@);
    }
    r
}

/// What follows `prefix` in `v`, where `v` begins with `prefix`.
pub fn strip_prefix(v: &Vec<char>, prefix: &Vec<char>) -> (r: Option<Vec<char>>)
    ensures
        match r {
            Some(rest) => prefix@.is_prefix_of(v@) && rest@ == v@.skip(prefix@.len() as int),
            None => !prefix@.is_prefix_of(v@),
        },
{
    if starts_with(v, prefix) {
        Some(slice(v, prefix.len(), v.len()))
    } else {
        None
    }
}

/// What follows `prefix` in the trimmed `line`, where that begins with `prefix`.
pub fn rest_after(line: &Vec<char>, prefix: &str) -> (r: Option<Vec<char>>)
    ensures
        match r {
            Some(rest) => after_prefix(line@, prefix@) == Some(rest@),
            None => after_prefix(line@, prefix@) is None,
        },
{
    let t = trim(line);
    strip_prefix(&t, &chars_of(prefix))
}

/// Whether `pat` occurs in `v`.
pub fn holds(v: &Vec<char>, pat: &str) -> (b: bool)
    ensures
        b == occurs(v@, pat@),
{
    contains(v, &chars_of(pat))
}

} // verus!
