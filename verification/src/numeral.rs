//! Decimal digits, unsigned integers and the numerals found in diagnostic text.

use crate::select::{first_some, lemma_first_some_at, lemma_first_some_none};
use crate::text::texts;
use vstd::prelude::*;

verus! {

/// Whether `c` is one of the ten decimal digits.
pub open spec fn is_digit(c: char) -> bool {
    0x30 <= c as u32 <= 0x39
}

/// The number that the digit `c` stands for; zero for any other character.
pub open spec fn digit_of(c: char) -> nat {
    if is_digit(c) {
        (c as u32 - 0x30) as nat
    } else {
        0
    }
}

/// Whether every character of `s` is a decimal digit.
pub open spec fn all_digits(s: Seq<char>) -> bool {
    forall|i: int| 0 <= i < s.len() ==> is_digit(#[trigger] s[i])
}

/// The number that `s` denotes when read as decimal digits.
pub open spec fn digits_value(s: Seq<char>) -> nat
    decreases s.len(),
{
    if s.len() == 0 {
        0
    } else {
        10 * digits_value(s.drop_last()) + digit_of(s.last())
    }
}

/// The number of decimal digits that `s` begins with.
pub open spec fn digit_run(s: Seq<char>) -> nat
    decreases s.len(),
{
    if s.len() > 0 && is_digit(s[0]) {
        1 + digit_run(s.drop_first())
    } else {
        0
    }
}

/// `s` without a plus sign in front.
pub open spec fn without_plus(s: Seq<char>) -> Seq<char> {
    if s.len() > 0 && s[0] == '+' {
        s.drop_first()
    } else {
        s
    }
}

/// The unsigned integer that `s` spells, where it spells one no greater than
/// `max`: an optional plus sign, then one or more decimal digits.
pub open spec fn unsigned_of(s: Seq<char>, max: nat) -> Option<nat> {
    let d = without_plus(s);
    if d.len() > 0 && all_digits(d) && digits_value(d) <= max {
        Some(digits_value(d))
    } else {
        None
    }
}

/// A prefix of a digit string denotes no more than the whole string.
pub proof fn lemma_value_of_prefix(s: Seq<char>, k: int)
    requires
        0 <= k <= s.len(),
    ensures
        digits_value(s.take(k)) <= digits_value(s),
    decreases s.len(),
{
    if k == s.len() {
        assert(s.take(k) =~= s);
    } else {
        lemma_value_of_prefix(s.drop_last(), k);
        assert(s.drop_last().take(k) =~= s.take(k));
    }
}

/// The digit run of `s` has the length of `s` exactly where `s` is all digits.
pub proof fn lemma_digit_run(s: Seq<char>)
    ensures
        digit_run(s) <= s.len(),
        all_digits(s.take(digit_run(s) as int)),
        digit_run(s) < s.len() ==> !is_digit(s[digit_run(s) as int]),
        all_digits(s) <==> digit_run(s) == s.len(),
    decreases s.len(),
{
    if s.len() > 0 && is_digit(s[0]) {
        let t = s.drop_first();
        lemma_digit_run(t);
        let k = digit_run(s) as int;
        assert forall|i: int| 0 <= i < k implies is_digit(#[trigger] s.take(k)[i]) by {
            if i > 0 {
                assert(s.take(k)[i] == t.take(k - 1)[i - 1]);
            }
        }
        if all_digits(s) {
            assert forall|i: int| 0 <= i < t.len() implies is_digit(#[trigger] t[i]) by {
                assert(t[i] == s[i + 1]);
            }
        }
        if digit_run(s) == s.len() {
            assert(s.take(k) =~= s);
        }
    } else if s.len() > 0 {
        assert(!is_digit(s[0]));
    }
}

/// Decides [`is_digit`].
pub fn digit(c: char) -> (b: bool)
    ensures
        b == is_digit(c),
{
    let n: u32 = c as u32;
    0x30 <= n && n <= 0x39
}

/// The number of decimal digits that stand in `v` from position `from` on.
pub fn count_digits(v: &Vec<char>, from: usize) -> (k: usize)
    requires
        from <= v.len(),
    ensures
        k == digit_run(v@.skip(from as int)),
        from + k <= v.len(),
{
    let n = v.len();
    let mut i: usize = from;
    while i < n && digit(v[i])
        invariant
            from <= i <= n == v.len(),
            digit_run(v@.skip(from as int)) == (i - from) + digit_run(v@.skip(i as int)),
        decreases n - i,
    {
        assert(v@.skip(i as int).drop_first() =~= v@.skip(i + 1));
        i += 1;
    }
    i - from
}

/// Reads the characters of `v` from position `from` on as decimal digits.
/// Gives the number where they are all digits and denote no more than `max`.
pub fn number_within(v: &Vec<char>, from: usize, max: u128) -> (r: Option<u128>)
    requires
        from <= v.len(),
    ensures
        r == (if all_digits(v@.skip(from as int)) && digits_value(v@.skip(from as int)) <= max {
            Some(digits_value(v@.skip(from as int)) as u128)
        } else {
            None
        }),
{
    let n = v.len();
    let ghost d = v@.skip(from as int);
    let mut acc: u128 = 0;
    let mut i: usize = from;
    assert(d.take(0) =~= Seq::<char>::empty());
    while i < n
        invariant
            from <= i <= n == v.len(),
            d == v@.skip(from as int),
            all_digits(d.take(i - from)),
            acc == digits_value(d.take(i - from)),
            acc <= max,
        decreases n - i,
    {
        let c = v[i];
        let ghost next = d.take(i - from + 1);
        proof {
            assert(next.drop_last() =~= d.take(i - from));
            assert(next.last() == c);
        }
        if !digit(c) {
            assert(!is_digit(d[i - from]));
            return None;
        }
        let x: u128 = (c as u32 - 0x30) as u128;
        if x > max || acc > (max - x) / 10 {
            proof {
                assert(digits_value(next) == 10 * acc + x);
                assert(10 * acc + x > max);
                lemma_value_of_prefix(d, i - from + 1);
            }
            return None;
        }
        acc = acc * 10 + x;
        i += 1;
        proof {
            assert forall|j: int| 0 <= j < next.len() implies is_digit(#[trigger] next[j]) by {
                if j < next.len() - 1 {
                    assert(next[j] == d.take(i - from - 1)[j]);
                }
            }
        }
    }
    assert(d.take(n - from) =~= d);
    Some(acc)
}

/// Reads `v` as an unsigned integer no greater than `max`.
pub fn parse_unsigned(v: &Vec<char>, max: u128) -> (r: Option<u128>)
    ensures
        r == (match unsigned_of(v@, max as nat) {
            Some(n) => Some(n as u128),
            None => None,
        }),
{
    let from: usize = if v.len() > 0 && v[0] == '+' {
        1
    } else {
        0
    };
    assert(v@.skip(from as int) =~= without_plus(v@));
    if from == v.len() {
        return None;
    }
    number_within(v, from, max)
}

/// Reads `v` as an unsigned 64-bit integer.
pub fn parse_u64(v: &Vec<char>) -> (r: Option<u64>)
    ensures
        r == (match unsigned_of(v@, u64::MAX as nat) {
            Some(n) => Some(n as u64),
            None => None,
        }),
{
    match parse_unsigned(v, u64::MAX as u128) {
        Some(n) => Some(n as u64),
        None => None,
    }
}

/// Reads `v` as an unsigned 32-bit integer.
pub fn parse_u32(v: &Vec<char>) -> (r: Option<u32>)
    ensures
        r == (match unsigned_of(v@, u32::MAX as nat) {
            Some(n) => Some(n as u32),
            None => None,
        }),
{
    match parse_unsigned(v, u32::MAX as u128) {
        Some(n) => Some(n as u32),
        None => None,
    }
}

/// Whether `c` is a plus or a minus sign.
pub open spec fn is_sign(c: char) -> bool {
    c == '+' || c == '-'
}

/// `s` without a sign in front.
pub open spec fn unsign(s: Seq<char>) -> Seq<char> {
    if s.len() > 0 && is_sign(s[0]) {
        s.drop_first()
    } else {
        s
    }
}

/// Whether `c` is the lower-case letter `letter` or its upper-case form.
pub open spec fn is_letter(c: char, letter: char) -> bool {
    c == letter || c as u32 + 0x20 == letter as u32
}

/// Whether `s` spells `word`, a word in lower-case letters, in any mix of cases.
pub open spec fn spells(s: Seq<char>, word: Seq<char>) -> bool {
    s.len() == word.len() && forall|i: int| 0 <= i < s.len() ==> is_letter(s[i], word[i])
}

/// Whether `u` names an unbounded value.
pub open spec fn is_infinite(u: Seq<char>) -> bool {
    spells(u, seq!['i', 'n', 'f']) || spells(u, seq!['i', 'n', 'f', 'i', 'n', 'i', 't', 'y'])
}

/// Whether `u` names the undefined value.
pub open spec fn is_undefined(u: Seq<char>) -> bool {
    spells(u, seq!['n', 'a', 'n'])
}

/// The remainder of `u` behind its leading digits.
pub open spec fn after_whole(u: Seq<char>) -> Seq<char> {
    u.skip(digit_run(u) as int)
}

/// Whether a decimal point follows the leading digits of `u`.
pub open spec fn has_point(u: Seq<char>) -> bool {
    after_whole(u).len() > 0 && after_whole(u)[0] == '.'
}

/// The number of digits behind the decimal point of `u`.
pub open spec fn fraction_len(u: Seq<char>) -> nat {
    if has_point(u) {
        digit_run(after_whole(u).drop_first())
    } else {
        0
    }
}

/// The length of the part of `u` that holds digits and point.
pub open spec fn mantissa_len(u: Seq<char>) -> nat {
    if has_point(u) {
        digit_run(u) + 1 + fraction_len(u)
    } else {
        digit_run(u)
    }
}

/// The digits of `u` before and behind the point, as one string.
pub open spec fn mantissa_digits(u: Seq<char>) -> Seq<char> {
    if has_point(u) {
        u.take(digit_run(u) as int) + after_whole(u).drop_first().take(fraction_len(u) as int)
    } else {
        u.take(digit_run(u) as int)
    }
}

/// The part of `u` behind digits and point.
pub open spec fn exponent_part(u: Seq<char>) -> Seq<char> {
    u.skip(mantissa_len(u) as int)
}

/// Whether `x` is an exponent: the letter `e` in either case, an optional
/// sign, and one or more digits.
pub open spec fn is_exponent(x: Seq<char>) -> bool {
    &&& x.len() >= 2
    &&& is_letter(x[0], 'e')
    &&& unsign(x.drop_first()).len() > 0
    &&& all_digits(unsign(x.drop_first()))
}

/// Whether `u` is a decimal number without sign: digits with an optional
/// point among them, at least one digit in all, and an optional exponent.
pub open spec fn is_decimal(u: Seq<char>) -> bool {
    &&& digit_run(u) + fraction_len(u) >= 1
    &&& (exponent_part(u).len() == 0 || is_exponent(exponent_part(u)))
}

/// Whether `s` is a numeral: an optional sign, then a decimal number or, in
/// any mix of cases, one of the words `inf`, `infinity` and `nan`.
pub open spec fn is_numeral(s: Seq<char>) -> bool {
    is_infinite(unsign(s)) || is_undefined(unsign(s)) || is_decimal(unsign(s))
}

/// Whether `s` begins with a minus sign.
pub open spec fn has_minus(s: Seq<char>) -> bool {
    s.len() > 0 && s[0] == '-'
}

/// The power of ten that the exponent `x` denotes, zero where `x` is empty.
pub open spec fn exponent_of(x: Seq<char>) -> int {
    if x.len() == 0 {
        0
    } else if has_minus(x.drop_first()) {
        -(digits_value(unsign(x.drop_first())) as int)
    } else {
        digits_value(unsign(x.drop_first())) as int
    }
}

/// The integer that the digits of the decimal number `u` denote, point left out.
pub open spec fn mantissa(u: Seq<char>) -> nat {
    digits_value(mantissa_digits(u))
}

/// The power of ten by which the mantissa of `u` is scaled: `u` denotes
/// `mantissa(u)` times ten to the power `scale(u)`.
pub open spec fn scale(u: Seq<char>) -> int {
    exponent_of(exponent_part(u)) - fraction_len(u)
}

/// Where the parts of a numeral stand in its text.
pub struct Layout {
    /// Where the text behind the sign begins.
    pub start: usize,
    /// The number of digits before the point.
    pub whole: usize,
    /// Whether there is a point.
    pub point: bool,
    /// The number of digits behind the point.
    pub fraction: usize,
    /// Where the text behind digits and point begins.
    pub rest: usize,
}

/// Whether `l` says where the parts of `s` stand.
pub open spec fn laid_out(s: Seq<char>, l: Layout) -> bool {
    let u = unsign(s);
    &&& l.start + u.len() == s.len()
    &&& u == s.skip(l.start as int)
    &&& l.whole == digit_run(u)
    &&& l.point == has_point(u)
    &&& l.fraction == fraction_len(u)
    &&& l.rest == l.start + mantissa_len(u)
    &&& l.rest <= s.len()
    &&& exponent_part(u) == s.skip(l.rest as int)
}

/// Decides [`is_letter`] for a lower-case letter.
pub fn letter(c: char, lower: char) -> (b: bool)
    ensures
        b == is_letter(c, lower),
{
    c == lower || (c as u32) + 0x20 == lower as u32
}

/// Whether the characters of `v` from position `from` on spell `word`.
pub fn spells_from(v: &Vec<char>, from: usize, word: &Vec<char>) -> (b: bool)
    requires
        from <= v.len(),
    ensures
        b == spells(v@.skip(from as int), word@),
{
    let m = word.len();
    if v.len() - from != m {
        return false;
    }
    let mut k: usize = 0;
    while k < m
        invariant
            k <= m == word.len(),
            from + m == v.len(),
            forall|j: int| 0 <= j < k ==> is_letter(v@.skip(from as int)[j], word@[j]),
        decreases m - k,
    {
        if !letter(v[from + k], word[k]) {
            assert(!is_letter(v@.skip(from as int)[k as int], word@[k as int]));
            return false;
        }
        k += 1;
    }
    true
}

/// Finds the parts of `v` read as a signed decimal number.
pub fn layout(v: &Vec<char>) -> (l: Layout)
    ensures
        laid_out(v@, l),
{
    let n = v.len();
    let start: usize = if n > 0 && (v[0] == '+' || v[0] == '-') {
        1
    } else {
        0
    };
    let ghost u = unsign(v@);
    assert(u =~= v@.skip(start as int));
    let whole = count_digits(v, start);
    let dot = start + whole;
    assert(after_whole(u) =~= v@.skip(dot as int));
    if dot < n && v[dot] == '.' {
        assert(after_whole(u).drop_first() =~= v@.skip(dot + 1));
        let fraction = count_digits(v, dot + 1);
        assert(exponent_part(u) =~= v@.skip(dot + 1 + fraction));
        Layout { start, whole, point: true, fraction, rest: dot + 1 + fraction }
    } else {
        Layout { start, whole, point: false, fraction: 0, rest: dot }
    }
}

/// Whether the characters of `v` from position `at` on are an exponent.
pub fn exponent_at(v: &Vec<char>, at: usize) -> (b: bool)
    requires
        at <= v.len(),
    ensures
        b == is_exponent(v@.skip(at as int)),
{
    let n = v.len();
    let ghost x = v@.skip(at as int);
    if n - at < 2 || !letter(v[at], 'e') {
        return false;
    }
    let from: usize = if v[at + 1] == '+' || v[at + 1] == '-' {
        at + 2
    } else {
        at + 1
    };
    assert(x.drop_first() =~= v@.skip(at + 1));
    assert(unsign(x.drop_first()) =~= v@.skip(from as int));
    let k = count_digits(v, from);
    proof {
        lemma_digit_run(v@.skip(from as int));
    }
    k > 0 && from + k == n
}

/// Decides [`is_numeral`].
pub fn numeral(v: &Vec<char>) -> (b: bool)
    ensures
        b == is_numeral(v@),
{
    let l = layout(v);
    if spells_from(v, l.start, &vec!['i', 'n', 'f']) || spells_from(
        v,
        l.start,
        &vec!['i', 'n', 'f', 'i', 'n', 'i', 't', 'y'],
    ) || spells_from(v, l.start, &vec!['n', 'a', 'n']) {
        return true;
    }
    if l.whole == 0 && l.fraction == 0 {
        return false;
    }
    l.rest == v.len() || exponent_at(v, l.rest)
}

/// Ten to the power `n`.
pub open spec fn pow10(n: nat) -> nat
    decreases n,
{
    if n == 0 {
        1
    } else {
        10 * pow10((n - 1) as nat)
    }
}

/// Whether `m` times ten to the power `scale` is greater than `bound`.
pub open spec fn above(m: nat, scale: int, bound: nat) -> bool {
    if scale >= 0 {
        m * pow10(scale as nat) > bound
    } else {
        m > bound * pow10((-scale) as nat)
    }
}

/// Whether the numeral `s` denotes a value whose magnitude is greater than
/// `bound`. The undefined value is not.
pub open spec fn magnitude_above(s: Seq<char>, bound: nat) -> bool {
    let u = unsign(s);
    is_infinite(u) || (is_decimal(u) && above(mantissa(u), scale(u), bound))
}

/// Whether the numeral `s` denotes a value whose magnitude is greater than
/// one hundred.
pub open spec fn magnitude_above_hundred(s: Seq<char>) -> bool {
    magnitude_above(s, 100)
}

/// `t` where it is a numeral.
pub open spec fn numeral_of(t: Seq<char>) -> Option<Seq<char>> {
    if is_numeral(t) {
        Some(t)
    } else {
        None
    }
}

/// The first numeral among `w`.
pub open spec fn first_numeral(w: Seq<Seq<char>>) -> Option<Seq<char>> {
    first_some(w.map_values(|t: Seq<char>| numeral_of(t)))
}

/// Whether the numeral `s` denotes a value greater than one hundred.
pub open spec fn above_hundred(s: Seq<char>) -> bool {
    !has_minus(s) && magnitude_above_hundred(s)
}

/// Whether the numeral `s` denotes a value less than zero.
pub open spec fn below_zero(s: Seq<char>) -> bool {
    let u = unsign(s);
    has_minus(s) && (is_infinite(u) || (is_decimal(u) && mantissa(u) > 0))
}

/// A power of ten is at least one, and the powers of a sum of exponents multiply.
pub proof fn lemma_pow10_adds(a: nat, b: nat)
    ensures
        pow10(a + b) == pow10(a) * pow10(b),
        pow10(a) >= 1,
    decreases a,
{
    if a > 0 {
        lemma_pow10_adds((a - 1) as nat, b);
        assert(pow10(a + b) == 10 * pow10((a - 1 + b) as nat));
        assert(10 * (pow10((a - 1) as nat) * pow10(b)) == (10 * pow10((a - 1) as nat)) * pow10(b))
            by (nonlinear_arith);
    } else {
        assert(pow10(a) * pow10(b) == pow10(b)) by (nonlinear_arith)
            requires
                pow10(a) == 1,
        ;
    }
}

/// A greater exponent gives a greater power of ten, by a factor of ten at least.
pub proof fn lemma_pow10_grows(a: nat, b: nat)
    requires
        a <= b,
    ensures
        pow10(a) <= pow10(b),
        a < b ==> 10 * pow10(a) <= pow10(b),
    decreases b,
{
    lemma_pow10_adds(a, 0);
    if a < b {
        lemma_pow10_grows(a, (b - 1) as nat);
    }
}

/// The digits zero and one are the characters that stand for them.
pub proof fn lemma_digit_of(c: char)
    requires
        is_digit(c),
    ensures
        digit_of(c) <= 9,
        digit_of(c) == 0 <==> c == '0',
        digit_of(c) == 1 <==> c == '1',
{
    let u = c as u32;
    assert(u as char == c);
    assert('0' as u32 == 0x30);
    assert('1' as u32 == 0x31);
}

/// Zeros in front do not change what a digit string denotes.
pub proof fn lemma_skip_zeros(d: Seq<char>, z: int)
    requires
        0 <= z <= d.len(),
        forall|j: int| 0 <= j < z ==> d[j] == '0',
    ensures
        digits_value(d) == digits_value(d.skip(z)),
    decreases d.len(),
{
    if d.len() > 0 {
        let t = d.drop_last();
        if z == d.len() {
            lemma_skip_zeros(t, z - 1);
            assert(t.skip(z - 1).len() == 0);
            assert(d.last() == '0');
        } else {
            lemma_skip_zeros(t, z);
            assert(d.skip(z).drop_last() =~= t.skip(z));
        }
    }
}

/// A digit string of `n` digits that does not begin with a zero denotes a
/// number from ten to the power `n - 1` up to, but without, ten to the power
/// `n`, and the least of them exactly where it is a one followed by zeros.
pub proof fn lemma_significant(d: Seq<char>)
    requires
        d.len() >= 1,
        all_digits(d),
        d[0] != '0',
    ensures
        pow10((d.len() - 1) as nat) <= digits_value(d) < pow10(d.len()),
        digits_value(d) == pow10((d.len() - 1) as nat) <==> (d[0] == '1' && forall|j: int|
            1 <= j < d.len() ==> d[j] == '0'),
    decreases d.len(),
{
    let t = d.drop_last();
    let x = digit_of(d.last());
    assert(is_digit(d[0]));
    assert(is_digit(d.last()));
    assert(digits_value(d) == 10 * digits_value(t) + x);
    lemma_digit_of(d.last());
    if d.len() == 1 {
        assert(digits_value(t) == 0);
        assert(pow10(0) == 1);
        assert(pow10(1) == 10 * pow10(0));
    } else {
        assert forall|i: int| 0 <= i < t.len() implies is_digit(#[trigger] t[i]) by {
            assert(t[i] == d[i]);
        }
        lemma_significant(t);
        assert(pow10((d.len() - 1) as nat) == 10 * pow10((d.len() - 2) as nat));
        assert(pow10(d.len()) == 10 * pow10((d.len() - 1) as nat));
        if digits_value(d) == pow10((d.len() - 1) as nat) {
            assert(digits_value(t) == pow10((t.len() - 1) as nat));
            assert(d.last() == '0');
            assert forall|j: int| 1 <= j < d.len() implies d[j] == '0' by {
                if j < t.len() {
                    assert(t[j] == '0');
                }
            }
        }
        if d[0] == '1' && forall|j: int| 1 <= j < d.len() ==> d[j] == '0' {
            assert(t[0] == '1');
            assert forall|j: int| 1 <= j < t.len() implies t[j] == '0' by {
                assert(t[j] == d[j]);
            }
        }
    }
}

/// How a number of `len` significant digits compares with one hundred once
/// it is scaled: by its order of magnitude, and at the order of one hundred
/// by whether it is a power of ten.
pub proof fn lemma_above_hundred(m: nat, len: nat, scale: int)
    requires
        len >= 1,
        pow10((len - 1) as nat) <= m < pow10(len),
    ensures
        above(m, scale, 100) <==> (len + scale >= 4 || (len + scale == 3 && m != pow10(
            (len - 1) as nat,
        ))),
{
    let low = pow10((len - 1) as nat);
    let high = pow10(len);
    assert(pow10(2) == 100 && pow10(3) == 1000) by {
        reveal_with_fuel(pow10, 4);
    }
    if scale >= 0 {
        let s = scale as nat;
        let p = pow10(s);
        lemma_pow10_adds((len - 1) as nat, s);
        lemma_pow10_adds(len, s);
        lemma_pow10_adds(s, 0);
        assert(low * p <= m * p < high * p) by (nonlinear_arith)
            requires
                low <= m < high,
                p >= 1,
        ;
        if len + scale >= 4 {
            lemma_pow10_grows(3, (len - 1 + s) as nat);
        } else if len + scale <= 2 {
            lemma_pow10_grows(len + s, 2);
        } else {
            assert(low * p == 100);
            assert(m * p > low * p <==> m > low) by (nonlinear_arith)
                requires
                    p >= 1,
            ;
        }
    } else {
        let s = (-scale) as nat;
        lemma_pow10_adds(2, s);
        assert(100 * pow10(s) == pow10(s + 2));
        if len + scale >= 4 {
            lemma_pow10_grows(s + 2, (len - 1) as nat);
        } else if len + scale <= 2 {
            lemma_pow10_grows(len, s + 2);
        }
    }
}

/// The digits of the mantissa of `v`, whose parts stand as `l` says.
fn mantissa_of(v: &Vec<char>, l: &Layout) -> (d: Vec<char>)
    requires
        laid_out(v@, *l),
    ensures
        d@ == mantissa_digits(unsign(v@)),
        all_digits(d@),
{
    let ghost u = unsign(v@);
    let mut d = crate::text::slice(v, l.start, l.start + l.whole);
    proof {
        lemma_digit_run(u);
        assert(d@ =~= u.take(l.whole as int));
    }
    if l.point {
        let from = l.start + l.whole + 1;
        let ghost f = after_whole(u).drop_first();
        proof {
            lemma_digit_run(f);
            assert(f =~= v@.skip(from as int));
        }
        let mut i: usize = 0;
        while i < l.fraction
            invariant
                i <= l.fraction,
                from + l.fraction <= v.len(),
                f == v@.skip(from as int),
                all_digits(f.take(l.fraction as int)),
                d@ == u.take(l.whole as int) + f.take(i as int),
                all_digits(d@),
            decreases l.fraction - i,
        {
            let c = v[from + i];
            assert(c == f.take(l.fraction as int)[i as int]);
            let ghost before = d@;
            d.push(c);
            i += 1;
            proof {
                assert(d@ =~= u.take(l.whole as int) + f.take(i as int));
                assert forall|j: int| 0 <= j < d@.len() implies is_digit(#[trigger] d@[j]) by {
                    if j < before.len() {
                        assert(d@[j] == before[j]);
                    }
                }
            }
        }
    }
    d
}

/// The number of zeros that the digit string `d` begins with.
fn count_zeros(d: &Vec<char>) -> (z: usize)
    ensures
        z <= d.len(),
        forall|j: int| 0 <= j < z ==> d@[j] == '0',
        z < d.len() ==> d@[z as int] != '0',
{
    let mut z: usize = 0;
    while z < d.len() && d[z] == '0'
        invariant
            z <= d.len(),
            forall|j: int| 0 <= j < z ==> d@[j] == '0',
        decreases d.len() - z,
    {
        z += 1;
    }
    z
}

/// Whether `d` holds a one at position `z` and only zeros behind it.
fn is_unit(d: &Vec<char>, z: usize) -> (b: bool)
    requires
        z < d.len(),
    ensures
        b == (d@[z as int] == '1' && forall|j: int| z < j < d.len() ==> d@[j] == '0'),
{
    if d[z] != '1' {
        return false;
    }
    let mut i: usize = z + 1;
    while i < d.len()
        invariant
            z < i <= d.len(),
            forall|j: int| z < j < i ==> d@[j] == '0',
        decreases d.len() - i,
    {
        if d[i] != '0' {
            return false;
        }
        i += 1;
    }
    true
}

/// The number of significant digits of the mantissa of `v`, and whether the
/// mantissa is a power of ten.
fn gauge(v: &Vec<char>, l: &Layout) -> (g: (usize, bool))
    requires
        laid_out(v@, *l),
    ensures
        g.0 == 0 <==> mantissa(unsign(v@)) == 0,
        g.0 >= 1 ==> pow10((g.0 - 1) as nat) <= mantissa(unsign(v@)) < pow10(g.0 as nat),
        g.0 >= 1 ==> (g.1 <==> mantissa(unsign(v@)) == pow10((g.0 - 1) as nat)),
{
    let d = mantissa_of(v, l);
    let z = count_zeros(&d);
    let len = d.len() - z;
    let ghost sig = d@.skip(z as int);
    proof {
        lemma_skip_zeros(d@, z as int);
    }
    if len == 0 {
        assert(digits_value(sig) == 0);
        return (0, false);
    }
    let unit = is_unit(&d, z);
    proof {
        assert forall|i: int| 0 <= i < sig.len() implies is_digit(#[trigger] sig[i]) by {
            assert(sig[i] == d@[z + i]);
        }
        lemma_significant(sig);
        lemma_pow10_adds((len - 1) as nat, 0);
        if unit {
            assert forall|j: int| 1 <= j < sig.len() implies sig[j] == '0' by {
                assert(sig[j] == d@[z + j]);
            }
        }
        if sig[0] == '1' && forall|j: int| 1 <= j < sig.len() ==> sig[j] == '0' {
            assert forall|j: int| z < j < d@.len() implies d@[j] == '0' by {
                assert(sig[j - z] == d@[j]);
            }
        }
    }
    (len, unit)
}

/// The greatest magnitude of an exponent that is read exactly.
pub open spec fn exponent_limit() -> nat {
    0x1_0000_0000_0000_0000_0000_0000
}

/// The exponent that stands in `v` from position `at` on: whether it is
/// negative, and its magnitude where that is within [`exponent_limit`].
fn read_exponent(v: &Vec<char>, at: usize) -> (r: (bool, Option<u128>))
    requires
        at <= v.len(),
        at == v.len() || is_exponent(v@.skip(at as int)),
    ensures
        ({
            let e = exponent_of(v@.skip(at as int));
            let size = if e < 0 {
                -e
            } else {
                e
            };
            &&& r.0 ==> e <= 0
            &&& !r.0 ==> e >= 0
            &&& r.1 == (if size <= exponent_limit() {
                Some(size as u128)
            } else {
                None
            })
        }),
{
    if at == v.len() {
        return (false, Some(0));
    }
    let ghost x = v@.skip(at as int);
    let minus = v[at + 1] == '-';
    let from: usize = if v[at + 1] == '+' || v[at + 1] == '-' {
        at + 2
    } else {
        at + 1
    };
    proof {
        assert(x.drop_first() =~= v@.skip(at + 1));
        assert(unsign(x.drop_first()) =~= v@.skip(from as int));
    }
    (minus, number_within(v, from, 0x1_0000_0000_0000_0000_0000_0000u128))
}

/// Decides [`magnitude_above_hundred`].
pub fn exceeds_hundred(v: &Vec<char>) -> (b: bool)
    ensures
        b == magnitude_above_hundred(v@),
{
    let l = layout(v);
    let ghost u = unsign(v@);
    if spells_from(v, l.start, &vec!['i', 'n', 'f']) || spells_from(
        v,
        l.start,
        &vec!['i', 'n', 'f', 'i', 'n', 'i', 't', 'y'],
    ) {
        return true;
    }
    if l.whole == 0 && l.fraction == 0 {
        return false;
    }
    if l.rest != v.len() && !exponent_at(v, l.rest) {
        return false;
    }
    assert(is_decimal(u));
    let (len, unit) = gauge(v, &l);
    if len == 0 {
        assert(0 * pow10(scale(u) as nat) == 0) by (nonlinear_arith);
        return false;
    }
    proof {
        lemma_above_hundred(mantissa(u), len as nat, scale(u));
    }
    let (minus, size) = read_exponent(v, l.rest);
    match size {
        Some(e) => {
            let order: i128 = if minus {
                len as i128 - e as i128 - l.fraction as i128
            } else {
                len as i128 + e as i128 - l.fraction as i128
            };
            order >= 4 || (order == 3 && !unit)
        },
        None => !minus,
    }
}

/// Decides [`below_zero`].
pub fn negative(v: &Vec<char>) -> (b: bool)
    ensures
        b == below_zero(v@),
{
    if v.len() == 0 || v[0] != '-' {
        return false;
    }
    let l = layout(v);
    if spells_from(v, l.start, &vec!['i', 'n', 'f']) || spells_from(
        v,
        l.start,
        &vec!['i', 'n', 'f', 'i', 'n', 'i', 't', 'y'],
    ) {
        return true;
    }
    if l.whole == 0 && l.fraction == 0 {
        return false;
    }
    if l.rest != v.len() && !exponent_at(v, l.rest) {
        return false;
    }
    let (len, _unit) = gauge(v, &l);
    len > 0
}

/// Whether `v` names the undefined value, with or without a sign.
pub fn undefined(v: &Vec<char>) -> (b: bool)
    ensures
        b == is_undefined(unsign(v@)),
{
    let l = layout(v);
    spells_from(v, l.start, &vec!['n', 'a', 'n'])
}

/// The position of the first numeral among `w`.
pub fn find_numeral(w: &Vec<Vec<char>>) -> (r: Option<usize>)
    ensures
        match r {
            Some(k) => k < w.len() && first_numeral(texts(w@)) == Some(w@[k as int]@),
            None => first_numeral(texts(w@)) is None,
        },
{
    let ghost found = texts(w@).map_values(|t: Seq<char>| numeral_of(t));
    let mut k: usize = 0;
    while k < w.len()
        invariant
            k <= w.len(),
            found == texts(w@).map_values(|t: Seq<char>| numeral_of(t)),
            forall|j: int| 0 <= j < k ==> found[j] is None,
        decreases w.len() - k,
    {
        if numeral(&w[k]) {
            proof {
                lemma_first_some_at(found, k as int);
            }
            return Some(k);
        }
        k += 1;
    }
    proof {
        lemma_first_some_none(found);
    }
    None
}

} // verus!
