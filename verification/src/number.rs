//! The text that `f64`'s `FromStr` accepts, written as its documented grammar:
//!
//! ```text
//! Float  ::= Sign? ( 'inf' | 'infinity' | 'nan' | Number )
//! Number ::= ( Digit+ | Digit+ '.' Digit* | Digit* '.' Digit+ ) Exp?
//! Exp    ::= 'e' Sign? Digit+
//! Sign   ::= [+-]
//! Digit  ::= [0-9]
//! ```
//!
//! Letters match in either ASCII case. A string of this form is parsed
//! without error (to an infinity where it is too large), so a library
//! function that hands such a string on tells its caller that the parse
//! cannot fail.
use vstd::prelude::*;
use crate::text::is_ascii_digit;

verus! {

pub open spec fn is_sign(c: char) -> bool {
    c == '+' || c == '-'
}

pub open spec fn is_exp_mark(c: char) -> bool {
    c == 'e' || c == 'E'
}

pub open spec fn all_digits(s: Seq<char>) -> bool {
    forall|i: int| 0 <= i < s.len() ==> is_ascii_digit(#[trigger] s[i])
}

/// `Digit+`
pub open spec fn digits1(s: Seq<char>) -> bool {
    s.len() > 0 && all_digits(s)
}

/// `Digit+ | Digit+ '.' Digit* | Digit* '.' Digit+`
pub open spec fn is_mantissa(s: Seq<char>) -> bool {
    ||| digits1(s)
    ||| exists|k: int|
        0 <= k < s.len() && #[trigger] s[k] == '.' && s.len() >= 2 && all_digits(s.take(k))
            && all_digits(s.skip(k + 1))
}

/// `'e' Sign? Digit+`
pub open spec fn is_exponent(s: Seq<char>) -> bool {
    &&& s.len() >= 1
    &&& is_exp_mark(s[0])
    &&& digits1(s.skip(1)) || (s.len() >= 2 && is_sign(s[1]) && digits1(s.skip(2)))
}

/// `Number`
pub open spec fn is_number(s: Seq<char>) -> bool {
    ||| is_mantissa(s)
    ||| exists|k: int| 0 <= k < s.len() && is_mantissa(s.take(k)) && #[trigger] is_exponent(s.skip(k))
}

/// `c` is the lower-case ASCII letter `lower` in either case.
pub open spec fn same_letter(c: char, lower: char) -> bool {
    c == lower || ('a' <= lower <= 'z' && (c as int) + 32 == (lower as int))
}

/// `s` spells `word` (given in lower case) in any mix of ASCII cases.
pub open spec fn spells(s: Seq<char>, word: Seq<char>) -> bool {
    s.len() == word.len() && forall|i: int| 0 <= i < s.len() ==> same_letter(s[i], word[i])
}

/// `'inf' | 'infinity' | 'nan'`
pub open spec fn is_special(s: Seq<char>) -> bool {
    ||| spells(s, seq!['i', 'n', 'f'])
    ||| spells(s, seq!['i', 'n', 'f', 'i', 'n', 'i', 't', 'y'])
    ||| spells(s, seq!['n', 'a', 'n'])
}

/// `s` without a leading sign.
pub open spec fn unsigned_part(s: Seq<char>) -> Seq<char> {
    if s.len() > 0 && is_sign(s[0]) {
        s.skip(1)
    } else {
        s
    }
}

/// `Float`: `s` is text that `f64::from_str` accepts.
pub open spec fn is_float_literal(s: Seq<char>) -> bool {
    is_special(unsigned_part(s)) || is_number(unsigned_part(s))
}

pub open spec fn digit_or_dot(c: char) -> bool {
    is_ascii_digit(c) || c == '.'
}

proof fn lemma_mantissa_chars(s: Seq<char>)
    requires
        is_mantissa(s),
    ensures
        forall|i: int| 0 <= i < s.len() ==> digit_or_dot(#[trigger] s[i]),
        forall|i: int, j: int|
            0 <= i < s.len() && 0 <= j < s.len() && s[i] == '.' && s[j] == '.' ==> i == j,
        exists|i: int| 0 <= i < s.len() && is_ascii_digit(#[trigger] s[i]),
{
    if !digits1(s) {
        let k = choose|k: int|
            0 <= k < s.len() && #[trigger] s[k] == '.' && s.len() >= 2 && all_digits(s.take(k))
                && all_digits(s.skip(k + 1));
        assert forall|i: int| 0 <= i < s.len() && i != k implies is_ascii_digit(#[trigger] s[i]) by {
            if i < k {
                assert(s.take(k)[i] == s[i]);
            } else {
                assert(s.skip(k + 1)[i - k - 1] == s[i]);
            }
        }
        if k > 0 {
            assert(is_ascii_digit(s[0]));
        } else {
            assert(is_ascii_digit(s[1]));
        }
    } else {
        assert(is_ascii_digit(s[0]));
    }
}

/// Whether `s[lo..hi]`, made of digits and dots, is a `Mantissa`.
fn check_mantissa(s: &Vec<char>, lo: usize, hi: usize) -> (r: bool)
    requires
        lo <= hi <= s.len(),
        forall|i: int| lo <= i < hi ==> digit_or_dot(#[trigger] s@[i]),
    ensures
        r == is_mantissa(s@.subrange(lo as int, hi as int)),
{
    let ghost t = s@.subrange(lo as int, hi as int);
    let mut dot: Option<usize> = None;
    let mut has_digit = false;
    let mut i: usize = lo;
    while i < hi
        invariant
            lo <= i <= hi <= s.len(),
            t == s@.subrange(lo as int, hi as int),
            forall|j: int| lo <= j < hi ==> digit_or_dot(#[trigger] s@[j]),
            dot is None ==> forall|j: int| lo <= j < i ==> is_ascii_digit(#[trigger] s@[j]),
            dot matches Some(p) ==> lo <= p < i && s@[p as int] == '.' && forall|j: int|
                lo <= j < i && j != p ==> is_ascii_digit(#[trigger] s@[j]),
            has_digit == exists|j: int| lo <= j < i && is_ascii_digit(#[trigger] s@[j]),
        decreases hi - i,
    {
        if s[i] == '.' {
            if let Some(p) = dot {
                proof {
                    if is_mantissa(t) {
                        lemma_mantissa_chars(t);
                        assert(t[p - lo] == '.' && t[i - lo] == '.');
                    }
                }
                return false;
            }
            dot = Some(i);
        } else {
            has_digit = true;
        }
        i = i + 1;
    }
    proof {
        if is_mantissa(t) {
            lemma_mantissa_chars(t);
            let w = choose|w: int| 0 <= w < t.len() && is_ascii_digit(#[trigger] t[w]);
            assert(is_ascii_digit(s@[lo + w]));
        }
    }
    match dot {
        None => {
            proof {
                if has_digit {
                    assert forall|j: int| 0 <= j < t.len() implies is_ascii_digit(#[trigger] t[j]) by {
                        assert(is_ascii_digit(s@[lo + j]));
                    }
                }
            }
            has_digit
        },
        Some(p) => {
            proof {
                let k = p - lo;
                assert(t[k] == '.');
                assert(!digits1(t)) by {
                    assert(!is_ascii_digit(t[k]));
                }
                if has_digit {
                    let w = choose|w: int| lo <= w < i && is_ascii_digit(#[trigger] s@[w]);
                    assert(w != p);
                    assert(t.len() >= 2);
                    assert forall|j: int| 0 <= j < t.take(k).len() implies is_ascii_digit(
                        #[trigger] t.take(k)[j],
                    ) by {
                        assert(is_ascii_digit(s@[lo + j]));
                    }
                    assert forall|j: int| 0 <= j < t.skip(k + 1).len() implies is_ascii_digit(
                        #[trigger] t.skip(k + 1)[j],
                    ) by {
                        assert(is_ascii_digit(s@[lo + k + 1 + j]));
                    }
                }
            }
            has_digit
        },
    }
}

/// Whether `s[lo..]` is an `Exp`.
fn check_exponent(s: &Vec<char>, lo: usize) -> (r: bool)
    requires
        lo <= s.len(),
    ensures
        r == is_exponent(s@.skip(lo as int)),
{
    let ghost t = s@.skip(lo as int);
    let n = s.len();
    if lo == n || !(s[lo] == 'e' || s[lo] == 'E') {
        return false;
    }
    let mut start = lo + 1;
    if start < n && (s[start] == '+' || s[start] == '-') {
        start = start + 1;
    }
    if start == n {
        proof {
            assert(!digits1(t.skip(1)) || t.len() >= 2);
            if t.len() >= 2 {
                assert(is_sign(t[1]));
                assert(!is_ascii_digit(t.skip(1)[0]));
            }
        }
        return false;
    }
    let mut i = start;
    while i < n
        invariant
            start <= i <= n == s.len(),
            lo < n,
            t == s@.skip(lo as int),
            is_exp_mark(s@[lo as int]),
            (start == lo + 2 && is_sign(s@[lo + 1])) || (start == lo + 1 && !(lo + 1 < n
                && is_sign(s@[lo + 1]))),
            forall|j: int| start <= j < i ==> is_ascii_digit(#[trigger] s@[j]),
        decreases n - i,
    {
        if !('0' <= s[i] && s[i] <= '9') {
            proof {
                assert(!is_ascii_digit(t[i - lo]));
                if digits1(t.skip(1)) {
                    assert(t.skip(1)[i - lo - 1] == t[i - lo]);
                }
                if t.len() >= 2 && is_sign(t[1]) {
                    assert(start == lo + 2);
                    assert(t.skip(2)[i - lo - 2] == t[i - lo]);
                } else {
                    assert(start == lo + 1);
                }
            }
            return false;
        }
        i = i + 1;
    }
    proof {
        if start == lo + 2 {
            assert forall|j: int| 0 <= j < t.skip(2).len() implies is_ascii_digit(
                #[trigger] t.skip(2)[j],
            ) by {
                assert(is_ascii_digit(s@[lo + 2 + j]));
            }
        } else {
            assert forall|j: int| 0 <= j < t.skip(1).len() implies is_ascii_digit(
                #[trigger] t.skip(1)[j],
            ) by {
                assert(is_ascii_digit(s@[lo + 1 + j]));
            }
        }
    }
    true
}

/// Whether `s[lo..]` spells `lower` in any case, where `upper` is `lower`
/// in upper case.
fn check_spells(s: &Vec<char>, lo: usize, lower: &Vec<char>, upper: &Vec<char>) -> (r: bool)
    requires
        lo <= s.len(),
        upper.len() == lower.len(),
        forall|i: int|
            0 <= i < lower.len() ==> 'a' <= #[trigger] lower@[i] <= 'z' && (upper@[i] as int) + 32
                == (lower@[i] as int),
    ensures
        r == spells(s@.skip(lo as int), lower@),
{
    let ghost t = s@.skip(lo as int);
    if s.len() - lo != lower.len() {
        return false;
    }
    let mut i: usize = 0;
    while i < lower.len()
        invariant
            lo + lower.len() == s.len(),
            upper.len() == lower.len(),
            t == s@.skip(lo as int),
            i <= lower.len(),
            forall|j: int|
                0 <= j < lower.len() ==> 'a' <= #[trigger] lower@[j] <= 'z' && (upper@[j] as int)
                    + 32 == (lower@[j] as int),
            forall|j: int| 0 <= j < i ==> same_letter(#[trigger] t[j], lower@[j]),
        decreases lower.len() - i,
    {
        let c = s[lo + i];
        if !(c == lower[i] || c == upper[i]) {
            assert(!same_letter(t[i as int], lower@[i as int]));
            return false;
        }
        assert(same_letter(t[i as int], lower@[i as int]));
        i = i + 1;
    }
    true
}

/// A `Number` splits into its mantissa and exponent where the digits and
/// dots at its start end.
proof fn lemma_number_split(b: Seq<char>, k: int)
    requires
        0 <= k <= b.len(),
        forall|j: int| 0 <= j < k ==> digit_or_dot(#[trigger] b[j]),
        k < b.len() ==> !digit_or_dot(b[k]),
    ensures
        is_number(b) == if k == b.len() {
            is_mantissa(b)
        } else {
            is_mantissa(b.take(k)) && is_exponent(b.skip(k))
        },
{
    assert forall|q: int|
        0 <= q < b.len() && is_mantissa(b.take(q)) && #[trigger] is_exponent(b.skip(q)) implies q
        == k by {
        lemma_mantissa_chars(b.take(q));
        assert(!digit_or_dot(b.skip(q)[0]));
        if q < k {
            assert(b.skip(q)[0] == b[q]);
        }
        if q > k {
            assert(b.take(q)[k] == b[k]);
        }
    }
    if is_mantissa(b) {
        lemma_mantissa_chars(b);
        if k < b.len() {
            assert(digit_or_dot(b[k]));
        }
    }
}

/// Whether `s[lo..]` is `'inf' | 'infinity' | 'nan'` in any case.
fn check_special(s: &Vec<char>, lo: usize) -> (r: bool)
    requires
        lo <= s.len(),
    ensures
        r == is_special(s@.skip(lo as int)),
{
    let inf = vec!['i', 'n', 'f'];
    let inf_upper = vec!['I', 'N', 'F'];
    let infinity = vec!['i', 'n', 'f', 'i', 'n', 'i', 't', 'y'];
    let infinity_upper = vec!['I', 'N', 'F', 'I', 'N', 'I', 'T', 'Y'];
    let nan = vec!['n', 'a', 'n'];
    let nan_upper = vec!['N', 'A', 'N'];
    assert(inf@ =~= seq!['i', 'n', 'f']);
    assert(infinity@ =~= seq!['i', 'n', 'f', 'i', 'n', 'i', 't', 'y']);
    assert(nan@ =~= seq!['n', 'a', 'n']);
    check_spells(s, lo, &inf, &inf_upper) || check_spells(s, lo, &infinity, &infinity_upper)
        || check_spells(s, lo, &nan, &nan_upper)
}

/// Whether `s[lo..]` is a `Number`.
fn check_number(s: &Vec<char>, lo: usize) -> (r: bool)
    requires
        lo <= s.len(),
    ensures
        r == is_number(s@.skip(lo as int)),
{
    let n = s.len();
    let ghost b = s@.skip(lo as int);
    // The mantissa runs up to the first character that is neither a digit nor '.'.
    let mut m: usize = lo;
    while m < n && (('0' <= s[m] && s[m] <= '9') || s[m] == '.')
        invariant
            lo <= m <= n == s.len(),
            forall|j: int| lo <= j < m ==> digit_or_dot(#[trigger] s@[j]),
        decreases n - m,
    {
        m = m + 1;
    }
    proof {
        lemma_number_split_at(s@, lo as int, m as int);
    }
    let mant = check_mantissa(s, lo, m);
    if m == n {
        mant
    } else {
        mant && check_exponent(s, m)
    }
}

proof fn lemma_number_split_at(s: Seq<char>, lo: int, m: int)
    requires
        0 <= lo <= m <= s.len(),
        forall|j: int| lo <= j < m ==> digit_or_dot(#[trigger] s[j]),
        m < s.len() ==> !digit_or_dot(s[m]),
    ensures
        is_number(s.skip(lo)) == if m == s.len() {
            is_mantissa(s.subrange(lo, m))
        } else {
            is_mantissa(s.subrange(lo, m)) && is_exponent(s.skip(m))
        },
{
    let b = s.skip(lo);
    let k = m - lo;
    assert(b.take(k) =~= s.subrange(lo, m));
    assert(b.skip(k) =~= s.skip(m));
    assert forall|j: int| 0 <= j < k implies digit_or_dot(#[trigger] b[j]) by {
        assert(b[j] == s[lo + j]);
    }
    if k < b.len() {
        assert(b[k] == s[m]);
    }
    lemma_number_split(b, k);
    if m == s.len() {
        assert(b.take(k) =~= b);
    }
}

/// Whether `s` is text that `f64::from_str` accepts.
pub fn is_float_literal_chars(s: &Vec<char>) -> (r: bool)
    ensures
        r == is_float_literal(s@),
{
    let lo: usize = if s.len() > 0 && (s[0] == '+' || s[0] == '-') {
        1
    } else {
        0
    };
    assert(unsigned_part(s@) == s@.skip(lo as int));
    check_special(s, lo) || check_number(s, lo)
}

/// A non-empty run of digits is a number, with or without a sign.
pub proof fn lemma_digits_are_float_literal(s: Seq<char>)
    requires
        digits1(s),
    ensures
        is_float_literal(s),
        is_float_literal(seq!['-'] + s),
        is_float_literal(seq!['+'] + s),
{
    assert((seq!['-'] + s).skip(1) =~= s);
    assert((seq!['+'] + s).skip(1) =~= s);
}

/// Whether `s` is text that `f64::from_str` accepts.
pub fn is_float_literal_str(s: &str) -> (r: bool)
    ensures
        r == is_float_literal(s@),
{
    let v = crate::text::chars_of(s);
    is_float_literal_chars(&v)
}

} // verus!
