//! Model size, in billions of parameters, read from a model's name.
use vstd::prelude::*;
use crate::number::{is_float_literal, is_float_literal_str};
use crate::text::{
    char_position, chars_of, contains, find_char, has_substring, lemma_char_position, lowercase_of,
    to_lowercase, trim_bounds, trim_not_numeric, Strip,
};

verus! {

/// A model's size in billions of parameters.
pub enum ParamCount {
    /// The size as written in the name: text that `f64::from_str` always
    /// reads without error.
    Written(String),
    /// A size guessed from the model family that the name mentions.
    Guessed(u64),
}

/// The part of a lower-case name before its first `'b'`, without the
/// characters other than digits and `'.'` at either end; none where the
/// name has no `'b'`.
pub open spec fn size_text(lower: Seq<char>) -> Option<Seq<char>> {
    match char_position(lower, 'b') {
        Some(p) => Some(trim_not_numeric(lower.take(p))),
        None => None,
    }
}

/// The size written in a lower-case name, where its size text reads as a number.
pub open spec fn written_size(lower: Seq<char>) -> Option<Seq<char>> {
    match size_text(lower) {
        Some(t) => if is_float_literal(t) {
            Some(t)
        } else {
            None
        },
        None => None,
    }
}

/// The size, in billions, guessed from the family that a lower-case name mentions.
pub open spec fn guessed_billions(lower: Seq<char>) -> int {
    if has_substring(lower, seq!['7', '0', 'b']) || has_substring(lower, seq!['7', '2', 'b']) {
        70
    } else if has_substring(lower, seq!['3', '4', 'b']) || has_substring(
        lower,
        seq!['3', '2', 'b'],
    ) {
        34
    } else if has_substring(lower, seq!['1', '3', 'b']) || has_substring(
        lower,
        seq!['1', '4', 'b'],
    ) {
        13
    } else {
        8
    }
}

/// What the size of the model with lower-case name `lower` is taken to be.
pub open spec fn param_count_of(lower: Seq<char>, r: ParamCount) -> bool {
    match r {
        ParamCount::Written(t) => written_size(lower) == Some(t@),
        ParamCount::Guessed(n) => written_size(lower) is None && n == guessed_billions(lower),
    }
}

fn mentions(hay: &Vec<char>, a: char, b: char) -> (r: bool)
    ensures
        r == has_substring(hay@, seq![a, b, 'b']),
{
    let needle = vec![a, b, 'b'];
    assert(needle@ =~= seq![a, b, 'b']);
    contains(hay, &needle)
}

/// The size of a model whose name, in lower case, is `lower`.
pub fn param_count_from_lowercase(lower: &str) -> (r: ParamCount)
    ensures
        param_count_of(lower@, r),
{
    let v = chars_of(lower);
    if let Some(p) = find_char(&v, 'b') {
        let (a, e) = trim_bounds(&v, 0, p, Strip::NotNumeric);
        assert(v@.subrange(0, p as int) =~= v@.take(p as int));
        let text = lower.substring_char(a, e);
        if is_float_literal_str(text) {
            return ParamCount::Written(text.to_owned());
        }
    }
    let n: u64 = if mentions(&v, '7', '0') || mentions(&v, '7', '2') {
        70
    } else if mentions(&v, '3', '4') || mentions(&v, '3', '2') {
        34
    } else if mentions(&v, '1', '3') || mentions(&v, '1', '4') {
        13
    } else {
        8
    };
    ParamCount::Guessed(n)
}

/// The size of a model, read from its name: the number before the first
/// `'b'` of the lower-cased name where there is one, else a guess from the
/// model family.
pub fn parse_params_billions(name: &str) -> (r: ParamCount)
    ensures
        param_count_of(lowercase_of(name@), r),
{
    let lower = to_lowercase(name);
    param_count_from_lowercase(lower.as_str())
}

/// A name without a `'b'` states no size and falls back to 8 billion.
pub proof fn lemma_no_marker_means_eight_billion(lower: Seq<char>)
    requires
        char_position(lower, 'b') is None,
    ensures
        written_size(lower) is None,
        guessed_billions(lower) == 8,
{
    lemma_char_position(lower, 'b');
    assert forall|x: char, y: char| !has_substring(lower, seq![x, y, 'b']) by {
        if has_substring(lower, seq![x, y, 'b']) {
            let i = choose|i: int| crate::text::occurs_at(lower, seq![x, y, 'b'], i);
            assert(lower.subrange(i, i + 3)[2] == lower[i + 2]);
        }
    }
}

/// A size taken from the name is always text that `f64::from_str` reads.
pub proof fn lemma_written_size_parses(lower: Seq<char>, r: ParamCount)
    requires
        param_count_of(lower, r),
        r is Written,
    ensures
        is_float_literal(r->Written_0@),
{
}

/// Where a name states no readable size, the family it mentions decides the
/// size: a name containing "70b" or "72b" is a 70 billion model; otherwise
/// one containing "34b" or "32b" is 34 billion; otherwise one containing
/// "13b" or "14b" is 13 billion; any other name is 8 billion.
pub proof fn lemma_family_decides_unwritten_size(lower: Seq<char>, r: ParamCount)
    requires
        param_count_of(lower, r),
        written_size(lower) is None,
    ensures
        r is Guessed,
        has_substring(lower, "70b"@) || has_substring(lower, "72b"@) ==> r->Guessed_0 == 70,
        !(has_substring(lower, "70b"@) || has_substring(lower, "72b"@)) && (has_substring(
            lower,
            "34b"@,
        ) || has_substring(lower, "32b"@)) ==> r->Guessed_0 == 34,
        !(has_substring(lower, "70b"@) || has_substring(lower, "72b"@) || has_substring(
            lower,
            "34b"@,
        ) || has_substring(lower, "32b"@)) && (has_substring(lower, "13b"@) || has_substring(
            lower,
            "14b"@,
        )) ==> r->Guessed_0 == 13,
        !(has_substring(lower, "70b"@) || has_substring(lower, "72b"@) || has_substring(
            lower,
            "34b"@,
        ) || has_substring(lower, "32b"@) || has_substring(lower, "13b"@) || has_substring(
            lower,
            "14b"@,
        )) ==> r->Guessed_0 == 8,
{
    reveal_strlit("70b");
    reveal_strlit("72b");
    reveal_strlit("34b");
    reveal_strlit("32b");
    reveal_strlit("13b");
    reveal_strlit("14b");
    assert("70b"@ =~= seq!['7', '0', 'b']);
    assert("72b"@ =~= seq!['7', '2', 'b']);
    assert("34b"@ =~= seq!['3', '4', 'b']);
    assert("32b"@ =~= seq!['3', '2', 'b']);
    assert("13b"@ =~= seq!['1', '3', 'b']);
    assert("14b"@ =~= seq!['1', '4', 'b']);
}

/// A name that states no readable size and contains "70b" is never costed
/// as anything but a 70 billion model.
pub proof fn lemma_seventy_b_is_seventy_billion(lower: Seq<char>, r: ParamCount)
    requires
        param_count_of(lower, r),
        written_size(lower) is None,
        has_substring(lower, "70b"@),
    ensures
        r is Guessed && r->Guessed_0 == 70,
{
    lemma_family_decides_unwritten_size(lower, r);
}

/// A guessed size is one of the four family sizes.
pub proof fn lemma_guess_is_a_family_size(lower: Seq<char>)
    ensures
        guessed_billions(lower) == 70 || guessed_billions(lower) == 34 || guessed_billions(lower)
            == 13 || guessed_billions(lower) == 8,
{
}

} // verus!
