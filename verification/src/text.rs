use vstd::prelude::*;

verus! {

// ---------------------------------------------------------------------------
// Lower-casing
// ---------------------------------------------------------------------------

/// The Unicode lower-case form of a string, as `str::to_lowercase` computes it.
pub uninterp spec fn lowercase_of(s: Seq<char>) -> Seq<char>;

/// Calls `str::to_lowercase`: the contract only names its result, the
/// Unicode lower-case mapping of the whole string, which depends on `s` alone.
/// Nothing is stated about which characters it maps to which.
#[verifier::external_body]
pub(crate) fn to_lowercase(s: &str) -> (r: String)
    ensures
        r@ == lowercase_of(s@),
{
    s.to_lowercase()
}

// ---------------------------------------------------------------------------
// Characters
// ---------------------------------------------------------------------------

/// The characters of `s`, one by one.
pub fn chars_of(s: &str) -> (r: Vec<char>)
    ensures
        r@ == s@,
{
    let n = s.unicode_len();
    let mut r: Vec<char> = Vec::new();
    let mut i: usize = 0;
    while i < n
        invariant
            n == s@.len(),
            i <= n,
            r@ == s@.take(i as int),
        decreases n - i,
    {
        let c = s.get_char(i);
        r.push(c);
        i = i + 1;
        assert(r@ =~= s@.take(i as int));
    }
    assert(r@ =~= s@);
    r
}

/// Whether two strings hold the same characters.
pub fn same_text(a: &str, b: &str) -> (r: bool)
    ensures
        r == (a@ == b@),
{
    let x = chars_of(a);
    let y = chars_of(b);
    if x.len() != y.len() {
        return false;
    }
    let mut i: usize = 0;
    while i < x.len()
        invariant
            x@ == a@,
            y@ == b@,
            x.len() == y.len(),
            i <= x.len(),
            forall|j: int| 0 <= j < i ==> x@[j] == y@[j],
        decreases x.len() - i,
    {
        if x[i] != y[i] {
            return false;
        }
        i = i + 1;
    }
    assert(x@ =~= y@);
    true
}

/// `c` is an ASCII decimal digit.
pub open spec fn is_ascii_digit(c: char) -> bool {
    '0' <= c && c <= '9'
}

/// `c` has the Unicode `White_Space` property, which is what
/// `char::is_whitespace` tests and `str::trim` strips.
pub open spec fn is_white_space(c: char) -> bool {
    let u = c as u32;
    ||| 0x9 <= u <= 0xD
    ||| u == 0x20
    ||| u == 0x85
    ||| u == 0xA0
    ||| u == 0x1680
    ||| 0x2000 <= u <= 0x200A
    ||| u == 0x2028
    ||| u == 0x2029
    ||| u == 0x202F
    ||| u == 0x205F
    ||| u == 0x3000
}

pub fn white_space(c: char) -> (r: bool)
    ensures
        r == is_white_space(c),
{
    let u = c as u32;
    (0x9 <= u && u <= 0xD) || u == 0x20 || u == 0x85 || u == 0xA0 || u == 0x1680 || (0x2000 <= u
        && u <= 0x200A) || u == 0x2028 || u == 0x2029 || u == 0x202F || u == 0x205F || u == 0x3000
}

/// A character that is neither an ASCII digit nor `'.'`: what is cut from both
/// ends of a model name's size part before it is read as a number.
pub open spec fn is_not_numeric(c: char) -> bool {
    !is_ascii_digit(c) && c != '.'
}

// ---------------------------------------------------------------------------
// Positions
// ---------------------------------------------------------------------------

/// The index of the first `c` in `s`, if any.
pub open spec fn char_position(s: Seq<char>, c: char) -> Option<int>
    decreases s.len(),
{
    if s.len() == 0 {
        None
    } else if s[0] == c {
        Some(0)
    } else {
        match char_position(s.drop_first(), c) {
            Some(i) => Some(i + 1),
            None => None,
        }
    }
}

pub proof fn lemma_char_position(s: Seq<char>, c: char)
    ensures
        match char_position(s, c) {
            Some(i) => 0 <= i < s.len() && s[i] == c && forall|j: int| 0 <= j < i ==> s[j] != c,
            None => forall|j: int| 0 <= j < s.len() ==> s[j] != c,
        },
    decreases s.len(),
{
    if s.len() > 0 && s[0] != c {
        lemma_char_position(s.drop_first(), c);
        assert forall|j: int| 1 <= j < s.len() implies s[j] == s.drop_first()[j - 1] by {}
    }
}

/// The first `c` in `s` is at `i` when `s[i]` is `c` and no `c` comes before.
pub proof fn lemma_char_position_at(s: Seq<char>, c: char, i: int)
    requires
        0 <= i < s.len(),
        s[i] == c,
        forall|j: int| 0 <= j < i ==> s[j] != c,
    ensures
        char_position(s, c) == Some(i),
{
    lemma_char_position(s, c);
    if let Some(k) = char_position(s, c) {
        if k < i {
            assert(s[k] != c);
        }
        if k > i {
            assert(s[i] != c);
        }
    }
}

/// A sequence without `c` has no first `c`.
pub proof fn lemma_char_position_absent(s: Seq<char>, c: char)
    requires
        forall|j: int| 0 <= j < s.len() ==> s[j] != c,
    ensures
        char_position(s, c) is None,
{
    lemma_char_position(s, c);
    if let Some(k) = char_position(s, c) {
        assert(s[k] == c);
    }
}

/// Finds the first `c` in `s`.
pub fn find_char(s: &Vec<char>, c: char) -> (r: Option<usize>)
    ensures
        r matches Some(i) ==> i < s.len() && s@[i as int] == c && char_position(s@, c) == Some(
            i as int,
        ),
        r is None ==> char_position(s@, c) is None,
{
    proof {
        lemma_char_position(s@, c);
    }
    let mut i: usize = 0;
    while i < s.len()
        invariant
            i <= s.len(),
            forall|j: int| 0 <= j < i ==> s@[j] != c,
        decreases s.len() - i,
    {
        if s[i] == c {
            proof {
                lemma_char_position(s@, c);
            }
            return Some(i);
        }
        i = i + 1;
    }
    None
}

/// Finds the first `c` in `s[lo..hi]`; the index returned counts from the
/// start of `s`.
pub fn find_char_in(s: &Vec<char>, lo: usize, hi: usize, c: char) -> (r: Option<usize>)
    requires
        lo <= hi <= s.len(),
    ensures
        r matches Some(i) ==> lo <= i < hi && s@[i as int] == c && char_position(
            s@.subrange(lo as int, hi as int),
            c,
        ) == Some(i - lo),
        r is None ==> char_position(s@.subrange(lo as int, hi as int), c) is None,
{
    let ghost t = s@.subrange(lo as int, hi as int);
    proof {
        lemma_char_position(t, c);
    }
    let mut i: usize = lo;
    while i < hi
        invariant
            lo <= i <= hi <= s.len(),
            t == s@.subrange(lo as int, hi as int),
            forall|j: int| lo <= j < i ==> s@[j] != c,
        decreases hi - i,
    {
        if s[i] == c {
            proof {
                lemma_char_position(t, c);
                assert(t[i - lo] == c);
                assert forall|j: int| 0 <= j < i - lo implies t[j] != c by {
                    assert(t[j] == s@[lo + j]);
                }
            }
            return Some(i);
        }
        i = i + 1;
    }
    proof {
        lemma_char_position(t, c);
        assert forall|j: int| 0 <= j < t.len() implies t[j] != c by {
            assert(t[j] == s@[lo + j]);
        }
    }
    None
}

/// `needle` occurs in `hay` starting at index `i`.
pub open spec fn occurs_at(hay: Seq<char>, needle: Seq<char>, i: int) -> bool {
    0 <= i && i + needle.len() <= hay.len() && hay.subrange(i, i + needle.len()) == needle
}

/// `needle` occurs somewhere in `hay` (as `str::contains` with a string pattern).
pub open spec fn has_substring(hay: Seq<char>, needle: Seq<char>) -> bool {
    exists|i: int| occurs_at(hay, needle, i)
}

/// The index of the first occurrence of `needle` in `hay` (as `str::find`
/// counts it, in characters), if any.
pub open spec fn substring_position(hay: Seq<char>, needle: Seq<char>) -> Option<int>
    decreases hay.len(),
{
    if occurs_at(hay, needle, 0) {
        Some(0)
    } else if hay.len() == 0 {
        None
    } else {
        match substring_position(hay.drop_first(), needle) {
            Some(i) => Some(i + 1),
            None => None,
        }
    }
}

pub proof fn lemma_substring_position(hay: Seq<char>, needle: Seq<char>)
    ensures
        match substring_position(hay, needle) {
            Some(i) => occurs_at(hay, needle, i) && forall|j: int|
                0 <= j < i ==> !occurs_at(hay, needle, j),
            None => !has_substring(hay, needle),
        },
    decreases hay.len(),
{
    if !occurs_at(hay, needle, 0) && hay.len() > 0 {
        let t = hay.drop_first();
        lemma_substring_position(t, needle);
        assert forall|j: int| 1 <= j implies occurs_at(hay, needle, j) == occurs_at(
            t,
            needle,
            j - 1,
        ) by {
            if 0 <= j - 1 && j - 1 + needle.len() <= t.len() {
                assert(hay.subrange(j, j + needle.len()) =~= t.subrange(j - 1, j - 1 + needle.len()));
            }
        }
        if has_substring(hay, needle) {
            let k = choose|k: int| occurs_at(hay, needle, k);
            assert(occurs_at(t, needle, k - 1));
        }
    } else if !occurs_at(hay, needle, 0) {
        if has_substring(hay, needle) {
            let k = choose|k: int| occurs_at(hay, needle, k);
            assert(needle.len() == 0);
            assert(hay.subrange(0, 0) =~= needle);
        }
    }
}

fn occurs_here(hay: &Vec<char>, needle: &Vec<char>, i: usize) -> (r: bool)
    requires
        i + needle.len() <= hay.len(),
    ensures
        r == occurs_at(hay@, needle@, i as int),
{
    let mut k: usize = 0;
    while k < needle.len()
        invariant
            i + needle.len() <= hay.len(),
            k <= needle.len(),
            forall|m: int| 0 <= m < k ==> hay@[i + m] == needle@[m],
        decreases needle.len() - k,
    {
        if hay[i + k] != needle[k] {
            assert(hay@.subrange(i as int, i + needle.len())[k as int] != needle@[k as int]);
            return false;
        }
        k = k + 1;
    }
    assert(hay@.subrange(i as int, i + needle.len()) =~= needle@);
    true
}

/// Finds the first occurrence of `needle` in `hay`.
pub fn find_substring(hay: &Vec<char>, needle: &Vec<char>) -> (r: Option<usize>)
    ensures
        r matches Some(i) ==> i + needle.len() <= hay.len() && substring_position(hay@, needle@)
            == Some(i as int),
        r is None ==> substring_position(hay@, needle@) is None,
{
    proof {
        lemma_substring_position(hay@, needle@);
    }
    if needle.len() > hay.len() {
        assert forall|j: int| !occurs_at(hay@, needle@, j) by {}
        return None;
    }
    let last = hay.len() - needle.len();
    let mut i: usize = 0;
    while i < last
        invariant
            last + needle.len() == hay.len(),
            i <= last,
            forall|j: int| 0 <= j < i ==> !occurs_at(hay@, needle@, j),
        decreases last - i,
    {
        if occurs_here(hay, needle, i) {
            proof {
                lemma_substring_position(hay@, needle@);
            }
            return Some(i);
        }
        i = i + 1;
    }
    if occurs_here(hay, needle, last) {
        return Some(last);
    }
    assert forall|j: int| !occurs_at(hay@, needle@, j) by {}
    None
}

/// Whether `needle` occurs in `hay`.
pub fn contains(hay: &Vec<char>, needle: &Vec<char>) -> (r: bool)
    ensures
        r == has_substring(hay@, needle@),
{
    proof {
        lemma_substring_position(hay@, needle@);
    }
    find_substring(hay, needle).is_some()
}

// ---------------------------------------------------------------------------
// Trimming
// ---------------------------------------------------------------------------

/// `s` without the characters satisfying `drop` at its start.
pub open spec fn trim_start_by(s: Seq<char>, drop: spec_fn(char) -> bool) -> Seq<char>
    decreases s.len(),
{
    if s.len() > 0 && drop(s[0]) {
        trim_start_by(s.drop_first(), drop)
    } else {
        s
    }
}

/// `s` without the characters satisfying `drop` at its end.
pub open spec fn trim_end_by(s: Seq<char>, drop: spec_fn(char) -> bool) -> Seq<char>
    decreases s.len(),
{
    if s.len() > 0 && drop(s.last()) {
        trim_end_by(s.drop_last(), drop)
    } else {
        s
    }
}

/// `s` without the characters satisfying `drop` at either end
/// (as `str::trim_matches` with a character predicate).
pub open spec fn trim_by(s: Seq<char>, drop: spec_fn(char) -> bool) -> Seq<char> {
    trim_end_by(trim_start_by(s, drop), drop)
}

/// `s` without white space at either end (as `str::trim`).
pub open spec fn trim_white_space(s: Seq<char>) -> Seq<char> {
    trim_by(s, |c: char| is_white_space(c))
}

/// `s` without characters other than digits and `'.'` at either end.
pub open spec fn trim_not_numeric(s: Seq<char>) -> Seq<char> {
    trim_by(s, |c: char| is_not_numeric(c))
}

/// Trimming leaves text that neither starts nor ends with white space as it is.
pub proof fn lemma_trim_white_space_keeps(s: Seq<char>)
    requires
        s.len() == 0 || (!is_white_space(s[0]) && !is_white_space(s.last())),
    ensures
        trim_white_space(s) == s,
{
    let d = |c: char| is_white_space(c);
    assert(trim_start_by(s, d) == s);
    assert(trim_end_by(s, d) == s);
}

/// Trimming drops a space in front of text that neither starts nor ends with
/// white space.
pub proof fn lemma_trim_white_space_after_space(s: Seq<char>)
    requires
        s.len() > 0,
        !is_white_space(s[0]),
        !is_white_space(s.last()),
    ensures
        trim_white_space(seq![' '] + s) == s,
{
    let d = |c: char| is_white_space(c);
    let t = seq![' '] + s;
    assert(d(t[0]));
    assert(t.drop_first() =~= s);
    assert(trim_start_by(s, d) == s);
    assert(trim_start_by(t, d) == s);
    assert(trim_end_by(s, d) == s);
}

/// Which characters a trim removes.
pub enum Strip {
    WhiteSpace,
    NotNumeric,
}

pub open spec fn strip_pred(k: Strip) -> spec_fn(char) -> bool {
    match k {
        Strip::WhiteSpace => |c: char| is_white_space(c),
        Strip::NotNumeric => |c: char| is_not_numeric(c),
    }
}

fn strips(k: &Strip, c: char) -> (r: bool)
    ensures
        r == strip_pred(*k)(c),
{
    match k {
        Strip::WhiteSpace => white_space(c),
        Strip::NotNumeric => !(('0' <= c && c <= '9') || c == '.'),
    }
}

/// The bounds `(a, b)` within `s[lo..hi]` of what is left when the characters
/// that `k` strips are cut from both ends of `s[lo..hi]`.
pub fn trim_bounds(s: &Vec<char>, lo: usize, hi: usize, k: Strip) -> (r: (usize, usize))
    requires
        lo <= hi <= s.len(),
    ensures
        lo <= r.0 <= r.1 <= hi,
        s@.subrange(r.0 as int, r.1 as int) == trim_by(s@.subrange(lo as int, hi as int), strip_pred(k)),
{
    let ghost d = strip_pred(k);
    let mut a: usize = lo;
    while a < hi && strips(&k, s[a])
        invariant
            lo <= a <= hi <= s.len(),
            d == strip_pred(k),
            trim_start_by(s@.subrange(lo as int, hi as int), d) == trim_start_by(
                s@.subrange(a as int, hi as int),
                d,
            ),
        decreases hi - a,
    {
        assert(s@.subrange(a as int, hi as int).drop_first() =~= s@.subrange(a + 1, hi as int));
        a = a + 1;
    }
    assert(trim_start_by(s@.subrange(a as int, hi as int), d) == s@.subrange(a as int, hi as int));
    let mut b: usize = hi;
    while b > a && strips(&k, s[b - 1])
        invariant
            lo <= a <= b <= hi <= s.len(),
            d == strip_pred(k),
            trim_end_by(s@.subrange(a as int, hi as int), d) == trim_end_by(
                s@.subrange(a as int, b as int),
                d,
            ),
        decreases b - a,
    {
        assert(s@.subrange(a as int, b as int).drop_last() =~= s@.subrange(a as int, b - 1));
        b = b - 1;
    }
    assert(trim_end_by(s@.subrange(a as int, b as int), d) == s@.subrange(a as int, b as int));
    (a, b)
}

} // verus!
