//! What the hardware report reads from a GPU's name and from the text that
//! the GPU vendors' command-line tools print.
use vstd::prelude::*;
use crate::number::{is_float_literal, is_float_literal_str};
use crate::text::{
    is_white_space, lemma_char_position_absent, lemma_char_position_at,
    lemma_trim_white_space_after_space, lemma_trim_white_space_keeps, lemma_substring_position,
    occurs_at, char_position, chars_of, contains, find_char, find_char_in, find_substring, has_substring,
    lowercase_of, substring_position, to_lowercase, trim_bounds, trim_white_space, Strip,
};

verus! {

// ---------------------------------------------------------------------------
// Power draw
// ---------------------------------------------------------------------------

/// Peak draw in watts of a system whose GPU has the lower-case name `lower`.
pub open spec fn gpu_tdp_watts(lower: Seq<char>) -> int {
    if has_substring(lower, seq!['a', '1', '0', '0']) {
        400
    } else if has_substring(lower, seq!['h', '1', '0', '0']) {
        700
    } else if has_substring(lower, seq!['4', '0', '9', '0']) {
        450
    } else if has_substring(lower, seq!['3', '0', '9', '0']) {
        350
    } else if has_substring(lower, seq!['a', '1', '0']) {
        150
    } else {
        250
    }
}

/// Peak draw in watts of a system without a GPU: 30 W plus 5 W per core.
pub open spec fn cpu_tdp_watts(cpu_cores: int) -> int {
    30 + 5 * cpu_cores
}

fn names(hay: &Vec<char>, needle: Vec<char>) -> (r: bool)
    ensures
        r == has_substring(hay@, needle@),
{
    contains(hay, &needle)
}

/// Peak system draw in watts, given the GPU's name in lower case (none for a
/// system without a GPU) and the number of CPU cores.
pub fn tdp_watts_from_lowercase(gpu_lower: Option<&str>, cpu_cores: usize) -> (r: u128)
    ensures
        r == match gpu_lower {
            Some(n) => gpu_tdp_watts(n@),
            None => cpu_tdp_watts(cpu_cores as int),
        },
{
    match gpu_lower {
        Some(n) => {
            let v = chars_of(n);
            let a100 = vec!['a', '1', '0', '0'];
            let h100 = vec!['h', '1', '0', '0'];
            let rtx4090 = vec!['4', '0', '9', '0'];
            let rtx3090 = vec!['3', '0', '9', '0'];
            let a10 = vec!['a', '1', '0'];
            assert(a100@ =~= seq!['a', '1', '0', '0']);
            assert(h100@ =~= seq!['h', '1', '0', '0']);
            assert(rtx4090@ =~= seq!['4', '0', '9', '0']);
            assert(rtx3090@ =~= seq!['3', '0', '9', '0']);
            assert(a10@ =~= seq!['a', '1', '0']);
            if names(&v, a100) {
                400
            } else if names(&v, h100) {
                700
            } else if names(&v, rtx4090) {
                450
            } else if names(&v, rtx3090) {
                350
            } else if names(&v, a10) {
                150
            } else {
                250
            }
        },
        None => 30 + 5 * (cpu_cores as u128),
    }
}

/// Peak system draw in watts, which drives the cost of electricity: by the
/// GPU model where there is a GPU, else by the number of CPU cores.
pub fn estimate_tdp_watts(gpu_name: Option<&str>, cpu_cores: usize) -> (r: u128)
    ensures
        r == match gpu_name {
            Some(n) => gpu_tdp_watts(lowercase_of(n@)),
            None => cpu_tdp_watts(cpu_cores as int),
        },
{
    match gpu_name {
        Some(n) => {
            let lower = to_lowercase(n);
            tdp_watts_from_lowercase(Some(lower.as_str()), cpu_cores)
        },
        None => tdp_watts_from_lowercase(None, cpu_cores),
    }
}

/// The GPU's model decides the draw, the first marker of "a100", "h100",
/// "4090", "3090", "a10" that its lower-case name contains: 400, 700, 450,
/// 350 and 150 W; 250 W for any other GPU. An A100's name also contains
/// "a10", and it still draws 400 W.
pub proof fn lemma_gpu_markers_decide_draw(lower: Seq<char>)
    ensures
        has_substring(lower, "a100"@) ==> has_substring(lower, "a10"@) && gpu_tdp_watts(lower)
            == 400,
        !has_substring(lower, "a100"@) && has_substring(lower, "h100"@) ==> gpu_tdp_watts(lower)
            == 700,
        !has_substring(lower, "a100"@) && !has_substring(lower, "h100"@) && has_substring(
            lower,
            "4090"@,
        ) ==> gpu_tdp_watts(lower) == 450,
        !has_substring(lower, "a100"@) && !has_substring(lower, "h100"@) && !has_substring(
            lower,
            "4090"@,
        ) && has_substring(lower, "3090"@) ==> gpu_tdp_watts(lower) == 350,
        !has_substring(lower, "a100"@) && !has_substring(lower, "h100"@) && !has_substring(
            lower,
            "4090"@,
        ) && !has_substring(lower, "3090"@) && has_substring(lower, "a10"@) ==> gpu_tdp_watts(
            lower,
        ) == 150,
        !has_substring(lower, "a100"@) && !has_substring(lower, "h100"@) && !has_substring(
            lower,
            "4090"@,
        ) && !has_substring(lower, "3090"@) && !has_substring(lower, "a10"@) ==> gpu_tdp_watts(
            lower,
        ) == 250,
{
    reveal_strlit("a100");
    reveal_strlit("h100");
    reveal_strlit("4090");
    reveal_strlit("3090");
    reveal_strlit("a10");
    assert("a100"@ =~= seq!['a', '1', '0', '0']);
    assert("h100"@ =~= seq!['h', '1', '0', '0']);
    assert("4090"@ =~= seq!['4', '0', '9', '0']);
    assert("3090"@ =~= seq!['3', '0', '9', '0']);
    assert("a10"@ =~= seq!['a', '1', '0']);
    if has_substring(lower, "a100"@) {
        let i = choose|i: int| occurs_at(lower, "a100"@, i);
        let w = lower.subrange(i, i + 4);
        assert(w[0] == 'a' && w[1] == '1' && w[2] == '0');
        assert(lower[i] == w[0] && lower[i + 1] == w[1] && lower[i + 2] == w[2]);
        assert(lower.subrange(i, i + 3) =~= seq!['a', '1', '0']);
        assert(occurs_at(lower, "a10"@, i));
    }
}

/// Without a GPU the draw is 30 W, and each CPU core adds 5 W.
pub proof fn lemma_cpu_draw_per_core(cpu_cores: int)
    ensures
        cpu_tdp_watts(0) == 30,
        cpu_tdp_watts(cpu_cores + 1) == cpu_tdp_watts(cpu_cores) + 5,
{
}

// ---------------------------------------------------------------------------
// Vendor tool output
// ---------------------------------------------------------------------------

/// The first line of `text`, as `str::lines` yields it: up to the first line
/// feed, without a carriage return just before it; none for empty text.
pub open spec fn first_line(text: Seq<char>) -> Option<Seq<char>> {
    if text.len() == 0 {
        None
    } else {
        match char_position(text, '\n') {
            Some(k) => {
                let l = text.take(k);
                Some(
                    if l.len() > 0 && l.last() == '\r' {
                        l.drop_last()
                    } else {
                        l
                    },
                )
            },
            None => Some(text),
        }
    }
}

/// The GPU's name and its memory in MiB, as text, from what
/// `nvidia-smi --query-gpu=name,memory.total --format=csv,noheader,nounits`
/// prints: its first line must hold exactly two comma-separated fields, and
/// the second, without surrounding white space, must read as a number.
pub open spec fn nvidia_fields(text: Seq<char>) -> Option<(Seq<char>, Seq<char>)> {
    match first_line(text) {
        Some(line) => match char_position(line, ',') {
            Some(c) => {
                let name = trim_white_space(line.take(c));
                let mem = trim_white_space(line.skip(c + 1));
                if char_position(line.skip(c + 1), ',') is None && is_float_literal(mem) {
                    Some((name, mem))
                } else {
                    None
                }
            },
            None => None,
        },
        None => None,
    }
}

/// Reads the GPU's name and its total memory in MiB (as text that
/// `f64::from_str` reads without error) from `nvidia-smi`'s output.
pub fn parse_nvidia_smi(text: &str) -> (r: Option<(String, String)>)
    ensures
        match r {
            Some((name, mem)) => nvidia_fields(text@) == Some((name@, mem@)),
            None => nvidia_fields(text@) is None,
        },
{
    let v = chars_of(text);
    let n = v.len();
    if n == 0 {
        return None;
    }
    let end: usize = match find_char(&v, '\n') {
        Some(k) => if k > 0 && v[k - 1] == '\r' {
            k - 1
        } else {
            k
        },
        None => n,
    };
    let ghost line = first_line(text@).unwrap();
    assert(line =~= v@.subrange(0, end as int));
    let c = match find_char_in(&v, 0, end, ',') {
        Some(c) => c,
        None => {
            return None;
        },
    };
    assert(line.take(c as int) =~= v@.subrange(0, c as int));
    assert(line.skip(c + 1) =~= v@.subrange(c + 1, end as int));
    if find_char_in(&v, c + 1, end, ',').is_some() {
        return None;
    }
    let (na, nb) = trim_bounds(&v, 0, c, Strip::WhiteSpace);
    let (ma, mb) = trim_bounds(&v, c + 1, end, Strip::WhiteSpace);
    let mem = text.substring_char(ma, mb);
    if !is_float_literal_str(mem) {
        return None;
    }
    let name = text.substring_char(na, nb);
    Some((name.to_owned(), mem.to_owned()))
}

/// Text without a line feed is its own first line, and a line feed ending it
/// changes nothing.
pub proof fn lemma_first_line_of_one_line(t: Seq<char>)
    requires
        t.len() > 0,
        forall|i: int| 0 <= i < t.len() ==> t[i] != '\n',
        t.last() != '\r',
    ensures
        first_line(t) == Some(t),
        first_line(t + seq!['\n']) == Some(t),
{
    lemma_char_position_absent(t, '\n');
    let u = t + seq!['\n'];
    assert forall|j: int| 0 <= j < t.len() implies u[j] != '\n' by {
        assert(u[j] == t[j]);
    }
    lemma_char_position_at(u, '\n', t.len() as int);
    assert(u.take(t.len() as int) =~= t);
}

/// The reading of `nvidia-smi`'s line "name, memory": the name and the memory
/// figure come back as they stand, whether or not a line feed ends the text.
pub proof fn lemma_nvidia_name_and_memory(n: Seq<char>, m: Seq<char>)
    requires
        forall|i: int| 0 <= i < n.len() ==> n[i] != ',' && n[i] != '\n',
        forall|i: int| 0 <= i < m.len() ==> m[i] != ',' && m[i] != '\n',
        n.len() == 0 || (!is_white_space(n[0]) && !is_white_space(n.last())),
        m.len() > 0,
        !is_white_space(m[0]),
        !is_white_space(m.last()),
        is_float_literal(m),
    ensures
        nvidia_fields(n + seq![',', ' '] + m) == Some((n, m)),
        nvidia_fields(n + seq![',', ' '] + m + seq!['\n']) == Some((n, m)),
{
    let line = n + seq![',', ' '] + m;
    let c = n.len() as int;
    assert forall|i: int| 0 <= i < line.len() implies line[i] != '\n' by {
        if i < c {
            assert(line[i] == n[i]);
        } else if i >= c + 2 {
            assert(line[i] == m[i - c - 2]);
        }
    }
    assert(line.last() == m.last());
    assert(m.last() != '\r');
    lemma_first_line_of_one_line(line);
    assert forall|j: int| 0 <= j < c implies line[j] != ',' by {
        assert(line[j] == n[j]);
    }
    lemma_char_position_at(line, ',', c);
    assert(line.take(c) =~= n);
    let after = line.skip(c + 1);
    assert(after =~= seq![' '] + m);
    assert forall|j: int| 0 <= j < after.len() implies after[j] != ',' by {
        if j > 0 {
            assert(after[j] == m[j - 1]);
        }
    }
    lemma_char_position_absent(after, ',');
    lemma_trim_white_space_keeps(n);
    lemma_trim_white_space_after_space(m);
}

/// The "Used memory" figure, as text, from what `rocm-smi --showmeminfo vram`
/// prints: after the first "Used memory" comes a `':'`; what follows it,
/// without surrounding white space, must hold a space, and the part before
/// that space must read as a number.
pub open spec fn rocm_used_field(text: Seq<char>) -> Option<Seq<char>> {
    match substring_position(text, used_memory_label()) {
        Some(i) => {
            let rest = text.skip(i);
            match char_position(rest, ':') {
                Some(c) => {
                    let after = trim_white_space(rest.skip(c + 1));
                    match char_position(after, ' ') {
                        Some(sp) => if is_float_literal(after.take(sp)) {
                            Some(after.take(sp))
                        } else {
                            None
                        },
                        None => None,
                    }
                },
                None => None,
            }
        },
        None => None,
    }
}

/// "Used memory", spelled out.
pub open spec fn used_memory_label() -> Seq<char> {
    seq!['U', 's', 'e', 'd', ' ', 'm', 'e', 'm', 'o', 'r', 'y']
}

/// Behind text without the label, a label that follows is the first one:
/// the label cannot begin inside that text, as its first letter `'U'`
/// occurs in it nowhere else.
proof fn lemma_label_first_after(p: Seq<char>, r: Seq<char>)
    requires
        !has_substring(p, used_memory_label()),
        r.len() >= 11,
        r.take(11) == used_memory_label(),
    ensures
        substring_position(p + r, used_memory_label()) == Some(p.len() as int),
{
    let label = used_memory_label();
    let text = p + r;
    let k = p.len() as int;
    assert(text.subrange(k, k + 11) =~= r.take(11));
    assert(occurs_at(text, label, k));
    assert forall|j: int| 0 <= j < k implies !occurs_at(text, label, j) by {
        if occurs_at(text, label, j) {
            if j + 11 <= k {
                assert(p.subrange(j, j + 11) =~= text.subrange(j, j + 11));
                assert(occurs_at(p, label, j));
            } else {
                let d = k - j;
                assert(text.subrange(j, j + 11)[d] == text[k]);
                assert(text[k] == r[0]);
                assert(r[0] == r.take(11)[0]);
                assert(label[1] != 'U' && label[2] != 'U' && label[3] != 'U' && label[4] != 'U'
                    && label[5] != 'U' && label[6] != 'U' && label[7] != 'U' && label[8] != 'U'
                    && label[9] != 'U' && label[10] != 'U');
                assert(label[d] != 'U');
            }
        }
    }
    lemma_substring_position(text, label);
    if let Some(i) = substring_position(text, label) {
        if i < k {
            assert(!occurs_at(text, label, i));
        }
        if i > k {
            assert(!occurs_at(text, label, k));
        }
    }
}

/// What follows the label, ": X GB", gives X.
proof fn lemma_rocm_figure_after_label(x: Seq<char>)
    requires
        x.len() > 0,
        forall|i: int| 0 <= i < x.len() ==> !is_white_space(#[trigger] x[i]),
    ensures
        ({
            let rest = used_memory_label() + seq![':', ' '] + x + seq![' ', 'G', 'B'];
            &&& char_position(rest, ':') == Some(11int)
            &&& trim_white_space(rest.skip(12)) == x + seq![' ', 'G', 'B']
            &&& char_position(x + seq![' ', 'G', 'B'], ' ') == Some(x.len() as int)
            &&& (x + seq![' ', 'G', 'B']).take(x.len() as int) == x
        }),
{
    let label = used_memory_label();
    let y = x + seq![' ', 'G', 'B'];
    let rest = label + seq![':', ' '] + x + seq![' ', 'G', 'B'];
    assert(rest =~= label + seq![':', ' '] + y);
    assert forall|j: int| 0 <= j < 11 implies rest[j] != ':' by {
        assert(rest[j] == label[j]);
    }
    assert(rest[11] == ':');
    lemma_char_position_at(rest, ':', 11);
    assert(rest.skip(12) =~= seq![' '] + y);
    assert(y[0] == x[0]);
    assert(y.last() == 'B');
    lemma_trim_white_space_after_space(y);
    assert forall|j: int| 0 <= j < x.len() implies y[j] != ' ' by {
        assert(y[j] == x[j]);
        assert(!is_white_space(x[j]));
    }
    assert(y[x.len() as int] == ' ');
    lemma_char_position_at(y, ' ', x.len() as int);
    assert(y.take(x.len() as int) =~= x);
}

/// The figure read from `rocm-smi`'s output is the one after the first
/// "Used memory": whatever comes before that label (without the label
/// itself), "Used memory: X GB" gives X, for any number X without white space.
pub proof fn lemma_rocm_reads_first_used_memory(p: Seq<char>, x: Seq<char>)
    requires
        !has_substring(p, "Used memory"@),
        x.len() > 0,
        is_float_literal(x),
        forall|i: int| 0 <= i < x.len() ==> !is_white_space(#[trigger] x[i]),
    ensures
        rocm_used_field(p + "Used memory"@ + seq![':', ' '] + x + seq![' ', 'G', 'B']) == Some(x),
{
    reveal_strlit("Used memory");
    assert("Used memory"@ =~= used_memory_label());
    let r = used_memory_label() + seq![':', ' '] + x + seq![' ', 'G', 'B'];
    let text = p + "Used memory"@ + seq![':', ' '] + x + seq![' ', 'G', 'B'];
    assert(text =~= p + r);
    assert(r.take(11) =~= used_memory_label());
    lemma_label_first_after(p, r);
    assert(text.skip(p.len() as int) =~= r);
    lemma_rocm_figure_after_label(x);
}

/// Reads the "Used memory" figure (as text that `f64::from_str` reads
/// without error) from `rocm-smi`'s output.
pub fn parse_rocm_smi(text: &str) -> (r: Option<String>)
    ensures
        match r {
            Some(f) => rocm_used_field(text@) == Some(f@),
            None => rocm_used_field(text@) is None,
        },
{
    let v = chars_of(text);
    let n = v.len();
    let label = vec!['U', 's', 'e', 'd', ' ', 'm', 'e', 'm', 'o', 'r', 'y'];
    assert(label@ =~= seq!['U', 's', 'e', 'd', ' ', 'm', 'e', 'm', 'o', 'r', 'y']);
    let i = match find_substring(&v, &label) {
        Some(i) => i,
        None => {
            return None;
        },
    };
    let ghost rest = v@.skip(i as int);
    assert(rest =~= v@.subrange(i as int, n as int));
    let c = match find_char_in(&v, i, n, ':') {
        Some(c) => c,
        None => {
            return None;
        },
    };
    assert(rest.skip(c - i + 1) =~= v@.subrange(c + 1, n as int));
    let (a, b) = trim_bounds(&v, c + 1, n, Strip::WhiteSpace);
    let sp = match find_char_in(&v, a, b, ' ') {
        Some(sp) => sp,
        None => {
            return None;
        },
    };
    assert(v@.subrange(a as int, b as int).take(sp - a) =~= v@.subrange(a as int, sp as int));
    let field = text.substring_char(a, sp);
    if !is_float_literal_str(field) {
        return None;
    }
    Some(field.to_owned())
}

} // verus!
