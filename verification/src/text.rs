//! Character-level text primitives shared by the library.
//!
//! Every string is modelled by its sequence of `char`s (`s@`). The spec
//! functions below state what the usual `str` operations (`trim`, `find`,
//! `split`, `replace`, `lines`, ...) compute, and the executable functions
//! prove that they compute it.
use vstd::prelude::*;
use vstd::string::*;
use vstd::utf8::*;

verus! {

// ───────────────────────── specifications ─────────────────────────

/// The Unicode `White_Space` property, as `char::is_whitespace` decides it.
pub open spec fn is_ws(c: char) -> bool {
    let u = c as u32;
    u == 0x20 || (0x09 <= u && u <= 0x0D) || u == 0x85 || u == 0xA0 || u == 0x1680 || (0x2000
        <= u && u <= 0x200A) || u == 0x2028 || u == 0x2029 || u == 0x202F || u == 0x205F || u
        == 0x3000
}

/// Number of leading whitespace characters.
pub open spec fn lead_ws(s: Seq<char>) -> nat
    decreases s.len(),
{
    if s.len() > 0 && is_ws(s[0]) {
        1 + lead_ws(s.drop_first())
    } else {
        0
    }
}

/// Number of trailing whitespace characters.
pub open spec fn trail_ws(s: Seq<char>) -> nat
    decreases s.len(),
{
    if s.len() > 0 && is_ws(s.last()) {
        1 + trail_ws(s.drop_last())
    } else {
        0
    }
}

/// `str::trim_start`.
pub open spec fn trim_start(s: Seq<char>) -> Seq<char> {
    s.skip(lead_ws(s) as int)
}

/// `str::trim_end`.
pub open spec fn trim_end(s: Seq<char>) -> Seq<char> {
    s.take(s.len() - trail_ws(s))
}

/// `str::trim`.
pub open spec fn trim(s: Seq<char>) -> Seq<char> {
    trim_end(trim_start(s))
}

/// `p` is a prefix of `s`.
pub open spec fn starts_with(s: Seq<char>, p: Seq<char>) -> bool {
    p.len() <= s.len() && s.take(p.len() as int) == p
}

/// `p` is a suffix of `s`.
pub open spec fn ends_with(s: Seq<char>, p: Seq<char>) -> bool {
    p.len() <= s.len() && s.skip(s.len() - p.len()) == p
}

/// Index of the first occurrence of `p` in `s`, or -1 (`str::find`).
pub open spec fn find(s: Seq<char>, p: Seq<char>) -> int
    decreases s.len(),
{
    if s.len() < p.len() {
        -1
    } else if starts_with(s, p) {
        0
    } else if s.len() == 0 {
        -1
    } else {
        shift(find(s.drop_first(), p), 1)
    }
}

/// `r + k`, keeping -1 for "not found".
pub open spec fn shift(r: int, k: int) -> int {
    if r < 0 {
        -1
    } else {
        r + k
    }
}

/// `str::contains`.
pub open spec fn contains(s: Seq<char>, p: Seq<char>) -> bool {
    find(s, p) >= 0
}

/// `str::split` with a non-empty pattern: the pieces between
/// non-overlapping occurrences of `p`, scanned from the left.
pub open spec fn split(s: Seq<char>, p: Seq<char>) -> Seq<Seq<char>>
    decreases s.len(),
{
    if p.len() == 0 {
        seq![s]
    } else {
        let i = find(s, p);
        if i < 0 || i + p.len() > s.len() {
            seq![s]
        } else {
            seq![s.take(i)].add(split(s.skip(i + p.len()), p))
        }
    }
}

/// The pieces of `ps` joined with `sep` in between (`[T]::join`).
pub open spec fn join(ps: Seq<Seq<char>>, sep: Seq<char>) -> Seq<char>
    decreases ps.len(),
{
    if ps.len() == 0 {
        seq![]
    } else if ps.len() == 1 {
        ps[0]
    } else {
        join(ps.drop_last(), sep) + sep + ps.last()
    }
}

/// `str::replace` with a non-empty pattern.
pub open spec fn replace(s: Seq<char>, from: Seq<char>, to: Seq<char>) -> Seq<char> {
    join(split(s, from), to)
}

/// Drops one trailing `'\r'`.
pub open spec fn strip_cr(s: Seq<char>) -> Seq<char> {
    if s.len() > 0 && s.last() == '\r' {
        s.drop_last()
    } else {
        s
    }
}

/// The pieces of `split(s, "\n")` with a final empty piece dropped.
pub open spec fn raw_lines(s: Seq<char>) -> Seq<Seq<char>> {
    let ps = split(s, seq!['\n']);
    if ps.len() > 0 && ps.last().len() == 0 {
        ps.drop_last()
    } else {
        ps
    }
}

/// `str::lines`: split at `"\n"`, no final empty line, `"\r"` before the
/// line feed removed.
pub open spec fn lines(s: Seq<char>) -> Seq<Seq<char>> {
    raw_lines(s).map_values(|l: Seq<char>| strip_cr(l))
}

/// Number of bytes in the UTF-8 encoding of `c` (`char::len_utf8`).
pub open spec fn char_utf8_len(c: char) -> nat {
    let u = c as u32;
    if u < 0x80 {
        1
    } else if u < 0x800 {
        2
    } else if u < 0x10000 {
        3
    } else {
        4
    }
}

/// Number of bytes in the UTF-8 encoding of `s` (`str::len`).
pub open spec fn utf8_len(s: Seq<char>) -> nat
    decreases s.len(),
{
    if s.len() == 0 {
        0
    } else {
        utf8_len(s.drop_last()) + char_utf8_len(s.last())
    }
}

/// The longest prefix of `s` whose UTF-8 encoding fits in `max` bytes:
/// its number of characters.
pub open spec fn fit_prefix_len(s: Seq<char>, max: nat) -> nat
    decreases s.len(),
{
    if utf8_len(s) <= max {
        s.len()
    } else {
        fit_prefix_len(s.drop_last(), max)
    }
}

/// The characters of each string of a list.
pub open spec fn strs(v: Seq<String>) -> Seq<Seq<char>> {
    v.map_values(|s: String| s@)
}

/// The characters of an optional string slice.
pub open spec fn opt_chars(o: Option<&str>) -> Option<Seq<char>> {
    match o {
        Some(s) => Some(s@),
        None => None,
    }
}

/// The characters of an optional string.
pub open spec fn opt_string(o: Option<String>) -> Option<Seq<char>> {
    match o {
        Some(s) => Some(s@),
        None => None,
    }
}

// ───────────────────────── lemmas ─────────────────────────

pub proof fn lemma_utf8_len_take_step(s: Seq<char>, i: int)
    requires
        0 <= i < s.len(),
    ensures
        utf8_len(s.take(i + 1)) == utf8_len(s.take(i)) + char_utf8_len(s[i]),
{
    assert(s.take(i + 1).drop_last() =~= s.take(i));
}

pub proof fn lemma_utf8_len_mono(s: Seq<char>, i: int, j: int)
    requires
        0 <= i <= j <= s.len(),
    ensures
        utf8_len(s.take(i)) <= utf8_len(s.take(j)),
    decreases j - i,
{
    if i < j {
        lemma_utf8_len_take_step(s, j - 1);
        lemma_utf8_len_mono(s, i, j - 1);
    }
}

pub proof fn lemma_utf8_len_ge_len(s: Seq<char>)
    ensures
        utf8_len(s) >= s.len(),
        utf8_len(s) <= 4 * s.len(),
    decreases s.len(),
{
    if s.len() > 0 {
        lemma_utf8_len_ge_len(s.drop_last());
    }
}

/// `fit_prefix_len` is the largest `k` with `utf8_len(s.take(k)) <= max`.
pub proof fn lemma_fit_prefix(s: Seq<char>, max: nat)
    ensures
        fit_prefix_len(s, max) <= s.len(),
        utf8_len(s.take(fit_prefix_len(s, max) as int)) <= max,
        fit_prefix_len(s, max) < s.len() ==> utf8_len(s.take(fit_prefix_len(s, max) as int + 1))
            > max,
    decreases s.len(),
{
    assert(s.take(s.len() as int) =~= s);
    if utf8_len(s) > max {
        let t = s.drop_last();
        lemma_fit_prefix(t, max);
        let k = fit_prefix_len(t, max);
        assert(s.take(k as int) =~= t.take(k as int));
        if k < t.len() {
            assert(s.take(k as int + 1) =~= t.take(k as int + 1));
        } else {
            assert(s.take(k as int + 1) =~= s);
        }
    }
}

proof fn lemma_find_step(s: Seq<char>, p: Seq<char>, i: int)
    requires
        0 <= i < s.len(),
        !starts_with(s.skip(i), p),
    ensures
        find(s.skip(i), p) == shift(find(s.skip(i + 1), p), 1),
{
    assert(s.skip(i).drop_first() =~= s.skip(i + 1));
}

proof fn lemma_lead_ws_step(s: Seq<char>, i: int, hi: int)
    requires
        0 <= i < hi <= s.len(),
        is_ws(s[i]),
    ensures
        lead_ws(s.subrange(i, hi)) == 1 + lead_ws(s.subrange(i + 1, hi)),
{
    assert(s.subrange(i, hi).drop_first() =~= s.subrange(i + 1, hi));
}

proof fn lemma_trail_ws_step(s: Seq<char>, lo: int, j: int)
    requires
        0 <= lo < j <= s.len(),
        is_ws(s[j - 1]),
    ensures
        trail_ws(s.subrange(lo, j)) == 1 + trail_ws(s.subrange(lo, j - 1)),
{
    assert(s.subrange(lo, j).drop_last() =~= s.subrange(lo, j - 1));
}

// ───────────────────────── executable primitives ─────────────────────────

/// `char::is_whitespace`.
pub fn is_whitespace(c: char) -> (r: bool)
    ensures
        r == is_ws(c),
{
    let u = c as u32;
    u == 0x20 || (0x09 <= u && u <= 0x0D) || u == 0x85 || u == 0xA0 || u == 0x1680 || (0x2000
        <= u && u <= 0x200A) || u == 0x2028 || u == 0x2029 || u == 0x202F || u == 0x205F || u
        == 0x3000
}

/// `char::len_utf8`.
pub fn char_len_utf8(c: char) -> (r: usize)
    ensures
        r == char_utf8_len(c),
{
    let u = c as u32;
    if u < 0x80 {
        1
    } else if u < 0x800 {
        2
    } else if u < 0x10000 {
        3
    } else {
        4
    }
}

/// Appends one character to a string (`String::push`).
#[verifier::external_body]
pub(crate) fn push_char(s: &mut String, c: char)
    ensures
        final(s)@ == old(s)@.push(c),
{
    s.push(c);
}

/// Appends a string slice (`String::push_str`).
pub fn push_str(s: &mut String, t: &str)
    ensures
        final(s)@ == old(s)@ + t@,
{
    s.append(t);
}

/// A new string holding `v[lo..hi]`.
pub fn string_of_range(v: &Vec<char>, lo: usize, hi: usize) -> (r: String)
    requires
        lo <= hi <= v.len(),
    ensures
        r@ == v@.subrange(lo as int, hi as int),
{
    let mut out = String::new();
    let mut i = lo;
    while i < hi
        invariant
            lo <= i <= hi <= v.len(),
            out@ == v@.subrange(lo as int, i as int),
        decreases hi - i,
    {
        push_char(&mut out, v[i]);
        assert(v@.subrange(lo as int, i + 1) =~= v@.subrange(lo as int, i as int).push(v@[i as int]));
        i += 1;
    }
    out
}

/// A new string holding all of `v`.
pub fn string_of(v: &Vec<char>) -> (r: String)
    ensures
        r@ == v@,
{
    let r = string_of_range(v, 0, v.len());
    assert(v@.subrange(0, v@.len() as int) =~= v@);
    r
}

/// The characters of `s`, in order.
pub fn chars_of(s: &str) -> (r: Vec<char>)
    ensures
        r@ == s@,
{
    let mut out: Vec<char> = Vec::new();
    for c in it: s.chars()
        invariant
            out@ == it.seq().take(it.index() as int),
    {
        out.push(c);
    }
    out
}

/// Copies `v[lo..hi]` into a new vector.
pub fn copy_range(v: &Vec<char>, lo: usize, hi: usize) -> (r: Vec<char>)
    requires
        lo <= hi <= v.len(),
    ensures
        r@ == v@.subrange(lo as int, hi as int),
{
    let mut out: Vec<char> = Vec::new();
    let mut i = lo;
    while i < hi
        invariant
            lo <= i <= hi <= v.len(),
            out@ == v@.subrange(lo as int, i as int),
        decreases hi - i,
    {
        out.push(v[i]);
        assert(v@.subrange(lo as int, i + 1) =~= v@.subrange(lo as int, i as int).push(v@[i as int]));
        i += 1;
    }
    out
}

/// Number of characters of `s` (`s.chars().count()`).
pub fn char_count(s: &str) -> (r: usize)
    ensures
        r == s@.len(),
{
    s.unicode_len()
}

/// The bounds `(a, b)` with `v[a..b] == trim(v[lo..hi])`.
pub fn trim_range(v: &Vec<char>, lo: usize, hi: usize) -> (r: (usize, usize))
    requires
        lo <= hi <= v.len(),
    ensures
        lo <= r.0 <= r.1 <= hi,
        v@.subrange(r.0 as int, r.1 as int) == trim(v@.subrange(lo as int, hi as int)),
        v@.subrange(r.0 as int, hi as int) == trim_start(v@.subrange(lo as int, hi as int)),
{
    let a = trim_start_range(v, lo, hi);
    let b = trim_end_range(v, a, hi);
    proof {
        let s = v@.subrange(lo as int, hi as int);
        assert(trim_start(s) =~= v@.subrange(a as int, hi as int));
    }
    (a, b)
}

/// The start `a` with `v[a..hi] == trim_start(v[lo..hi])`.
pub fn trim_start_range(v: &Vec<char>, lo: usize, hi: usize) -> (a: usize)
    requires
        lo <= hi <= v.len(),
    ensures
        lo <= a <= hi,
        a - lo == lead_ws(v@.subrange(lo as int, hi as int)),
        v@.subrange(a as int, hi as int) == trim_start(v@.subrange(lo as int, hi as int)),
{
    let mut i = lo;
    while i < hi && is_whitespace(v[i])
        invariant
            lo <= i <= hi <= v.len(),
            lead_ws(v@.subrange(lo as int, hi as int)) == (i - lo) + lead_ws(
                v@.subrange(i as int, hi as int),
            ),
        decreases hi - i,
    {
        proof {
            lemma_lead_ws_step(v@, i as int, hi as int);
        }
        i += 1;
    }
    proof {
        let s = v@.subrange(lo as int, hi as int);
        assert(s.skip(i - lo) =~= v@.subrange(i as int, hi as int));
    }
    i
}

/// The end `b` with `v[lo..b] == trim_end(v[lo..hi])`.
pub fn trim_end_range(v: &Vec<char>, lo: usize, hi: usize) -> (b: usize)
    requires
        lo <= hi <= v.len(),
    ensures
        lo <= b <= hi,
        hi - b == trail_ws(v@.subrange(lo as int, hi as int)),
        v@.subrange(lo as int, b as int) == trim_end(v@.subrange(lo as int, hi as int)),
{
    let mut j = hi;
    while j > lo && is_whitespace(v[j - 1])
        invariant
            lo <= j <= hi <= v.len(),
            trail_ws(v@.subrange(lo as int, hi as int)) == (hi - j) + trail_ws(
                v@.subrange(lo as int, j as int),
            ),
        decreases j - lo,
    {
        proof {
            lemma_trail_ws_step(v@, lo as int, j as int);
        }
        j -= 1;
    }
    proof {
        let s = v@.subrange(lo as int, hi as int);
        assert(s.take(j - lo) =~= v@.subrange(lo as int, j as int));
    }
    j
}

/// `v[i..]` starts with `p`.
pub fn matches_at(v: &Vec<char>, i: usize, p: &Vec<char>) -> (r: bool)
    requires
        i <= v.len(),
    ensures
        r == starts_with(v@.skip(i as int), p@),
{
    if p.len() > v.len() - i {
        return false;
    }
    let mut k: usize = 0;
    while k < p.len()
        invariant
            i + p.len() <= v.len(),
            k <= p.len(),
            forall|j: int| 0 <= j < k ==> v@[i + j] == p@[j],
        decreases p.len() - k,
    {
        if v[i + k] != p[k] {
            proof {
                assert(v@.skip(i as int).take(p.len() as int)[k as int] != p@[k as int]);
            }
            return false;
        }
        k += 1;
    }
    proof {
        assert(v@.skip(i as int).take(p.len() as int) =~= p@);
    }
    true
}

/// Index of the first occurrence of `p` in `v` at or after `start`.
pub fn find_from(v: &Vec<char>, start: usize, p: &Vec<char>) -> (r: Option<usize>)
    requires
        start <= v.len(),
    ensures
        match r {
            Some(i) => find(v@.skip(start as int), p@) == i - start && start <= i && i + p.len()
                <= v.len(),
            None => find(v@.skip(start as int), p@) == -1,
        },
{
    let mut i = start;
    loop
        invariant
            start <= i <= v.len(),
            find(v@.skip(start as int), p@) == shift(find(v@.skip(i as int), p@), i - start),
        decreases v.len() - i,
    {
        if matches_at(v, i, p) {
            return Some(i);
        }
        if i == v.len() || p.len() > v.len() - i {
            proof {
                assert(v@.skip(i as int).len() < p@.len() || v@.skip(i as int).len() == 0);
            }
            return None;
        }
        proof {
            lemma_find_step(v@, p@, i as int);
        }
        i += 1;
    }
}


/// The pieces `v[r[k].0..r[k].1]` named by a list of ranges.
pub open spec fn pieces(v: Seq<char>, r: Seq<(usize, usize)>) -> Seq<Seq<char>> {
    Seq::new(r.len(), |k: int| v.subrange(r[k].0 as int, r[k].1 as int))
}

/// All ranges lie inside `v`.
pub open spec fn ranges_in(v: Seq<char>, r: Seq<(usize, usize)>) -> bool {
    forall|k: int| 0 <= k < r.len() ==> (#[trigger] r[k]).0 <= r[k].1 <= v.len()
}

proof fn lemma_split_step(v: Seq<char>, p: Seq<char>, start: int, i: int)
    requires
        p.len() > 0,
        0 <= start <= i,
        i + p.len() <= v.len(),
        find(v.skip(start), p) == i - start,
    ensures
        split(v.skip(start), p) == seq![v.subrange(start, i)].add(
            split(v.skip(i + p.len()), p),
        ),
{
    let s = v.skip(start);
    assert(s.take(i - start) =~= v.subrange(start, i));
    assert(s.skip(i - start + p.len()) =~= v.skip(i + p.len()));
}

/// The ranges of the pieces of `split(v, p)`.
pub fn split_ranges(v: &Vec<char>, p: &Vec<char>) -> (r: Vec<(usize, usize)>)
    requires
        p.len() > 0,
    ensures
        ranges_in(v@, r@),
        pieces(v@, r@) == split(v@, p@),
{
    let mut out: Vec<(usize, usize)> = Vec::new();
    let mut start: usize = 0;
    assert(v@.skip(0) =~= v@);
    loop
        invariant
            p.len() > 0,
            start <= v.len(),
            ranges_in(v@, out@),
            split(v@, p@) == pieces(v@, out@) + split(v@.skip(start as int), p@),
        decreases v.len() - start,
    {
        let ghost before = out@;
        match find_from(v, start, p) {
            Some(i) => {
                proof {
                    lemma_split_step(v@, p@, start as int, i as int);
                }
                out.push((start, i));
                proof {
                    assert(pieces(v@, out@) =~= pieces(v@, before) + seq![
                        v@.subrange(start as int, i as int),
                    ]);
                }
                start = i + p.len();
            },
            None => {
                proof {
                    assert(split(v@.skip(start as int), p@) == seq![v@.skip(start as int)]);
                    assert(v@.skip(start as int) =~= v@.subrange(start as int, v.len() as int));
                }
                out.push((start, v.len()));
                proof {
                    assert(pieces(v@, out@) =~= pieces(v@, before) + seq![
                        v@.subrange(start as int, v.len() as int),
                    ]);
                }
                return out;
            },
        }
    }
}

/// `str::replace(s, from, to)` for a non-empty `from`.
pub fn replace_str(s: &str, from: &str, to: &str) -> (r: String)
    requires
        from@.len() > 0,
    ensures
        r@ == replace(s@, from@, to@),
{
    let v = chars_of(s);
    let p = chars_of(from);
    let rs = split_ranges(&v, &p);
    let ghost ps = split(v@, p@);
    let mut out = String::new();
    let mut k: usize = 0;
    while k < rs.len()
        invariant
            ranges_in(v@, rs@),
            pieces(v@, rs@) == ps,
            k <= rs.len(),
            out@ == join(ps.take(k as int), to@),
        decreases rs.len() - k,
    {
        let (a, b) = rs[k];
        let piece = string_of_range(&v, a, b);
        proof {
            assert(ps[k as int] == v@.subrange(a as int, b as int));
            assert(ps.take(k + 1).drop_last() =~= ps.take(k as int));
            assert(ps.take(k + 1).last() == ps[k as int]);
        }
        if k > 0 {
            push_str(&mut out, to);
        } else {
            assert(out@ =~= seq![]);
        }
        push_str(&mut out, piece.as_str());
        proof {
            if k == 0 {
                assert(out@ =~= ps.take(1)[0]);
            }
        }
        k += 1;
    }
    proof {
        assert(ps.take(rs.len() as int) =~= ps);
    }
    out
}


/// The ranges of the lines of `v` (see [`lines`]).
pub fn line_ranges(v: &Vec<char>) -> (r: Vec<(usize, usize)>)
    ensures
        ranges_in(v@, r@),
        pieces(v@, r@) == lines(v@),
{
    let mut nl: Vec<char> = Vec::new();
    nl.push('\n');
    assert(nl@ =~= seq!['\n']);
    let rs = split_ranges(v, &nl);
    let ghost ps = split(v@, nl@);
    assert(ps.len() >= 1);
    let mut n = rs.len();
    if n > 0 && rs[n - 1].0 == rs[n - 1].1 {
        n -= 1;
    }
    let ghost raw = raw_lines(v@);
    proof {
        assert(pieces(v@, rs@)[rs.len() - 1] == ps.last());
        if n < rs.len() {
            assert(raw =~= ps.drop_last());
        } else {
            assert(raw == ps);
        }
        assert(raw.len() == n);
    }
    let mut out: Vec<(usize, usize)> = Vec::new();
    let mut k: usize = 0;
    while k < n
        invariant
            ranges_in(v@, rs@),
            pieces(v@, rs@) == ps,
            n <= rs.len(),
            raw.len() == n,
            forall|j: int| 0 <= j < n ==> raw[j] == ps[j],
            k <= n,
            out@.len() == k,
            ranges_in(v@, out@),
            forall|j: int| 0 <= j < k ==> v@.subrange(out@[j].0 as int, out@[j].1 as int)
                == strip_cr(#[trigger] raw[j]),
        decreases n - k,
    {
        let (a, b) = rs[k];
        proof {
            assert(raw[k as int] == v@.subrange(a as int, b as int));
        }
        if b > a && v[b - 1] == '\r' {
            proof {
                assert(v@.subrange(a as int, b - 1) =~= v@.subrange(a as int, b as int).drop_last());
            }
            out.push((a, b - 1));
        } else {
            out.push((a, b));
        }
        k += 1;
    }
    proof {
        assert(pieces(v@, out@) =~= lines(v@));
    }
    out
}

/// The lines of `s` (`str::lines`), as strings.
pub fn lines_of(s: &str) -> (r: Vec<String>)
    ensures
        r@.len() == lines(s@).len(),
        forall|k: int| 0 <= k < r@.len() ==> (#[trigger] r@[k])@ == lines(s@)[k],
{
    let v = chars_of(s);
    let rs = line_ranges(&v);
    let mut out: Vec<String> = Vec::new();
    let mut k: usize = 0;
    while k < rs.len()
        invariant
            v@ == s@,
            ranges_in(v@, rs@),
            pieces(v@, rs@) == lines(v@),
            k <= rs.len(),
            out@.len() == k,
            forall|j: int| 0 <= j < k ==> (#[trigger] out@[j])@ == lines(s@)[j],
        decreases rs.len() - k,
    {
        let (a, b) = rs[k];
        let line = string_of_range(&v, a, b);
        proof {
            assert(pieces(v@, rs@)[k as int] == line@);
        }
        out.push(line);
        k += 1;
    }
    out
}


/// Decimal digit character for `d < 10`.
pub open spec fn digit_char(d: nat) -> char {
    (('0' as u32) + d) as char
}

/// Decimal representation of `n` (`n.to_string()`).
pub open spec fn decimal(n: nat) -> Seq<char>
    decreases n,
{
    if n < 10 {
        seq![digit_char(n)]
    } else {
        decimal(n / 10).push(digit_char(n % 10))
    }
}

proof fn lemma_utf8_len_front(s: Seq<char>)
    requires
        s.len() > 0,
    ensures
        utf8_len(s) == char_utf8_len(s[0]) + utf8_len(s.drop_first()),
    decreases s.len(),
{
    if s.len() > 1 {
        lemma_utf8_len_front(s.drop_last());
        assert(s.drop_last().drop_first() =~= s.drop_first().drop_last());
        assert(s.drop_first().last() == s.last());
        assert(s.drop_last()[0] == s[0]);
        assert(utf8_len(s.drop_first()) == utf8_len(s.drop_first().drop_last()) + char_utf8_len(
            s.drop_first().last(),
        ));
    } else {
        assert(s.drop_last().len() == 0);
        assert(s.drop_first().len() == 0);
        assert(s.last() == s[0]);
        assert(utf8_len(s.drop_last()) == 0);
        assert(utf8_len(s.drop_first()) == 0);
    }
}

/// `utf8_len` is the length of vstd's UTF-8 encoding.
pub proof fn lemma_utf8_len_encode(s: Seq<char>)
    ensures
        utf8_len(s) == encode_utf8(s).len(),
    decreases s.len(),
{
    if s.len() > 0 {
        lemma_utf8_len_front(s);
        lemma_utf8_len_encode(s.drop_first());
        char_is_scalar(s[0]);
    }
}

pub proof fn lemma_utf8_len_concat(a: Seq<char>, b: Seq<char>)
    ensures
        utf8_len(a + b) == utf8_len(a) + utf8_len(b),
    decreases b.len(),
{
    if b.len() == 0 {
        assert(a + b =~= a);
    } else {
        lemma_utf8_len_concat(a, b.drop_last());
        assert((a + b).drop_last() =~= a + b.drop_last());
    }
}

/// Byte length of `s` (`str::len`): the number of bytes of its UTF-8
/// encoding, which `str` documents as the value of `len`.
#[verifier::external_body]
pub(crate) fn utf8_length(s: &str) -> (r: usize)
    ensures
        r == utf8_len(s@),
{
    s.len()
}

/// Number of leading characters of `v` that fit in `max` UTF-8 bytes.
pub fn fit_prefix(v: &Vec<char>, max: usize) -> (k: usize)
    ensures
        k == fit_prefix_len(v@, max as nat),
        k <= v.len(),
        utf8_len(v@.take(k as int)) <= max,
{
    let mut k: usize = 0;
    let mut bytes: usize = 0;
    assert(v@.take(0) =~= seq![]);
    while k < v.len() && char_len_utf8(v[k]) <= max - bytes
        invariant
            k <= v.len(),
            bytes == utf8_len(v@.take(k as int)),
            bytes <= max,
        decreases v.len() - k,
    {
        let w = char_len_utf8(v[k]);
        proof {
            lemma_utf8_len_take_step(v@, k as int);
        }
        bytes = bytes + w;
        k += 1;
    }
    proof {
        let f = fit_prefix_len(v@, max as nat);
        lemma_fit_prefix(v@, max as nat);
        if k < v.len() {
            lemma_utf8_len_take_step(v@, k as int);
        }
        if k < f {
            lemma_utf8_len_mono(v@, k + 1, f as int);
        }
        if k > f {
            lemma_utf8_len_mono(v@, f as int + 1, k as int);
        }
    }
    k
}

/// Byte offset of the end of the longest character prefix of `s` that fits
/// in `max` bytes: the largest character boundary not above `max`.
pub fn floor_char_boundary(s: &str, max: usize) -> (r: usize)
    ensures
        r == utf8_len(s@.take(fit_prefix_len(s@, max as nat) as int)),
        r <= max,
{
    let v = chars_of(s);
    let k = fit_prefix(&v, max);
    let mut bytes: usize = 0;
    let mut i: usize = 0;
    assert(v@.take(0) =~= seq![]);
    while i < k
        invariant
            k <= v.len(),
            i <= k,
            bytes == utf8_len(v@.take(i as int)),
            utf8_len(v@.take(k as int)) <= max,
        decreases k - i,
    {
        proof {
            lemma_utf8_len_take_step(v@, i as int);
            lemma_utf8_len_mono(v@, i + 1, k as int);
        }
        bytes = bytes + char_len_utf8(v[i]);
        i += 1;
    }
    bytes
}

/// Appends the decimal representation of `n`.
pub fn push_decimal(s: &mut String, n: u64)
    ensures
        final(s)@ == old(s)@ + decimal(n as nat),
    decreases n,
{
    if n < 10 {
        let c = char_of_digit(n);
        push_char(s, c);
        assert(decimal(n as nat) =~= seq![c]);
    } else {
        push_decimal(s, n / 10);
        let c = char_of_digit(n % 10);
        push_char(s, c);
        assert(decimal(n as nat) =~= decimal((n / 10) as nat).push(c));
    }
}

fn char_of_digit(d: u64) -> (c: char)
    requires
        d < 10,
    ensures
        c == digit_char(d as nat),
{
    if d == 0 {
        '0'
    } else if d == 1 {
        '1'
    } else if d == 2 {
        '2'
    } else if d == 3 {
        '3'
    } else if d == 4 {
        '4'
    } else if d == 5 {
        '5'
    } else if d == 6 {
        '6'
    } else if d == 7 {
        '7'
    } else if d == 8 {
        '8'
    } else {
        '9'
    }
}

/// Whether `p` is a prefix of `s` (`str::starts_with`).
pub fn str_starts_with(s: &str, p: &str) -> (r: bool)
    ensures
        r == starts_with(s@, p@),
{
    let v = chars_of(s);
    let w = chars_of(p);
    assert(v@.skip(0) =~= v@);
    matches_at(&v, 0, &w)
}

/// Whether `p` occurs in `s` (`str::contains`).
pub fn str_contains(s: &str, p: &str) -> (r: bool)
    ensures
        r == contains(s@, p@),
{
    let v = chars_of(s);
    let w = chars_of(p);
    assert(v@.skip(0) =~= v@);
    find_from(&v, 0, &w).is_some()
}

/// `str::trim`, as a new string.
pub fn trim_str(s: &str) -> (r: String)
    ensures
        r@ == trim(s@),
{
    let v = chars_of(s);
    let (a, b) = trim_range(&v, 0, v.len());
    assert(v@.subrange(0, v@.len() as int) =~= v@);
    string_of_range(&v, a, b)
}

/// Whether the characters of two strings are equal.
pub fn str_eq(a: &str, b: &str) -> (r: bool)
    ensures
        r == (a@ == b@),
{
    let v = chars_of(a);
    let w = chars_of(b);
    if v.len() != w.len() {
        return false;
    }
    let mut i: usize = 0;
    while i < v.len()
        invariant
            v@ == a@,
            w@ == b@,
            v.len() == w.len(),
            i <= v.len(),
            forall|j: int| 0 <= j < i ==> v@[j] == w@[j],
        decreases v.len() - i,
    {
        if v[i] != w[i] {
            assert(v@[i as int] != w@[i as int]);
            return false;
        }
        i += 1;
    }
    assert(v@ =~= w@);
    true
}

/// A copy of a string slice.
pub fn to_owned_str(s: &str) -> (r: String)
    ensures
        r@ == s@,
{
    s.to_owned()
}


/// `v[a..b]` starts with `p`.
pub fn range_starts_with(v: &Vec<char>, a: usize, b: usize, p: &Vec<char>) -> (r: bool)
    requires
        a <= b <= v.len(),
    ensures
        r == starts_with(v@.subrange(a as int, b as int), p@),
{
    if p.len() > b - a {
        return false;
    }
    let r = matches_at(v, a, p);
    proof {
        assert(v@.subrange(a as int, b as int).take(p.len() as int) =~= v@.skip(a as int).take(
            p.len() as int,
        ));
    }
    r
}


/// The strings of `v` joined with `sep` (`[String]::join`).
pub fn join_strings(v: &Vec<String>, sep: &str) -> (r: String)
    ensures
        r@ == join(strs(v@), sep@),
{
    let mut out = String::new();
    let mut k: usize = 0;
    while k < v.len()
        invariant
            k <= v.len(),
            out@ == join(strs(v@).take(k as int), sep@),
        decreases v.len() - k,
    {
        proof {
            assert(strs(v@).take(k + 1).drop_last() =~= strs(v@).take(k as int));
            assert(strs(v@).take(k + 1).last() == v@[k as int]@);
            if k == 0 {
                assert(out@ =~= seq![]);
            }
        }
        if k > 0 {
            push_str(&mut out, sep);
        }
        push_str(&mut out, v[k].as_str());
        proof {
            if k == 0 {
                assert(strs(v@).take(1) =~= seq![v@[0]@]);
                assert(out@ =~= v@[0]@);
            }
        }
        k += 1;
    }
    proof {
        assert(strs(v@).take(v@.len() as int) =~= strs(v@));
    }
    out
}

/// Whether `list` holds a string equal to `item`.
pub fn contains_string(list: &Vec<String>, item: &str) -> (r: bool)
    ensures
        r == strs(list@).contains(item@),
{
    let mut i: usize = 0;
    while i < list.len()
        invariant
            i <= list.len(),
            forall|j: int| 0 <= j < i ==> strs(list@)[j] != item@,
        decreases list.len() - i,
    {
        if str_eq(list[i].as_str(), item) {
            proof {
                assert(strs(list@)[i as int] == item@);
            }
            return true;
        }
        i += 1;
    }
    false
}

/// Lexicographic order of code points (the order of `String` comparison).
pub open spec fn lex_le(a: Seq<char>, b: Seq<char>) -> bool
    decreases a.len(),
{
    if a.len() == 0 {
        true
    } else if b.len() == 0 {
        false
    } else if a[0] != b[0] {
        (a[0] as u32) < (b[0] as u32)
    } else {
        lex_le(a.drop_first(), b.drop_first())
    }
}

/// Whether `a` sorts no later than `b`.
pub fn str_lex_le(a: &str, b: &str) -> (r: bool)
    ensures
        r == lex_le(a@, b@),
{
    let v = chars_of(a);
    let w = chars_of(b);
    let mut i: usize = 0;
    proof {
        assert(v@.skip(0) =~= v@);
        assert(w@.skip(0) =~= w@);
    }
    while i < v.len() && i < w.len() && v[i] == w[i]
        invariant
            i <= v.len(),
            i <= w.len(),
            lex_le(a@, b@) == lex_le(v@.skip(i as int), w@.skip(i as int)),
        decreases v.len() - i,
    {
        proof {
            assert(v@.skip(i as int).drop_first() =~= v@.skip(i + 1));
            assert(w@.skip(i as int).drop_first() =~= w@.skip(i + 1));
        }
        i += 1;
    }
    proof {
        if i < v.len() && i < w.len() {
            assert(v@.skip(i as int)[0] == v@[i as int]);
            assert(w@.skip(i as int)[0] == w@[i as int]);
        }
    }
    if i == v.len() {
        true
    } else if i == w.len() {
        false
    } else {
        (v[i] as u32) < (w[i] as u32)
    }
}

} // verus!
