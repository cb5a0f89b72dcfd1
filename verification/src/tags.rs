//! Reading the tags of a note from the YAML text of its frontmatter.
use vstd::prelude::*;

use crate::text::{
    chars_of, lines, split, starts_with, str_eq, string_of_range, strs, to_owned_str, trim,
    trim_range,
};

verus! {

/// Number of leading characters equal to `c`.
pub open spec fn lead_char(s: Seq<char>, c: char) -> nat
    decreases s.len(),
{
    if s.len() > 0 && s[0] == c {
        1 + lead_char(s.drop_first(), c)
    } else {
        0
    }
}

/// Number of trailing characters equal to `c`.
pub open spec fn trail_char(s: Seq<char>, c: char) -> nat
    decreases s.len(),
{
    if s.len() > 0 && s.last() == c {
        1 + trail_char(s.drop_last(), c)
    } else {
        0
    }
}

/// `s.trim_start_matches(c)`.
pub open spec fn strip_start(s: Seq<char>, c: char) -> Seq<char> {
    s.skip(lead_char(s, c) as int)
}

/// `s.trim_end_matches(c)`.
pub open spec fn strip_end(s: Seq<char>, c: char) -> Seq<char> {
    s.take(s.len() - trail_char(s, c))
}

/// `s.trim_matches(c)`.
pub open spec fn strip_both(s: Seq<char>, c: char) -> Seq<char> {
    strip_end(strip_start(s, c), c)
}

/// An inline tag: trimmed, quotes stripped, trimmed again.
pub open spec fn inline_tag(t: Seq<char>) -> Seq<char> {
    trim(strip_both(strip_both(trim(t), '"'), '\''))
}

/// A list item tag: trimmed, quotes stripped.
pub open spec fn item_tag(t: Seq<char>) -> Seq<char> {
    strip_both(strip_both(trim(t), '"'), '\'')
}

/// Adds a tag unless it is empty or already there.
pub open spec fn add_tag(tags: Seq<Seq<char>>, t: Seq<char>) -> Seq<Seq<char>> {
    if t.len() == 0 || tags.contains(t) {
        tags
    } else {
        tags.push(t)
    }
}

/// Adds the tags of an inline list `a, "b", 'c'`, left to right.
pub open spec fn add_inline_tags(tags: Seq<Seq<char>>, parts: Seq<Seq<char>>) -> Seq<Seq<char>>
    decreases parts.len(),
{
    if parts.len() == 0 {
        tags
    } else {
        add_tag(add_inline_tags(tags, parts.drop_last()), inline_tag(parts.last()))
    }
}

/// The scan state: tags found, inside a `tags:` list, finished.
pub type TagScan = (Seq<Seq<char>>, bool, bool);

/// One line of the scan: `tags: [..]` adds the inline tags and finishes;
/// `tags:` starts a list whose `- item` lines add tags until a non-blank
/// line of another kind.
pub open spec fn tag_step(st: TagScan, line: Seq<char>) -> TagScan {
    if st.2 {
        st
    } else {
        let t = trim(line);
        if starts_with(t, "tags:"@) {
            let rest = trim(t.skip(5));
            if starts_with(rest, "["@) {
                let inner = strip_end(strip_start(rest, '['), ']');
                (add_inline_tags(st.0, split(inner, ","@)), st.1, true)
            } else {
                (st.0, true, false)
            }
        } else if st.1 {
            if starts_with(t, "- "@) {
                (add_tag(st.0, item_tag(t.skip(2))), true, false)
            } else if t.len() > 0 {
                (st.0, false, false)
            } else {
                st
            }
        } else {
            st
        }
    }
}

/// The scan over the first `k` lines.
pub open spec fn tag_scan(ls: Seq<Seq<char>>, k: int, init: Seq<Seq<char>>) -> TagScan
    decreases k,
{
    if k <= 0 {
        (init, false, false)
    } else {
        tag_step(tag_scan(ls, k - 1, init), ls[k - 1])
    }
}

/// The tags of the YAML text added to `init`.
pub open spec fn yaml_tags(yaml: Seq<char>, init: Seq<Seq<char>>) -> Seq<Seq<char>> {
    tag_scan(lines(yaml), lines(yaml).len() as int, init).0
}

/// The bounds after skipping leading `c` from `lo`.
fn skip_lead(v: &Vec<char>, lo: usize, hi: usize, c: char) -> (a: usize)
    requires
        lo <= hi <= v.len(),
    ensures
        lo <= a <= hi,
        v@.subrange(a as int, hi as int) == strip_start(v@.subrange(lo as int, hi as int), c),
{
    let mut a = lo;
    while a < hi && v[a] == c
        invariant
            lo <= a <= hi <= v.len(),
            lead_char(v@.subrange(lo as int, hi as int), c) == (a - lo) + lead_char(
                v@.subrange(a as int, hi as int),
                c,
            ),
        decreases hi - a,
    {
        assert(v@.subrange(a as int, hi as int).drop_first() =~= v@.subrange(a + 1, hi as int));
        a += 1;
    }
    assert(v@.subrange(lo as int, hi as int).skip(a - lo) =~= v@.subrange(a as int, hi as int));
    a
}

/// The bounds after dropping trailing `c` before `hi`.
pub(crate) fn skip_trail(v: &Vec<char>, lo: usize, hi: usize, c: char) -> (b: usize)
    requires
        lo <= hi <= v.len(),
    ensures
        lo <= b <= hi,
        v@.subrange(lo as int, b as int) == strip_end(v@.subrange(lo as int, hi as int), c),
{
    let mut b = hi;
    while b > lo && v[b - 1] == c
        invariant
            lo <= b <= hi <= v.len(),
            trail_char(v@.subrange(lo as int, hi as int), c) == (hi - b) + trail_char(
                v@.subrange(lo as int, b as int),
                c,
            ),
        decreases b - lo,
    {
        assert(v@.subrange(lo as int, b as int).drop_last() =~= v@.subrange(lo as int, b - 1));
        b -= 1;
    }
    assert(v@.subrange(lo as int, hi as int).take(b - lo) =~= v@.subrange(lo as int, b as int));
    b
}

/// `trim_matches(c)` on `v[lo..hi]`.
fn skip_both(v: &Vec<char>, lo: usize, hi: usize, c: char) -> (r: (usize, usize))
    requires
        lo <= hi <= v.len(),
    ensures
        lo <= r.0 <= r.1 <= hi,
        v@.subrange(r.0 as int, r.1 as int) == strip_both(v@.subrange(lo as int, hi as int), c),
{
    let a = skip_lead(v, lo, hi, c);
    let b = skip_trail(v, a, hi, c);
    (a, b)
}

/// Adds a tag unless it is empty or already there.
fn push_tag(out: &mut Vec<String>, t: String)
    ensures
        strs(final(out)@) == add_tag(strs(old(out)@), t@),
{
    if t.unicode_len() == 0 {
        return;
    }
    let mut i: usize = 0;
    while i < out.len()
        invariant
            i <= out.len(),
            forall|j: int| 0 <= j < i ==> strs(out@)[j] != t@,
        decreases out.len() - i,
    {
        if str_eq(out[i].as_str(), t.as_str()) {
            proof {
                assert(strs(out@)[i as int] == t@);
            }
            return;
        }
        i += 1;
    }
    let ghost before = out@;
    out.push(t);
    proof {
        assert(strs(out@) =~= strs(before).push(t@));
    }
}

/// The inline tag of `v[lo..hi]`.
fn clean_inline(v: &Vec<char>, lo: usize, hi: usize) -> (r: String)
    requires
        lo <= hi <= v.len(),
    ensures
        r@ == inline_tag(v@.subrange(lo as int, hi as int)),
{
    let (a, b) = trim_range(v, lo, hi);
    let (c, d) = skip_both(v, a, b, '"');
    let (e, f) = skip_both(v, c, d, '\'');
    let (g, h) = trim_range(v, e, f);
    string_of_range(v, g, h)
}

/// Adds the tags of the inline list `v[c..d]` (which starts with `[`).
fn add_inline(out: &mut Vec<String>, v: &Vec<char>, c: usize, d: usize)
    requires
        c <= d <= v.len(),
    ensures
        strs(final(out)@) == add_inline_tags(
            strs(old(out)@),
            split(strip_end(strip_start(v@.subrange(c as int, d as int), '['), ']'), ","@),
        ),
{
    let comma = chars_of(",");
    proof {
        reveal_strlit(",");
    }
    let e = skip_lead(v, c, d, '[');
    let f = skip_trail(v, e, d, ']');
    let iv = crate::text::copy_range(v, e, f);
    let rs = crate::text::split_ranges(&iv, &comma);
    let ghost parts = split(iv@, ","@);
    let ghost t0 = strs(out@);
    let mut p: usize = 0;
    while p < rs.len()
        invariant
            p <= rs.len(),
            crate::text::ranges_in(iv@, rs@),
            crate::text::pieces(iv@, rs@) == parts,
            strs(out@) == add_inline_tags(t0, parts.take(p as int)),
        decreases rs.len() - p,
    {
        let (x, y) = rs[p];
        let tag = clean_inline(&iv, x, y);
        proof {
            assert(parts.take(p + 1).drop_last() =~= parts.take(p as int));
            assert(parts.take(p + 1).last() == iv@.subrange(x as int, y as int));
        }
        push_tag(out, tag);
        p += 1;
    }
    proof {
        assert(parts.take(rs.len() as int) =~= parts);
        assert(strip_end(strip_start(v@.subrange(c as int, d as int), '['), ']') =~= iv@);
    }
}

/// One line of the tag scan (see `tag_step`), from a state that is not
/// finished; returns the new `in_tags` and whether the scan finished.
fn tag_line_step(out: &mut Vec<String>, line: &str, in_tags: bool) -> (r: (bool, bool))
    ensures
        tag_step((strs(old(out)@), in_tags, false), line@) == (strs(final(out)@), r.0, r.1),
{
    proof {
        reveal_strlit("tags:");
        reveal_strlit("[");
        reveal_strlit("- ");
        assert("["@ =~= seq!['[']);
    }
    let v = chars_of(line);
    let (a, b) = trim_range(&v, 0, v.len());
    proof {
        assert(v@.subrange(0, v@.len() as int) =~= v@);
    }
    let t = string_of_range(&v, a, b);
    assert(t@ == trim(line@));
    if crate::text::str_starts_with(t.as_str(), "tags:") {
        let (c, d) = trim_range(&v, a + 5, b);
        proof {
            assert(t@.skip(5) =~= v@.subrange(a + 5, b as int));
        }
        let ghost rest = v@.subrange(c as int, d as int);
        assert(rest == trim(trim(line@).skip(5)));
        if c < d && v[c] == '[' {
            proof {
                assert(rest.take(1) =~= seq!['[']);
                assert(starts_with(rest, "["@));
            }
            add_inline(out, &v, c, d);
            (in_tags, true)
        } else {
            proof {
                if c < d {
                    assert(rest[0] == v@[c as int]);
                    assert(rest.take(1)[0] == rest[0]);
                }
                assert(!starts_with(rest, "["@));
            }
            (true, false)
        }
    } else if in_tags {
        if crate::text::str_starts_with(t.as_str(), "- ") {
            let (c, d) = trim_range(&v, a + 2, b);
            proof {
                assert(t@.skip(2) =~= v@.subrange(a + 2, b as int));
            }
            let (e, f) = skip_both(&v, c, d, '"');
            let (g, h) = skip_both(&v, e, f, '\'');
            let tag = string_of_range(&v, g, h);
            assert(tag@ == item_tag(trim(line@).skip(2)));
            push_tag(out, tag);
            (true, false)
        } else if a < b {
            (false, false)
        } else {
            (true, false)
        }
    } else {
        (false, false)
    }
}

/// Reads the tags of a YAML frontmatter text into `out` (each once): a
/// `tags: [a, "b"]` line or a `tags:` line followed by `- item` lines.
pub fn extract_yaml_tags(yaml: &str, out: &mut Vec<String>)
    ensures
        strs(final(out)@) == yaml_tags(yaml@, strs(old(out)@)),
{
    let ls = crate::text::lines_of(yaml);
    let ghost lv = lines(yaml@);
    let ghost init = strs(out@);
    let mut in_tags = false;
    let mut k: usize = 0;
    while k < ls.len()
        invariant
            k <= ls.len(),
            lv == lines(yaml@),
            init == strs(old(out)@),
            ls@.len() == lv.len(),
            forall|j: int| 0 <= j < ls@.len() ==> (#[trigger] ls@[j])@ == lv[j],
            tag_scan(lv, k as int, init) == (strs(out@), in_tags, false),
        decreases ls.len() - k,
    {
        assert(ls@[k as int]@ == lv[k as int]);
        let (next, done) = tag_line_step(out, ls[k].as_str(), in_tags);
        assert(tag_scan(lv, k + 1, init) == tag_step(tag_scan(lv, k as int, init), lv[k as int]));
        if done {
            proof {
                lemma_scan_done(lv, k + 1, init);
            }
            return;
        }
        in_tags = next;
        k += 1;
    }
}

/// Once finished, the scan stays as it is.
proof fn lemma_scan_done(ls: Seq<Seq<char>>, k: int, init: Seq<Seq<char>>)
    requires
        0 <= k <= ls.len(),
        tag_scan(ls, k, init).2,
    ensures
        tag_scan(ls, ls.len() as int, init) == tag_scan(ls, k, init),
    decreases ls.len() - k,
{
    if k < ls.len() {
        lemma_scan_done(ls, k + 1, init);
    }
}
} // verus!
