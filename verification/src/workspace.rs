//! What the memory observes of the workspace: which scripts the notes are
//! written in, the folders with the most notes, the topics they suggest,
//! and the tag vocabulary.
use vstd::prelude::*;

use crate::memory::{cjk_count, is_cjk, is_cjk_char, FrequentPath};
use crate::text::{chars_of, decimal, push_decimal, push_str, string_of_range, strs, to_owned_str};

verus! {

/// Files sampled for the language and tag observation.
pub const SAMPLE_FILE_COUNT: usize = 30;

/// Characters read from the start of each sampled file.
pub const CONTENT_PEEK_CHARS: usize = 1024;

/// At most this many tags are kept.
pub const MAX_TAG_VOCABULARY: usize = 30;

/// At most this many folders are kept.
pub const MAX_FREQUENT_PATHS: usize = 15;

/// At most this many topics are kept.
pub const MAX_TOPICS: usize = 20;

/// An ASCII letter or digit.
pub open spec fn is_ascii_alnum(c: char) -> bool {
    ('a' <= c && c <= 'z') || ('A' <= c && c <= 'Z') || ('0' <= c && c <= '9')
}

/// Number of ASCII letters and digits in `s` that are not CJK.
pub open spec fn ascii_count(s: Seq<char>) -> nat
    decreases s.len(),
{
    if s.len() == 0 {
        0
    } else {
        ascii_count(s.drop_last()) + if !is_cjk_char(s.last()) && is_ascii_alnum(s.last()) {
            1nat
        } else {
            0nat
        }
    }
}

/// The first `n` characters of `s`.
pub open spec fn peek(s: Seq<char>, n: nat) -> Seq<char> {
    if s.len() <= n {
        s
    } else {
        s.take(n as int)
    }
}

/// Counts the CJK characters and the ASCII letters and digits among the
/// first `limit` characters of `text`.
pub fn script_counts(text: &str, limit: usize) -> (r: (usize, usize))
    ensures
        r.0 == cjk_count(peek(text@, limit as nat)),
        r.1 == ascii_count(peek(text@, limit as nat)),
{
    let v = chars_of(text);
    let n = if v.len() <= limit {
        v.len()
    } else {
        limit
    };
    let mut cjk: usize = 0;
    let mut ascii: usize = 0;
    let mut i: usize = 0;
    while i < n
        invariant
            i <= n <= v.len(),
            cjk == cjk_count(v@.take(i as int)),
            ascii == ascii_count(v@.take(i as int)),
            cjk + ascii <= i,
        decreases n - i,
    {
        proof {
            assert(v@.take(i + 1).drop_last() =~= v@.take(i as int));
        }
        let c = v[i];
        if is_cjk(c) {
            cjk += 1;
        } else if ('a' <= c && c <= 'z') || ('A' <= c && c <= 'Z') || ('0' <= c && c <= '9') {
            ascii += 1;
        }
        i += 1;
    }
    proof {
        assert(v@.take(n as int) =~= peek(text@, limit as nat));
    }
    (cjk, ascii)
}

/// Index of the last `/` in `s`, or -1.
pub open spec fn last_slash(s: Seq<char>) -> int
    decreases s.len(),
{
    if s.len() == 0 {
        -1
    } else if s.last() == '/' {
        s.len() - 1
    } else {
        last_slash(s.drop_last())
    }
}

proof fn lemma_last_slash(s: Seq<char>)
    ensures
        -1 <= last_slash(s) < s.len(),
        last_slash(s) >= 0 ==> s[last_slash(s)] == '/',
        forall|j: int| last_slash(s) < j < s.len() ==> s[j] != '/',
    decreases s.len(),
{
    if s.len() > 0 && s.last() != '/' {
        lemma_last_slash(s.drop_last());
        assert forall|j: int| last_slash(s) < j < s.len() implies s[j] != '/' by {
            if j < s.len() - 1 {
                assert(s[j] == s.drop_last()[j]);
            }
        }
    }
}

/// The folder of a note path, with its trailing `/` (empty at the root).
pub open spec fn parent_dir(p: Seq<char>) -> Seq<char> {
    if last_slash(p) < 0 {
        seq![]
    } else {
        p.take(last_slash(p) + 1)
    }
}

/// The file name of a path without a `.md` suffix.
pub open spec fn stem(p: Seq<char>) -> Seq<char> {
    let name = p.skip(last_slash(p) + 1);
    if crate::text::ends_with(name, ".md"@) {
        name.take(name.len() - 3)
    } else {
        name
    }
}

/// Position of the last `/` of `v`, or `v.len()` when there is none.
fn find_last_slash(v: &Vec<char>) -> (r: usize)
    ensures
        last_slash(v@) < 0 ==> r == v.len(),
        last_slash(v@) >= 0 ==> r == last_slash(v@),
{
    let mut i = v.len();
    assert(v@.take(i as int) =~= v@);
    while i > 0
        invariant
            i <= v.len(),
            last_slash(v@) == last_slash(v@.take(i as int)),
        decreases i,
    {
        proof {
            assert(v@.take(i as int).drop_last() =~= v@.take(i - 1));
            assert(v@.take(i as int).last() == v@[i - 1]);
        }
        if v[i - 1] == '/' {
            return i - 1;
        }
        i -= 1;
    }
    proof {
        assert(v@.take(0) =~= Seq::<char>::empty());
    }
    v.len()
}

/// The folder of a note path (see `parent_dir`).
pub fn parent_dir_of(path: &str) -> (r: String)
    ensures
        r@ == parent_dir(path@),
{
    let v = chars_of(path);
    let k = find_last_slash(&v);
    proof {
        lemma_last_slash(v@);
    }
    if k == v.len() {
        String::new()
    } else {
        string_of_range(&v, 0, k + 1)
    }
}

/// The CJK characters of the file names (without `.md`) of `paths`.
pub open spec fn stems_cjk(paths: Seq<Seq<char>>) -> nat
    decreases paths.len(),
{
    if paths.len() == 0 {
        0
    } else {
        stems_cjk(paths.drop_last()) + cjk_count(stem(paths.last()))
    }
}

/// The ASCII letters and digits of the file names (without `.md`) of `paths`.
pub open spec fn stems_ascii(paths: Seq<Seq<char>>) -> nat
    decreases paths.len(),
{
    if paths.len() == 0 {
        0
    } else {
        stems_ascii(paths.drop_last()) + ascii_count(stem(paths.last()))
    }
}

/// `n`, or `usize::MAX` when it does not fit.
pub open spec fn capped(n: nat) -> usize {
    if n > usize::MAX {
        usize::MAX
    } else {
        n as usize
    }
}

/// The script counts of the file names (without `.md`) of `paths`, used
/// when no note could be read; the totals saturate.
pub fn stem_script_counts(paths: &Vec<String>) -> (r: (usize, usize))
    ensures
        r.0 == capped(stems_cjk(strs(paths@))),
        r.1 == capped(stems_ascii(strs(paths@))),
{
    let mut cjk: usize = 0;
    let mut ascii: usize = 0;
    let mut i: usize = 0;
    while i < paths.len()
        invariant
            i <= paths.len(),
            cjk == capped(stems_cjk(strs(paths@).take(i as int))),
            ascii == capped(stems_ascii(strs(paths@).take(i as int))),
        decreases paths.len() - i,
    {
        proof {
            reveal_strlit(".md");
        }
        let v = chars_of(paths[i].as_str());
        let k = find_last_slash(&v);
        proof {
            lemma_last_slash(v@);
        }
        let start = if k == v.len() {
            0
        } else {
            k + 1
        };
        let md_end = v.len() - start >= 3 && v[v.len() - 3] == '.' && v[v.len() - 2] == 'm' && v[v.len()
            - 1] == 'd';
        let end = if md_end {
            v.len() - 3
        } else {
            v.len()
        };
        proof {
            let name = v@.skip(last_slash(v@) + 1);
            assert(name =~= v@.subrange(start as int, v@.len() as int));
            if md_end {
                assert(name.skip(name.len() - 3) =~= ".md"@);
                assert(stem(v@) =~= v@.subrange(start as int, end as int));
            } else {
                if crate::text::ends_with(name, ".md"@) {
                    assert(name.skip(name.len() - 3)[0] == v@[v.len() - 3]);
                    assert(name.skip(name.len() - 3)[1] == v@[v.len() - 2]);
                    assert(name.skip(name.len() - 3)[2] == v@[v.len() - 1]);
                }
                assert(stem(v@) =~= v@.subrange(start as int, end as int));
            }
        }
        let s = string_of_range(&v, start, end);
        let (c, a) = script_counts(s.as_str(), s.unicode_len());
        proof {
            assert(peek(s@, s@.len()) =~= s@);
        }
        proof {
            let t = strs(paths@).take(i as int + 1);
            assert(t.drop_last() =~= strs(paths@).take(i as int));
            assert(t.last() == paths@[i as int]@);
        }
        cjk = cjk.saturating_add(c);
        ascii = ascii.saturating_add(a);
        i += 1;
    }
    proof {
        assert(strs(paths@).take(paths@.len() as int) =~= strs(paths@));
    }
    (cjk, ascii)
}

/// The number of notes in folder `d` among `paths`.
pub open spec fn notes_in(paths: Seq<Seq<char>>, d: Seq<char>) -> nat
    decreases paths.len(),
{
    if paths.len() == 0 {
        0
    } else {
        notes_in(paths.drop_last(), d) + if parent_dir(paths.last()) == d {
            1nat
        } else {
            0nat
        }
    }
}

/// The folders (not the root) of `paths` with their note counts, in the
/// order they first appear.
pub open spec fn dir_counts(paths: Seq<Seq<char>>) -> Seq<(Seq<char>, nat)>
    decreases paths.len(),
{
    if paths.len() == 0 {
        seq![]
    } else {
        let rest = dir_counts(paths.drop_last());
        let d = parent_dir(paths.last());
        if d.len() == 0 {
            rest
        } else if exists|i: int| 0 <= i < rest.len() && rest[i].0 == d {
            let i = choose|i: int| 0 <= i < rest.len() && rest[i].0 == d;
            rest.update(i, (d, rest[i].1 + 1))
        } else {
            rest.push((d, 1nat))
        }
    }
}

/// Where `x` goes in `s` to keep the counts non-increasing, after every
/// element with at least its count.
pub open spec fn count_pos(s: Seq<(Seq<char>, nat)>, x: (Seq<char>, nat)) -> int
    decreases s.len(),
{
    if s.len() == 0 {
        0
    } else if s.last().1 >= x.1 {
        s.len() as int
    } else {
        count_pos(s.drop_last(), x)
    }
}

/// `s` sorted by count, largest first, stably.
pub open spec fn sort_by_count(s: Seq<(Seq<char>, nat)>) -> Seq<(Seq<char>, nat)>
    decreases s.len(),
{
    if s.len() == 0 {
        seq![]
    } else {
        let sorted = sort_by_count(s.drop_last());
        sorted.insert(count_pos(sorted, s.last()), s.last())
    }
}

/// The folders with the most notes, at most `MAX_FREQUENT_PATHS` of them,
/// each described as `<n> notes`.
pub open spec fn frequent_dirs(paths: Seq<Seq<char>>) -> Seq<(Seq<char>, nat)> {
    let s = sort_by_count(dir_counts(paths));
    if s.len() > MAX_FREQUENT_PATHS {
        s.take(MAX_FREQUENT_PATHS as int)
    } else {
        s
    }
}

/// The description of a folder with `n` notes.
pub open spec fn notes_text(n: nat) -> Seq<char> {
    decimal(n) + " notes"@
}

proof fn lemma_count_pos(s: Seq<(Seq<char>, nat)>, x: (Seq<char>, nat))
    ensures
        0 <= count_pos(s, x) <= s.len(),
    decreases s.len(),
{
    if s.len() > 0 && s.last().1 < x.1 {
        lemma_count_pos(s.drop_last(), x);
    }
}

proof fn lemma_sort_by_count_len(s: Seq<(Seq<char>, nat)>)
    ensures
        sort_by_count(s).len() == s.len(),
    decreases s.len(),
{
    if s.len() > 0 {
        lemma_sort_by_count_len(s.drop_last());
        lemma_count_pos(sort_by_count(s.drop_last()), s.last());
    }
}

/// The counts of a list of folder counts.
pub open spec fn count_views(v: Seq<(String, usize)>) -> Seq<(Seq<char>, nat)> {
    v.map_values(|p: (String, usize)| (p.0@, p.1 as nat))
}

/// Counts the notes per folder, in order of first appearance.
fn count_dirs(paths: &Vec<String>) -> (r: Vec<(String, usize)>)
    ensures
        count_views(r@) == dir_counts(strs(paths@)),
{
    let ghost ps = strs(paths@);
    let mut out: Vec<(String, usize)> = Vec::new();
    let mut i: usize = 0;
    while i < paths.len()
        invariant
            i <= paths.len(),
            ps == strs(paths@),
            count_views(out@) == dir_counts(ps.take(i as int)),
            forall|j: int| 0 <= j < out@.len() ==> (#[trigger] out@[j]).1 <= i,
            forall|a: int, b: int|
                0 <= a < b < out@.len() ==> (#[trigger] count_views(out@)[a]).0 != (#[trigger] count_views(out@)[b]).0,
        decreases paths.len() - i,
    {
        proof {
            assert(ps.take(i + 1).drop_last() =~= ps.take(i as int));
            assert(ps.take(i + 1).last() == paths@[i as int]@);
        }
        let d = parent_dir_of(paths[i].as_str());
        if d.unicode_len() > 0 {
            let ghost cv = count_views(out@);
            let mut j: usize = 0;
            while j < out.len() && !crate::text::str_eq(out[j].0.as_str(), d.as_str())
                invariant
                    j <= out.len(),
                    cv == count_views(out@),
                    forall|k: int| 0 <= k < j ==> cv[k].0 != d@,
                decreases out.len() - j,
            {
                j += 1;
            }
            if j < out.len() {
                proof {
                    assert(cv[j as int].0 == d@);
                    let c = choose|k: int| 0 <= k < cv.len() && cv[k].0 == d@;
                    assert(c == j) by {
                        if c != j {
                            assert(cv[c].0 == cv[j as int].0);
                        }
                    }
                }
                let (name, n) = out.remove(j);
                out.insert(j, (name, n + 1));
                proof {
                    assert(count_views(out@) =~= cv.update(j as int, (d@, cv[j as int].1 + 1)));
                }
            } else {
                let ghost before = out@;
                out.push((d, 1));
                proof {
                    assert(count_views(out@) =~= cv.push((d@, 1nat)));
                }
            }
        }
        i += 1;
    }
    proof {
        assert(ps.take(ps.len() as int) =~= ps);
    }
    out
}

/// The most frequent folders of the notes (see `frequent_dirs`).
pub fn frequent_paths(paths: &Vec<String>) -> (r: Vec<FrequentPath>)
    ensures
        r@.len() <= MAX_FREQUENT_PATHS,
        r@.len() == frequent_dirs(strs(paths@)).len(),
        forall|i: int|
            0 <= i < r@.len() ==> (#[trigger] r@[i]).path@ == frequent_dirs(strs(paths@))[i].0
                && r@[i].description@ == notes_text(frequent_dirs(strs(paths@))[i].1),
{
    let counts = count_dirs(paths);
    let ghost cv = count_views(counts@);
    let mut sorted: Vec<(String, usize)> = Vec::new();
    let mut k: usize = 0;
    while k < counts.len()
        invariant
            k <= counts.len(),
            cv == count_views(counts@),
            count_views(sorted@) == sort_by_count(cv.take(k as int)),
        decreases counts.len() - k,
    {
        proof {
            assert(cv.take(k + 1).drop_last() =~= cv.take(k as int));
            assert(cv.take(k + 1).last() == cv[k as int]);
            lemma_sort_by_count_len(cv.take(k as int));
        }
        let x = (to_owned_str(counts[k].0.as_str()), counts[k].1);
        let ghost xv = (x.0@, x.1 as nat);
        let ghost sv = count_views(sorted@);
        let mut pos = sorted.len();
        proof {
            assert(sv.take(pos as int) =~= sv);
        }
        while pos > 0 && sorted[pos - 1].1 < x.1
            invariant
                pos <= sorted.len(),
                sv == count_views(sorted@),
                xv == (x.0@, x.1 as nat),
                count_pos(sv, xv) == count_pos(sv.take(pos as int), xv),
            decreases pos,
        {
            proof {
                assert(sv.take(pos as int).drop_last() =~= sv.take(pos - 1));
                assert(sv.take(pos as int).last() == sv[pos - 1]);
            }
            pos -= 1;
        }
        proof {
            if pos > 0 {
                assert(sv.take(pos as int).last() == sv[pos - 1]);
            }
        }
        sorted.insert(pos, x);
        proof {
            assert(xv == cv[k as int]);
            assert(count_views(sorted@) =~= sv.insert(pos as int, xv));
        }
        k += 1;
    }
    proof {
        assert(cv.take(cv.len() as int) =~= cv);
        lemma_sort_by_count_len(cv);
    }
    let ghost fd = frequent_dirs(strs(paths@));
    let n = if sorted.len() > MAX_FREQUENT_PATHS {
        MAX_FREQUENT_PATHS
    } else {
        sorted.len()
    };
    let mut out: Vec<FrequentPath> = Vec::new();
    let mut i: usize = 0;
    while i < n
        invariant
            i <= n <= sorted.len(),
            n == fd.len(),
            fd == frequent_dirs(strs(paths@)),
            forall|j: int| 0 <= j < n ==> (#[trigger] count_views(sorted@)[j]) == fd[j],
            out@.len() == i,
            forall|j: int|
                0 <= j < i ==> (#[trigger] out@[j]).path@ == fd[j].0 && out@[j].description@
                    == notes_text(fd[j].1),
        decreases n - i,
    {
        let mut d = String::new();
        push_decimal(&mut d, sorted[i].1 as u64);
        push_str(&mut d, " notes");
        proof {
            assert(count_views(sorted@)[i as int] == fd[i as int]);
        }
        out.push(FrequentPath { path: to_owned_str(sorted[i].0.as_str()), description: d });
        i += 1;
    }
    out
}

/// The last folder name of a folder path (`a/b/` gives `b`).
pub open spec fn dir_name(p: Seq<char>) -> Seq<char> {
    let t = crate::tags::strip_end(p, '/');
    t.skip(last_slash(t) + 1)
}

/// The topics suggested by the folders: their names, when not empty, for
/// the first `MAX_TOPICS` folders.
pub open spec fn dir_topics_spec(paths: Seq<FrequentPath>) -> Seq<Seq<char>>
    decreases paths.len(),
{
    if paths.len() == 0 {
        seq![]
    } else {
        let rest = dir_topics_spec(paths.drop_last());
        let n = dir_name(paths.last().path@);
        if paths.len() > MAX_TOPICS || n.len() == 0 {
            rest
        } else {
            rest.push(n)
        }
    }
}

/// At most `MAX_TOPICS` topics come from the folders, and never more than
/// there are folders.
pub proof fn lemma_dir_topics_bound(paths: Seq<FrequentPath>)
    ensures
        dir_topics_spec(paths).len() <= paths.len(),
        dir_topics_spec(paths).len() <= MAX_TOPICS,
    decreases paths.len(),
{
    if paths.len() > 0 {
        lemma_dir_topics_bound(paths.drop_last());
    }
}

/// The topics taken from the frequent folders when no topic dictionary is
/// available.
pub fn dir_topics(paths: &Vec<FrequentPath>) -> (r: Vec<String>)
    ensures
        strs(r@) == dir_topics_spec(paths@),
        r@.len() <= MAX_TOPICS,
{
    proof {
        lemma_dir_topics_bound(paths@);
    }
    let mut out: Vec<String> = Vec::new();
    let mut i: usize = 0;
    while i < paths.len()
        invariant
            i <= paths.len(),
            strs(out@) == dir_topics_spec(paths@.take(i as int)),
        decreases paths.len() - i,
    {
        proof {
            assert(paths@.take(i + 1).drop_last() =~= paths@.take(i as int));
            assert(paths@.take(i + 1).last() == paths@[i as int]);
        }
        let v = chars_of(paths[i].path.as_str());
        let e = crate::tags::skip_trail(&v, 0, v.len(), '/');
        let w = crate::text::copy_range(&v, 0, e);
        proof {
            assert(v@.subrange(0, v@.len() as int) =~= v@);
        }
        let k = find_last_slash(&w);
        proof {
            lemma_last_slash(w@);
        }
        let start = if k == w.len() {
            0
        } else {
            k + 1
        };
        let name = string_of_range(&w, start, w.len());
        proof {
            assert(w@.subrange(start as int, w@.len() as int) =~= w@.skip(last_slash(w@) + 1));
        }
        if i < MAX_TOPICS && name.unicode_len() > 0 {
            let ghost before = out@;
            out.push(name);
            proof {
                assert(strs(out@) =~= strs(before).push(name@));
            }
        }
        i += 1;
    }
    proof {
        assert(paths@.take(paths@.len() as int) =~= paths@);
    }
    out
}

/// Where `x` goes in `s` to keep it in ascending order, after every
/// element not greater than it.
pub open spec fn str_pos(s: Seq<Seq<char>>, x: Seq<char>) -> int
    decreases s.len(),
{
    if s.len() == 0 {
        0
    } else if crate::text::lex_le(s.last(), x) {
        s.len() as int
    } else {
        str_pos(s.drop_last(), x)
    }
}

/// `s` in ascending order (the order of `String` comparison), stably.
pub open spec fn sort_strs(s: Seq<Seq<char>>) -> Seq<Seq<char>>
    decreases s.len(),
{
    if s.len() == 0 {
        seq![]
    } else {
        let sorted = sort_strs(s.drop_last());
        sorted.insert(str_pos(sorted, s.last()), s.last())
    }
}

proof fn lemma_str_pos(s: Seq<Seq<char>>, x: Seq<char>)
    ensures
        0 <= str_pos(s, x) <= s.len(),
    decreases s.len(),
{
    if s.len() > 0 && !crate::text::lex_le(s.last(), x) {
        lemma_str_pos(s.drop_last(), x);
    }
}

proof fn lemma_sort_strs_len(s: Seq<Seq<char>>)
    ensures
        sort_strs(s).len() == s.len(),
    decreases s.len(),
{
    if s.len() > 0 {
        lemma_sort_strs_len(s.drop_last());
        lemma_str_pos(sort_strs(s.drop_last()), s.last());
    }
}

/// The tag vocabulary: the tags in ascending order, the first
/// `MAX_TAG_VOCABULARY` of them.
pub open spec fn vocabulary(tags: Seq<Seq<char>>) -> Seq<Seq<char>> {
    let s = sort_strs(tags);
    if s.len() > MAX_TAG_VOCABULARY {
        s.take(MAX_TAG_VOCABULARY as int)
    } else {
        s
    }
}

/// Sorts the collected tags and keeps the first `MAX_TAG_VOCABULARY`.
pub fn tag_vocabulary(tags: Vec<String>) -> (r: Vec<String>)
    ensures
        strs(r@) == vocabulary(strs(tags@)),
        r@.len() <= MAX_TAG_VOCABULARY,
{
    let ghost ts = strs(tags@);
    let mut sorted: Vec<String> = Vec::new();
    let mut k: usize = 0;
    while k < tags.len()
        invariant
            k <= tags.len(),
            ts == strs(tags@),
            strs(sorted@) == sort_strs(ts.take(k as int)),
        decreases tags.len() - k,
    {
        proof {
            assert(ts.take(k + 1).drop_last() =~= ts.take(k as int));
            assert(ts.take(k + 1).last() == tags@[k as int]@);
            lemma_sort_strs_len(ts.take(k as int));
        }
        let x = to_owned_str(tags[k].as_str());
        let ghost sv = strs(sorted@);
        let mut pos = sorted.len();
        proof {
            assert(sv.take(pos as int) =~= sv);
        }
        while pos > 0 && !crate::text::str_lex_le(sorted[pos - 1].as_str(), x.as_str())
            invariant
                pos <= sorted.len(),
                sv == strs(sorted@),
                str_pos(sv, x@) == str_pos(sv.take(pos as int), x@),
            decreases pos,
        {
            proof {
                assert(sv.take(pos as int).drop_last() =~= sv.take(pos - 1));
                assert(sv.take(pos as int).last() == sv[pos - 1]);
            }
            pos -= 1;
        }
        proof {
            if pos > 0 {
                assert(sv.take(pos as int).last() == sv[pos - 1]);
            }
        }
        sorted.insert(pos, x);
        proof {
            assert(strs(sorted@) =~= sv.insert(pos as int, x@));
        }
        k += 1;
    }
    proof {
        assert(ts.take(ts.len() as int) =~= ts);
        lemma_sort_strs_len(ts);
    }
    sorted.truncate(MAX_TAG_VOCABULARY);
    proof {
        if ts.len() > MAX_TAG_VOCABULARY {
            assert(strs(sorted@) =~= sort_strs(ts).take(MAX_TAG_VOCABULARY as int));
        }
    }
    sorted
}

} // verus!
