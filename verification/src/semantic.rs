//! Semantic indexing: splitting Markdown into chunks for embedding, the
//! rebuild checkpoint, and the lists of sources a semantic excerpt used.
use vstd::prelude::*;
use vstd::utf8::encode_utf8;

use crate::text::{
    pieces, push_char, ranges_in, lines, split, char_count, chars_of, contains, decimal, opt_string, push_decimal, push_str, replace,
    replace_str, str_eq, string_of_range, strs, to_owned_str, trim, trim_range, trim_start,
    trim_start_range,
};

verus! {

/// Number of leading `#` characters.
pub open spec fn lead_hashes(s: Seq<char>) -> nat
    decreases s.len(),
{
    if s.len() > 0 && s[0] == '#' {
        1 + lead_hashes(s.drop_first())
    } else {
        0
    }
}

/// `s.trim_start_matches('#')`.
pub open spec fn strip_hashes(s: Seq<char>) -> Seq<char> {
    s.skip(lead_hashes(s) as int)
}

/// The title of a `#`, `##` or `###` heading line, if the line is one with
/// a non-blank title.
pub open spec fn heading(line: Seq<char>) -> Option<Seq<char>> {
    let t = trim_start(line);
    let k = lead_hashes(t);
    if k < 1 || k > 3 {
        None
    } else {
        let title = trim(strip_hashes(trim(t.skip(k as int))));
        if title.len() == 0 {
            None
        } else {
            Some(title)
        }
    }
}

/// The end of the run of `#` starting at `lo`.
fn skip_hashes(v: &Vec<char>, lo: usize, hi: usize) -> (j: usize)
    requires
        lo <= hi <= v.len(),
    ensures
        lo <= j <= hi,
        j - lo == lead_hashes(v@.subrange(lo as int, hi as int)),
{
    let mut j = lo;
    while j < hi && v[j] == '#'
        invariant
            lo <= j <= hi <= v.len(),
            lead_hashes(v@.subrange(lo as int, hi as int)) == (j - lo) + lead_hashes(
                v@.subrange(j as int, hi as int),
            ),
        decreases hi - j,
    {
        assert(v@.subrange(j as int, hi as int).drop_first() =~= v@.subrange(j + 1, hi as int));
        j += 1;
    }
    j
}

/// The title of a Markdown heading of level 1 to 3, or `None`.
pub fn is_heading_line(line: &str) -> (r: Option<String>)
    ensures
        opt_string(r) == heading(line@),
{
    let v = chars_of(line);
    let n = v.len();
    let a = trim_start_range(&v, 0, n);
    let j = skip_hashes(&v, a, n);
    proof {
        assert(v@.subrange(0, n as int) =~= v@);
    }
    let k = j - a;
    if k < 1 || k > 3 {
        return None;
    }
    let (b, c) = trim_range(&v, j, n);
    let m = skip_hashes(&v, b, c);
    let (d, e) = trim_range(&v, m, c);
    proof {
        let t = v@.subrange(a as int, n as int);
        assert(t.skip(k as int) =~= v@.subrange(j as int, n as int));
        assert(strip_hashes(v@.subrange(b as int, c as int)) =~= v@.subrange(m as int, c as int));
    }
    if d == e {
        return None;
    }
    Some(string_of_range(&v, d, e))
}

/// The first `max` characters of `s`.
pub open spec fn truncated_chars(s: Seq<char>, max: nat) -> Seq<char> {
    if s.len() <= max {
        s
    } else {
        s.take(max as int)
    }
}

/// Keeps at most `max` characters of `s`.
pub fn truncate_chars(s: &str, max: usize) -> (r: String)
    ensures
        r@ == truncated_chars(s@, max as nat),
{
    let v = chars_of(s);
    let end = if v.len() <= max {
        v.len()
    } else {
        max
    };
    proof {
        assert(v@.subrange(0, v@.len() as int) =~= v@);
    }
    string_of_range(&v, 0, end)
}

/// One piece of a note, with the heading it falls under.
pub struct ChunkInfo {
    pub index: usize,
    pub text: String,
    pub heading_context: Option<String>,
}

/// How far the semantic index is built.
pub struct IndexStatus {
    pub model_ready: bool,
    pub model_id: String,
    pub doc_chunk_count: usize,
    pub thought_embedding_count: usize,
    pub tracked_file_count: usize,
    pub stale_file_count: usize,
}

/// What a rebuild of the index did.
pub struct IndexBuildResult {
    pub indexed_chunks: usize,
    pub indexed_thoughts: usize,
    pub elapsed_ms: u64,
}

/// A semantic search request.
pub struct SemanticSearchArgs {
    pub query: String,
    pub top_k: usize,
    pub search_scope: Option<String>,
}

/// The number of hits a search returns when the request does not say.
pub fn default_top_k() -> (r: usize)
    ensures
        r == 8,
{
    8
}

/// The documents and thoughts a semantic excerpt used.
pub struct SemanticContextForLlmUsed {
    pub document_paths: Vec<String>,
    pub thought_ids: Vec<String>,
}

/// A semantic excerpt for the model and what it used.
pub struct SemanticContextForLlmResult {
    pub block: String,
    pub used: SemanticContextForLlmUsed,
}

/// A path with backslashes turned into slashes.
pub open spec fn normalized_path(p: Seq<char>) -> Seq<char> {
    replace(p, "\\"@, "/"@)
}

/// The list after adding `item` unless it is empty or already there.
pub open spec fn push_unique_spec(list: Seq<Seq<char>>, item: Seq<char>) -> Seq<Seq<char>> {
    if item.len() == 0 || list.contains(item) {
        list
    } else {
        list.push(item)
    }
}


/// Adds a document path (with `\` turned into `/`) unless it is empty or
/// already listed.
pub fn push_unique_path(out: &mut Vec<String>, p: &str)
    ensures
        strs(final(out)@) == push_unique_spec(strs(old(out)@), normalized_path(p@)),
{
    proof {
        reveal_strlit("\\");
    }
    let n = replace_str(p, "\\", "/");
    if char_count(n.as_str()) == 0 || crate::text::contains_string(out, n.as_str()) {
        return;
    }
    let ghost before = out@;
    out.push(n);
    proof {
        assert(strs(out@) =~= strs(before).push(normalized_path(p@)));
    }
}

/// Adds a thought id unless it is empty or already listed.
pub fn push_unique_thought(out: &mut Vec<String>, id: &str)
    ensures
        strs(final(out)@) == push_unique_spec(strs(old(out)@), id@),
{
    if char_count(id) == 0 || crate::text::contains_string(out, id) {
        return;
    }
    let ghost before = out@;
    out.push(to_owned_str(id));
    proof {
        assert(strs(out@) =~= strs(before).push(id@));
    }
}

pub const CHECKPOINT_VERSION: u32 = 1;

/// The checkpoint of an index rebuild, kept so that it can be resumed.
pub struct RebuildProgress {
    pub version: u32,
    pub rebuild_id: String,
    /// scanning | documents | thoughts | completed | failed
    pub phase: String,
    pub started_at: String,
    pub updated_at: String,
    pub docs_total: usize,
    pub docs_completed: usize,
    pub thoughts_total: usize,
    pub thoughts_next_index: usize,
    pub last_message: Option<String>,
    pub last_error: Option<String>,
}

pub const CHECKPOINT_COMPLETED: &'static str = "rebuild checkpoint is already completed; start a full rebuild instead";

/// The error for a checkpoint whose document count no longer matches.
pub open spec fn count_changed_text(total: nat, current: nat) -> Seq<char> {
    "Markdown file count changed (checkpoint "@ + decimal(total) + ", current "@ + decimal(current)
        + "); run a full rebuild"@
}

/// A rebuild can resume from a checkpoint that is not completed and was
/// taken over the same number of Markdown files.
pub fn validate_resume_checkpoint(cp: &RebuildProgress, md_len: usize) -> (r: Result<(), String>)
    ensures
        cp.phase@ == "completed"@ ==> (r matches Err(e) && e@ == CHECKPOINT_COMPLETED@),
        cp.phase@ != "completed"@ && cp.docs_total != md_len ==> (r matches Err(e) && e@
            == count_changed_text(cp.docs_total as nat, md_len as nat)),
        cp.phase@ != "completed"@ && cp.docs_total == md_len ==> r is Ok,
{
    if str_eq(cp.phase.as_str(), "completed") {
        return Err(to_owned_str(CHECKPOINT_COMPLETED));
    }
    if cp.docs_total != md_len {
        let mut s = to_owned_str("Markdown file count changed (checkpoint ");
        push_decimal(&mut s, cp.docs_total as u64);
        push_str(&mut s, ", current ");
        push_decimal(&mut s, md_len as u64);
        push_str(&mut s, "); run a full rebuild");
        return Err(s);
    }
    Ok(())
}

/// A section of a note: its heading (if any) and its body.
pub type Section = (Option<Seq<char>>, Seq<char>);

/// The state of the section scan: finished sections, the current heading,
/// and the body read so far.
pub open spec fn scan_step(
    st: (Seq<Section>, Option<Seq<char>>, Seq<char>),
    line: Seq<char>,
) -> (Seq<Section>, Option<Seq<char>>, Seq<char>) {
    match heading(line) {
        Some(h) => {
            let flush = trim(st.2).len() > 0 || st.1 is Some;
            (
                if flush {
                    st.0.push((st.1, st.2))
                } else {
                    st.0
                },
                Some(h),
                if flush {
                    seq![]
                } else {
                    st.2
                },
            )
        },
        None => (st.0, st.1, st.2 + line + "\n"@),
    }
}

/// The section scan over the first `k` lines.
pub open spec fn scan_lines(ls: Seq<Seq<char>>, k: int) -> (
    Seq<Section>,
    Option<Seq<char>>,
    Seq<char>,
)
    decreases k,
{
    if k <= 0 {
        (seq![], None, seq![])
    } else {
        scan_step(scan_lines(ls, k - 1), ls[k - 1])
    }
}

/// The sections of a note: split at `#`-`###` headings; a note without any
/// is one section, and a blank note has none.
pub open spec fn md_sections(md: Seq<char>) -> Seq<Section> {
    let ls = lines(md);
    let st = scan_lines(ls, ls.len() as int);
    let secs = if trim(st.2).len() > 0 || st.1 is Some {
        st.0.push((st.1, st.2))
    } else {
        st.0
    };
    if secs.len() == 0 {
        if trim(md).len() == 0 {
            seq![]
        } else {
            seq![(None, md)]
        }
    } else {
        secs
    }
}

/// Greedy filling of one chunk from paragraph `i` on: non-blank trimmed
/// paragraphs are joined with a blank line while the chunk stays within
/// `max` characters. Returns the chunk and the first paragraph not taken.
pub open spec fn fill(ps: Seq<Seq<char>>, i: int, piece: Seq<char>, max: nat) -> (Seq<char>, int)
    decreases ps.len() - i,
{
    if i < 0 || i >= ps.len() {
        (piece, i)
    } else {
        let next = trim(ps[i]);
        if next.len() == 0 {
            fill(ps, i + 1, piece, max)
        } else {
            let add = if piece.len() == 0 {
                next
            } else {
                "\n\n"@ + next
            };
            if piece.len() + add.len() > max {
                (piece, i)
            } else {
                fill(ps, i + 1, piece + add, max)
            }
        }
    }
}

/// The greedy fill stays within `max` characters and moves forward when it
/// takes a paragraph.
pub proof fn lemma_fill(ps: Seq<Seq<char>>, i: int, piece: Seq<char>, max: nat)
    requires
        0 <= i <= ps.len(),
        piece.len() <= max,
    ensures
        i <= fill(ps, i, piece, max).1 <= ps.len(),
        fill(ps, i, piece, max).0.len() <= max,
        fill(ps, i, piece, max).0.len() > piece.len() ==> fill(ps, i, piece, max).1 > i,
    decreases ps.len() - i,
{
    if i < ps.len() {
        let next = trim(ps[i]);
        if next.len() == 0 {
            lemma_fill(ps, i + 1, piece, max);
        } else {
            let add = if piece.len() == 0 {
                next
            } else {
                "\n\n"@ + next
            };
            if piece.len() + add.len() <= max {
                lemma_fill(ps, i + 1, piece + add, max);
            }
        }
    }
}

/// The chunk made at paragraph `i` and the paragraph after it: the greedy
/// fill, or when not even the first paragraph fits, that paragraph cut to
/// `max` characters.
pub open spec fn pack_piece(ps: Seq<Seq<char>>, i: int, max: nat) -> (Seq<char>, int) {
    let f = fill(ps, i, seq![], max);
    if f.0.len() == 0 && f.1 < ps.len() {
        (truncated_chars(ps[f.1], max), f.1 + 1)
    } else {
        f
    }
}

/// Where the next chunk starts: one paragraph back (overlap) when this
/// chunk took at least two paragraphs and the last is not blank.
pub open spec fn pack_next(ps: Seq<Seq<char>>, i: int, j: int) -> int {
    if i + 1 < j && trim(ps[j - 1]).len() > 0 {
        j - 1
    } else {
        j
    }
}

/// The chunks of an over-long section split into paragraphs `ps`, from
/// paragraph `i` on.
pub open spec fn pack(ps: Seq<Seq<char>>, i: int, max: nat) -> Seq<Seq<char>>
    decreases ps.len() - i,
{
    if i < 0 || i >= ps.len() {
        seq![]
    } else {
        let pj = pack_piece(ps, i, max);
        let chunk = truncated_chars(pj.0, max);
        if pj.1 >= ps.len() {
            seq![chunk]
        } else {
            proof {
                lemma_fill(ps, i, seq![], max);
            }
            seq![chunk] + pack(ps, pack_next(ps, i, pj.1), max)
        }
    }
}

/// The chunks of one section.
pub open spec fn section_chunks(h: Option<Seq<char>>, body: Seq<char>, max: nat) -> Seq<Section> {
    let b = trim(body);
    if b.len() == 0 {
        seq![]
    } else if b.len() <= max {
        seq![(h, b)]
    } else {
        let ps = split(b, "\n\n"@);
        if ps.len() <= 1 {
            seq![(h, truncated_chars(b, max))]
        } else {
            pack(ps, 0, max).map_values(|c: Seq<char>| (h, c))
        }
    }
}

/// The chunks of a list of sections, in order.
pub open spec fn flat_chunks(secs: Seq<Section>, max: nat) -> Seq<Section>
    decreases secs.len(),
{
    if secs.len() == 0 {
        seq![]
    } else {
        flat_chunks(secs.drop_last(), max) + section_chunks(secs.last().0, secs.last().1, max)
    }
}

/// Every chunk packed from the paragraphs holds at most `max` characters.
pub proof fn lemma_pack_within(ps: Seq<Seq<char>>, i: int, max: nat)
    ensures
        forall|k: int| 0 <= k < pack(ps, i, max).len() ==> (#[trigger] pack(ps, i, max)[k]).len() <= max,
    decreases ps.len() - i,
{
    if 0 <= i < ps.len() {
        let pj = pack_piece(ps, i, max);
        lemma_fill(ps, i, seq![], max);
        if pj.1 < ps.len() {
            lemma_pack_within(ps, pack_next(ps, i, pj.1), max);
            let rest = pack(ps, pack_next(ps, i, pj.1), max);
            assert forall|k: int| 0 <= k < pack(ps, i, max).len() implies (#[trigger] pack(
                ps,
                i,
                max,
            )[k]).len() <= max by {
                if k > 0 {
                    assert(pack(ps, i, max)[k] == rest[k - 1]);
                }
            }
        }
    }
}

/// Every chunk of a list of sections holds at most `max` characters.
pub proof fn lemma_flat_chunks_within(secs: Seq<Section>, max: nat)
    ensures
        forall|k: int|
            0 <= k < flat_chunks(secs, max).len() ==> (#[trigger] flat_chunks(secs, max)[k]).1.len() <= max,
    decreases secs.len(),
{
    if secs.len() > 0 {
        lemma_flat_chunks_within(secs.drop_last(), max);
        let front = flat_chunks(secs.drop_last(), max);
        let h = secs.last().0;
        let body = secs.last().1;
        let last = section_chunks(h, body, max);
        let b = trim(body);
        let ps = split(b, "\n\n"@);
        if b.len() > max && ps.len() > 1 {
            lemma_pack_within(ps, 0, max);
        }
        assert forall|k: int| 0 <= k < last.len() implies (#[trigger] last[k]).1.len() <= max by {
            if b.len() > max && ps.len() > 1 {
                assert(last[k].1 == pack(ps, 0, max)[k]);
            }
        }
        assert forall|k: int| 0 <= k < flat_chunks(secs, max).len() implies (#[trigger] flat_chunks(
            secs,
            max,
        )[k]).1.len() <= max by {
            if k < front.len() {
                assert(flat_chunks(secs, max)[k] == front[k]);
            } else {
                assert(flat_chunks(secs, max)[k] == last[k - front.len()]);
            }
        }
    }
}

/// The effective chunk limit: at least 256 characters.
pub open spec fn chunk_limit(max_chunk_chars: nat) -> nat {
    if max_chunk_chars < 256 {
        256
    } else {
        max_chunk_chars
    }
}

/// The chunks of a note: `(heading, text)` in order.
pub open spec fn markdown_chunks(md: Seq<char>, max_chunk_chars: nat) -> Seq<Section> {
    flat_chunks(md_sections(md), chunk_limit(max_chunk_chars))
}

/// The views of a list of `(heading, text)` pairs.
pub open spec fn section_views(v: Seq<(Option<String>, String)>) -> Seq<Section> {
    v.map_values(|p: (Option<String>, String)| (opt_string(p.0), p.1@))
}

/// A copy of an optional string.
fn copy_opt(h: &Option<String>) -> (r: Option<String>)
    ensures
        opt_string(r) == opt_string(*h),
{
    match h {
        Some(s) => Some(to_owned_str(s.as_str())),
        None => None,
    }
}

/// Appends a `(heading, text)` pair.
fn push_section(out: &mut Vec<(Option<String>, String)>, h: Option<String>, text: String)
    ensures
        section_views(final(out)@) == section_views(old(out)@).push((opt_string(h), text@)),
{
    let ghost before = out@;
    let ghost item = (opt_string(h), text@);
    out.push((h, text));
    proof {
        assert(section_views(out@) =~= section_views(before).push(item));
    }
}

/// The greedy fill from paragraph `start` (see `fill`), over the
/// paragraphs `pieces(v, rs)`.
fn fill_piece(v: &Vec<char>, rs: &Vec<(usize, usize)>, start: usize, max: usize) -> (r: (
    String,
    usize,
))
    requires
        ranges_in(v@, rs@),
        start < rs.len(),
    ensures
        (r.0@, r.1 as int) == fill(pieces(v@, rs@), start as int, seq![], max as nat),
{
    let ghost ps = pieces(v@, rs@);
    let mut piece = String::new();
    let mut pl: usize = 0;
    let mut i = start;
    let mut stop = false;
    while i < rs.len() && !stop
        invariant
            ranges_in(v@, rs@),
            ps == pieces(v@, rs@),
            start <= i <= rs.len(),
            pl == piece@.len(),
            pl <= max,
            fill(ps, start as int, seq![], max as nat) == if stop {
                (piece@, i as int)
            } else {
                fill(ps, i as int, piece@, max as nat)
            },
        decreases rs.len() - i + if stop {
            0int
        } else {
            1int
        },
    {
        let (a, b) = rs[i];
        let (ta, tb) = trim_range(v, a, b);
        let nl = tb - ta;
        proof {
            assert(ps[i as int] == v@.subrange(a as int, b as int));
            assert(trim(ps[i as int]) == v@.subrange(ta as int, tb as int));
        }
        if nl == 0 {
            i += 1;
        } else {
            let too_long = if pl == 0 {
                nl > max
            } else {
                max - pl < 2 || nl > max - pl - 2
            };
            if too_long {
                proof {
                    reveal_strlit("\n\n");
                }
                stop = true;
            } else {
                let ghost before = piece@;
                if pl > 0 {
                    push_str(&mut piece, "\n\n");
                }
                let next = string_of_range(v, ta, tb);
                push_str(&mut piece, next.as_str());
                proof {
                    reveal_strlit("\n\n");
                    if pl > 0 {
                        assert(piece@ =~= before + ("\n\n"@ + v@.subrange(ta as int, tb as int)));
                    } else {
                        assert(piece@ =~= before + v@.subrange(ta as int, tb as int));
                    }
                }
                pl = if pl == 0 {
                    nl
                } else {
                    pl + 2 + nl
                };
                i += 1;
            }
        }
    }
    (piece, i)
}

/// Appends the chunks of an over-long section with paragraphs
/// `pieces(v, rs)` (see `pack`).
fn pack_section(
    out: &mut Vec<(Option<String>, String)>,
    h: &Option<String>,
    v: &Vec<char>,
    rs: &Vec<(usize, usize)>,
    max: usize,
)
    requires
        ranges_in(v@, rs@),
    ensures
        section_views(final(out)@) == section_views(old(out)@) + pack(
            pieces(v@, rs@),
            0,
            max as nat,
        ).map_values(|c: Seq<char>| (opt_string(*h), c)),
{
    let ghost ps = pieces(v@, rs@);
    let ghost hv = opt_string(*h);
    let ghost f = |c: Seq<char>| (hv, c);
    let ghost start = section_views(out@);
    let n = rs.len();
    let mut i: usize = 0;
    while i < n
        invariant
            ranges_in(v@, rs@),
            ps == pieces(v@, rs@),
            n == rs.len(),
            i <= n,
            hv == opt_string(*h),
            f == (|c: Seq<char>| (hv, c)),
            start + pack(ps, 0, max as nat).map_values(f) == section_views(out@) + pack(
                ps,
                i as int,
                max as nat,
            ).map_values(f),
        decreases n - i,
    {
        proof {
            lemma_fill(ps, i as int, seq![], max as nat);
        }
        let (mut piece, mut j) = fill_piece(v, rs, i, max);
        if char_count(piece.as_str()) == 0 && j < n {
            let (a, b) = rs[j];
            let whole = string_of_range(v, a, b);
            proof {
                assert(ps[j as int] == v@.subrange(a as int, b as int));
            }
            piece = truncate_chars(whole.as_str(), max);
            j += 1;
        }
        let chunk = truncate_chars(piece.as_str(), max);
        let ghost before = section_views(out@);
        push_section(out, copy_opt(h), chunk);
        proof {
            let rest = if (j as int) >= ps.len() {
                seq![]
            } else {
                pack(ps, pack_next(ps, i as int, j as int), max as nat)
            };
            assert(pack(ps, i as int, max as nat) =~= seq![chunk@] + rest);
            assert(pack(ps, i as int, max as nat).map_values(f) =~= seq![(hv, chunk@)]
                + rest.map_values(f));
        }
        if j >= n {
            i = n;
        } else {
            let (a, b) = rs[j - 1];
            let (ta, tb) = trim_range(v, a, b);
            proof {
                assert(ps[j - 1] == v@.subrange(a as int, b as int));
            }
            if i + 1 < j && ta < tb {
                i = j - 1;
            } else {
                i = j;
            }
        }
    }
}

/// Appends the chunks of one section.
fn chunk_section(out: &mut Vec<(Option<String>, String)>, h: Option<String>, body: &str, max: usize)
    ensures
        section_views(final(out)@) == section_views(old(out)@) + section_chunks(
            opt_string(h),
            body@,
            max as nat,
        ),
{
    let b = crate::text::trim_str(body);
    let n = char_count(b.as_str());
    if n == 0 {
        assert(section_views(out@) =~= section_views(out@) + seq![]);
        return;
    }
    if n <= max {
        let ghost before = section_views(out@);
        push_section(out, h, b);
        return;
    }
    let v = chars_of(b.as_str());
    let pat = chars_of("\n\n");
    proof {
        reveal_strlit("\n\n");
    }
    let rs = crate::text::split_ranges(&v, &pat);
    if rs.len() <= 1 {
        push_section(out, h, truncate_chars(b.as_str(), max));
        return;
    }
    pack_section(out, &h, &v, &rs, max);
}

/// Whether the trimmed text is not empty.
fn not_blank(s: &str) -> (r: bool)
    ensures
        r == (trim(s@).len() > 0),
{
    let v = chars_of(s);
    let (a, b) = trim_range(&v, 0, v.len());
    proof {
        assert(v@.subrange(0, v@.len() as int) =~= v@);
    }
    a < b
}

/// Splits a note into sections at `#`-`###` headings (see `md_sections`).
fn split_sections(markdown: &str) -> (r: Vec<(Option<String>, String)>)
    ensures
        section_views(r@) == md_sections(markdown@),
{
    let ls = crate::text::lines_of(markdown);
    let ghost lv = lines(markdown@);
    let mut secs: Vec<(Option<String>, String)> = Vec::new();
    let mut cur: Option<String> = None;
    let mut buf = String::new();
    let mut k: usize = 0;
    while k < ls.len()
        invariant
            k <= ls.len(),
            ls@.len() == lv.len(),
            forall|j: int| 0 <= j < ls@.len() ==> (#[trigger] ls@[j])@ == lv[j],
            scan_lines(lv, k as int) == (section_views(secs@), opt_string(cur), buf@),
        decreases ls.len() - k,
    {
        let line = ls[k].as_str();
        match is_heading_line(line) {
            Some(h) => {
                if not_blank(buf.as_str()) || cur.is_some() {
                    push_section(&mut secs, cur, buf);
                    buf = String::new();
                }
                cur = Some(h);
            },
            None => {
                push_str(&mut buf, line);
                push_str(&mut buf, "\n");
            },
        }
        k += 1;
    }
    if not_blank(buf.as_str()) || cur.is_some() {
        push_section(&mut secs, cur, buf);
    }
    if secs.len() == 0 {
        proof {
            assert(section_views(secs@).len() == 0);
        }
        if !not_blank(markdown) {
            return secs;
        }
        push_section(&mut secs, None, to_owned_str(markdown));
        proof {
            assert(section_views(secs@) =~= seq![(None::<Seq<char>>, markdown@)]);
        }
    }
    secs
}

/// The `(heading, text)` pairs of the chunks, with their index.
pub open spec fn chunk_matches(c: ChunkInfo, k: int, p: Section) -> bool {
    &&& c.index == k
    &&& c.text@ == p.1
    &&& opt_string(c.heading_context) == p.0
}

/// Splits a note into chunks for embedding: sections at `#`-`###`
/// headings; a section over the limit (`max_chunk_chars`, at least 256
/// characters) is split at blank lines into chunks that share one paragraph
/// of overlap, each cut to the limit.
pub fn split_markdown_into_chunks(markdown: &str, max_chunk_chars: usize) -> (r: Vec<ChunkInfo>)
    ensures
        r@.len() == markdown_chunks(markdown@, max_chunk_chars as nat).len(),
        forall|k: int|
            0 <= k < r@.len() ==> (#[trigger] r@[k]).text@.len() <= chunk_limit(max_chunk_chars as nat),
        forall|k: int|
            0 <= k < r@.len() ==> chunk_matches(
                #[trigger] r@[k],
                k,
                markdown_chunks(markdown@, max_chunk_chars as nat)[k],
            ),
{
    proof {
        lemma_flat_chunks_within(md_sections(markdown@), chunk_limit(max_chunk_chars as nat));
    }
    let max = if max_chunk_chars < 256 {
        256
    } else {
        max_chunk_chars
    };
    let secs = split_sections(markdown);
    let ghost sv = section_views(secs@);
    let mut flat: Vec<(Option<String>, String)> = Vec::new();
    let mut i: usize = 0;
    while i < secs.len()
        invariant
            i <= secs.len(),
            sv == section_views(secs@),
            section_views(flat@) == flat_chunks(sv.take(i as int), max as nat),
        decreases secs.len() - i,
    {
        let (h, body) = (copy_opt(&secs[i].0), secs[i].1.as_str());
        chunk_section(&mut flat, h, body, max);
        proof {
            assert(sv.take(i + 1).drop_last() =~= sv.take(i as int));
            assert(sv.take(i + 1).last() == sv[i as int]);
        }
        i += 1;
    }
    proof {
        assert(sv.take(secs@.len() as int) =~= sv);
    }
    let ghost fv = section_views(flat@);
    let mut out: Vec<ChunkInfo> = Vec::new();
    let mut k: usize = 0;
    while k < flat.len()
        invariant
            k <= flat.len(),
            fv == section_views(flat@),
            out@.len() == k,
            forall|j: int| 0 <= j < k ==> chunk_matches(#[trigger] out@[j], j, fv[j]),
        decreases flat.len() - k,
    {
        let text = to_owned_str(flat[k].1.as_str());
        let heading_context = copy_opt(&flat[k].0);
        out.push(ChunkInfo { index: k, text, heading_context });
        k += 1;
    }
    out
}

proof fn lemma_pack_bound(ps: Seq<Seq<char>>, i: int, max: nat)
    ensures
        forall|k: int| 0 <= k < pack(ps, i, max).len() ==> (#[trigger] pack(ps, i, max)[k]).len() <= max,
    decreases ps.len() - i,
{
    if 0 <= i < ps.len() {
        let pj = pack_piece(ps, i, max);
        if pj.1 < ps.len() {
            lemma_fill(ps, i, seq![], max);
            lemma_pack_bound(ps, pack_next(ps, i, pj.1), max);
            let rest = pack(ps, pack_next(ps, i, pj.1), max);
            assert forall|k: int| 0 <= k < pack(ps, i, max).len() implies (#[trigger] pack(
                ps,
                i,
                max,
            )[k]).len() <= max by {
                if k > 0 {
                    assert(pack(ps, i, max)[k] == rest[k - 1]);
                }
            }
        }
    }
}

proof fn lemma_section_bound(h: Option<Seq<char>>, body: Seq<char>, max: nat)
    ensures
        forall|k: int|
            0 <= k < section_chunks(h, body, max).len() ==> (#[trigger] section_chunks(
                h,
                body,
                max,
            )[k]).1.len() <= max,
{
    let b = trim(body);
    if b.len() > max {
        let ps = split(b, "\n\n"@);
        if ps.len() > 1 {
            lemma_pack_bound(ps, 0, max);
        }
    }
}

proof fn lemma_flat_bound(secs: Seq<Section>, max: nat)
    ensures
        forall|k: int| 0 <= k < flat_chunks(secs, max).len() ==> (#[trigger] flat_chunks(
            secs,
            max,
        )[k]).1.len() <= max,
    decreases secs.len(),
{
    if secs.len() > 0 {
        lemma_flat_bound(secs.drop_last(), max);
        lemma_section_bound(secs.last().0, secs.last().1, max);
        let a = flat_chunks(secs.drop_last(), max);
        let b = section_chunks(secs.last().0, secs.last().1, max);
        assert forall|k: int| 0 <= k < flat_chunks(secs, max).len() implies (
        #[trigger] flat_chunks(secs, max)[k]).1.len() <= max by {
            if k >= a.len() {
                assert(flat_chunks(secs, max)[k] == b[k - a.len()]);
            } else {
                assert(flat_chunks(secs, max)[k] == a[k]);
            }
        }
    }
}

/// No chunk is longer than the chunk limit: `max_chunk_chars`, or 256
/// characters when that is smaller.
pub proof fn lemma_chunks_within_limit(md: Seq<char>, max_chunk_chars: nat)
    ensures
        forall|k: int|
            0 <= k < markdown_chunks(md, max_chunk_chars).len() ==> (
            #[trigger] markdown_chunks(md, max_chunk_chars)[k]).1.len() <= chunk_limit(
                max_chunk_chars,
            ),
{
    lemma_flat_bound(md_sections(md), chunk_limit(max_chunk_chars));
}

pub const SEMANTIC_BLOCK_HEADER: &'static str = "Supplementary vault excerpts (keyword + semantic fusion). If the user's open note system message already includes a file, that message is authoritative; do not restate its full text here.";

/// At most this many excerpts go into a semantic block.
pub const MAX_SEMANTIC_EXCERPTS: usize = 3;

/// The first `n` characters of `s`.
pub open spec fn char_prefix(s: Seq<char>, n: nat) -> Seq<char> {
    if s.len() <= n {
        s
    } else {
        s.take(n as int)
    }
}

/// The first `n` characters of `s` (`s.chars().take(n)`).
pub fn char_prefix_of(s: &str, n: usize) -> (r: String)
    ensures
        r@ == char_prefix(s@, n as nat),
{
    let v = chars_of(s);
    let k = if v.len() <= n {
        v.len()
    } else {
        n
    };
    let r = string_of_range(&v, 0, k);
    proof {
        assert(v@.subrange(0, v@.len() as int) =~= v@);
    }
    r
}

/// The thought id of a fused result key `thought:<id>`.
pub fn thought_ref(id: &str) -> (r: Option<String>)
    ensures
        crate::text::starts_with(id@, "thought:"@) ==> (r matches Some(t) && t@ == id@.skip(8)),
        !crate::text::starts_with(id@, "thought:"@) ==> r is None,
{
    proof {
        reveal_strlit("thought:");
    }
    if crate::text::str_starts_with(id, "thought:") {
        let v = chars_of(id);
        let t = string_of_range(&v, 8, v.len());
        proof {
            assert(v@.subrange(8, v@.len() as int) =~= id@.skip(8));
        }
        Some(t)
    } else {
        None
    }
}

/// The normalized, non-empty paths of the notes already given in full.
pub open spec fn omit_list(paths: Seq<Seq<char>>) -> Seq<Seq<char>>
    decreases paths.len(),
{
    if paths.len() == 0 {
        seq![]
    } else {
        let rest = omit_list(paths.drop_last());
        let n = normalized_path(paths.last());
        if n.len() == 0 {
            rest
        } else {
            rest.push(n)
        }
    }
}

/// Collects the paths to leave out of the semantic block.
pub fn omitted_paths(paths: &Vec<String>) -> (r: Vec<String>)
    ensures
        strs(r@) == omit_list(strs(paths@)),
{
    proof {
        reveal_strlit("\\");
    }
    let ghost ps = strs(paths@);
    let mut out: Vec<String> = Vec::new();
    let mut i: usize = 0;
    while i < paths.len()
        invariant
            i <= paths.len(),
            ps == strs(paths@),
            strs(out@) == omit_list(ps.take(i as int)),
        decreases paths.len() - i,
    {
        proof {
            reveal_strlit("\\");
            assert(ps.take(i + 1).drop_last() =~= ps.take(i as int));
            assert(ps.take(i + 1).last() == paths@[i as int]@);
        }
        let n = replace_str(paths[i].as_str(), "\\", "/");
        if char_count(n.as_str()) > 0 {
            let ghost before = out@;
            out.push(n);
            proof {
                assert(strs(out@) =~= strs(before).push(n@));
            }
        }
        i += 1;
    }
    proof {
        assert(ps.take(ps.len() as int) =~= ps);
    }
    out
}

/// Whether a result key, normalized, is among the omitted paths.
pub fn is_omitted(omit: &Vec<String>, id: &str) -> (r: bool)
    ensures
        r == strs(omit@).contains(normalized_path(id@)),
{
    proof {
        reveal_strlit("\\");
    }
    let n = replace_str(id, "\\", "/");
    crate::text::contains_string(omit, n.as_str())
}

/// The keyword hits that take part in the fusion: those not omitted.
pub open spec fn kept_keyword_paths(paths: Seq<Seq<char>>, omit: Seq<Seq<char>>) -> Seq<Seq<char>>
    decreases paths.len(),
{
    if paths.len() == 0 {
        seq![]
    } else {
        let rest = kept_keyword_paths(paths.drop_last(), omit);
        if omit.contains(normalized_path(paths.last())) {
            rest
        } else {
            rest.push(paths.last())
        }
    }
}

/// Filters the keyword hit paths against the omitted ones.
pub fn keyword_fusion_paths(paths: &Vec<String>, omit: &Vec<String>) -> (r: Vec<String>)
    ensures
        strs(r@) == kept_keyword_paths(strs(paths@), strs(omit@)),
{
    let ghost ps = strs(paths@);
    let mut out: Vec<String> = Vec::new();
    let mut i: usize = 0;
    while i < paths.len()
        invariant
            i <= paths.len(),
            ps == strs(paths@),
            strs(out@) == kept_keyword_paths(ps.take(i as int), strs(omit@)),
        decreases paths.len() - i,
    {
        proof {
            assert(ps.take(i + 1).drop_last() =~= ps.take(i as int));
            assert(ps.take(i + 1).last() == paths@[i as int]@);
        }
        if !is_omitted(omit, paths[i].as_str()) {
            let c = to_owned_str(paths[i].as_str());
            let ghost before = out@;
            out.push(c);
            proof {
                assert(strs(out@) =~= strs(before).push(c@));
            }
        }
        i += 1;
    }
    proof {
        assert(ps.take(ps.len() as int) =~= ps);
    }
    out
}

/// A semantic block being assembled: its lines (the header first), how
/// many excerpts it holds, and the documents and thoughts it used.
pub struct SemanticBlock {
    pub lines: Vec<String>,
    pub used: usize,
    pub document_paths: Vec<String>,
    pub thought_ids: Vec<String>,
}

impl SemanticBlock {
    /// A block with only its header line.
    pub fn new() -> (r: Self)
        ensures
            strs(r.lines@) == seq![SEMANTIC_BLOCK_HEADER@],
            r.used == 0,
            r.document_paths@.len() == 0,
            r.thought_ids@.len() == 0,
    {
        let mut lines: Vec<String> = Vec::new();
        lines.push(to_owned_str(SEMANTIC_BLOCK_HEADER));
        proof {
            assert(strs(lines@) =~= seq![SEMANTIC_BLOCK_HEADER@]);
        }
        SemanticBlock { lines, used: 0, document_paths: Vec::new(), thought_ids: Vec::new() }
    }

    /// Whether the block holds its `MAX_SEMANTIC_EXCERPTS` excerpts.
    pub fn is_full(&self) -> (r: bool)
        ensures
            r == (self.used >= MAX_SEMANTIC_EXCERPTS),
    {
        self.used >= MAX_SEMANTIC_EXCERPTS
    }

    /// Adds a thought: ``- Thought `id`: `` and its first 500 characters.
    pub fn add_thought(&mut self, id: &str, body: &str)
        requires
            old(self).used < MAX_SEMANTIC_EXCERPTS,
        ensures
            strs(final(self).lines@) == strs(old(self).lines@).push(
                "- Thought `"@ + id@ + "`: "@ + char_prefix(body@, 500),
            ),
            final(self).used == old(self).used + 1,
            strs(final(self).thought_ids@) == push_unique_spec(strs(old(self).thought_ids@), id@),
            final(self).document_paths@ == old(self).document_paths@,
    {
        let mut l = to_owned_str("- Thought `");
        push_str(&mut l, id);
        push_str(&mut l, "`: ");
        let e = char_prefix_of(body, 500);
        push_str(&mut l, e.as_str());
        let ghost before = self.lines@;
        self.lines.push(l);
        proof {
            assert(strs(self.lines@) =~= strs(before).push(l@));
        }
        push_unique_thought(&mut self.thought_ids, id);
        self.used = self.used + 1;
    }

    /// Adds a document excerpt: ``- `path`: `` and the first `max`
    /// characters of `text` (600 for a matched chunk, 500 for a file read
    /// in full).
    pub fn add_document(&mut self, path: &str, text: &str, max: usize)
        requires
            old(self).used < MAX_SEMANTIC_EXCERPTS,
        ensures
            strs(final(self).lines@) == strs(old(self).lines@).push(
                "- `"@ + path@ + "`: "@ + char_prefix(text@, max as nat),
            ),
            final(self).used == old(self).used + 1,
            strs(final(self).document_paths@) == push_unique_spec(
                strs(old(self).document_paths@),
                normalized_path(path@),
            ),
            final(self).thought_ids@ == old(self).thought_ids@,
    {
        let mut l = to_owned_str("- `");
        push_str(&mut l, path);
        push_str(&mut l, "`: ");
        let e = char_prefix_of(text, max);
        push_str(&mut l, e.as_str());
        let ghost before = self.lines@;
        self.lines.push(l);
        proof {
            assert(strs(self.lines@) =~= strs(before).push(l@));
        }
        push_unique_path(&mut self.document_paths, path);
        self.used = self.used + 1;
    }

    /// Adds a note read from disk unless it is marked private; tells
    /// whether it was added.
    pub fn add_file(&mut self, path: &str, text: &str) -> (added: bool)
        requires
            old(self).used < MAX_SEMANTIC_EXCERPTS,
        ensures
            added == !crate::privacy::treat_as_private(text@),
            !added ==> *final(self) == *old(self),
            added ==> strs(final(self).lines@) == strs(old(self).lines@).push(
                "- `"@ + path@ + "`: "@ + char_prefix(text@, 500),
            ) && final(self).used == old(self).used + 1 && strs(final(self).document_paths@)
                == push_unique_spec(strs(old(self).document_paths@), normalized_path(path@)),
    {
        if crate::privacy::markdown_treat_as_kf_private(text) {
            return false;
        }
        self.add_document(path, text, 500);
        true
    }

    /// The finished block, the lines joined by newlines; `None` when no
    /// excerpt was added.
    pub fn finish(self) -> (r: Option<SemanticContextForLlmResult>)
        ensures
            self.lines@.len() <= 1 ==> r is None,
            self.lines@.len() > 1 ==> (r matches Some(res) && res.block@ == crate::text::join(
                strs(self.lines@),
                "\n"@,
            ) && res.used.document_paths@ == self.document_paths@ && res.used.thought_ids@
                == self.thought_ids@),
    {
        if self.lines.len() <= 1 {
            return None;
        }
        let block = crate::text::join_strings(&self.lines, "\n");
        Some(
            SemanticContextForLlmResult {
                block,
                used: SemanticContextForLlmUsed {
                    document_paths: self.document_paths,
                    thought_ids: self.thought_ids,
                },
            },
        )
    }
}

/// Chunks are embedded this many at a time.
pub const INDEX_BATCH: usize = 16;

/// Files larger than this many bytes are hashed but not embedded.
pub const MAX_INDEX_FILE_BYTES: u64 = 33554432;

/// At most this many chunks of one note are embedded.
pub const MAX_DOC_CHUNKS: usize = 50000;

impl RebuildProgress {
    /// A fresh checkpoint with a new random id, started now, in the
    /// scanning phase.
    pub fn start() -> (r: Self)
        ensures
            crate::ids::is_uuid_text(r.rebuild_id@, '4'),
            r.version == CHECKPOINT_VERSION,
            r.phase@ == "scanning"@,
            r.started_at@ == r.updated_at@,
            crate::memory::is_rfc3339_utc_text(r.started_at@),
            r.docs_total == 0,
            r.docs_completed == 0,
            r.thoughts_total == 0,
            r.thoughts_next_index == 0,
            r.last_message is None,
            r.last_error is None,
    {
        let now = crate::memory::now_rfc3339();
        Self::new_session(crate::ids::new_random_id(), now.as_str())
    }

    /// A fresh checkpoint, started `now`, in the scanning phase.
    pub fn new_session(rebuild_id: String, now: &str) -> (r: Self)
        ensures
            r.version == CHECKPOINT_VERSION,
            r.rebuild_id@ == rebuild_id@,
            r.phase@ == "scanning"@,
            r.started_at@ == now@,
            r.updated_at@ == now@,
            r.docs_total == 0,
            r.docs_completed == 0,
            r.thoughts_total == 0,
            r.thoughts_next_index == 0,
            r.last_message is None,
            r.last_error is None,
    {
        RebuildProgress {
            version: CHECKPOINT_VERSION,
            rebuild_id,
            phase: to_owned_str("scanning"),
            started_at: to_owned_str(now),
            updated_at: to_owned_str(now),
            docs_total: 0,
            docs_completed: 0,
            thoughts_total: 0,
            thoughts_next_index: 0,
            last_message: None,
            last_error: None,
        }
    }

    /// Marks the rebuild completed at `now`, clearing the error.
    pub fn mark_completed(&mut self, now: &str)
        ensures
            final(self).phase@ == "completed"@,
            final(self).last_error is None,
            final(self).updated_at@ == now@,
            final(self).docs_total == old(self).docs_total,
            final(self).docs_completed == old(self).docs_completed,
            final(self).thoughts_total == old(self).thoughts_total,
            final(self).thoughts_next_index == old(self).thoughts_next_index,
            final(self).rebuild_id == old(self).rebuild_id,
            final(self).last_message == old(self).last_message,
    {
        self.phase = to_owned_str("completed");
        self.last_error = None;
        self.updated_at = to_owned_str(now);
    }

    /// Marks the rebuild failed at `now` with the error.
    pub fn mark_failed(&mut self, err: &str, now: &str)
        ensures
            final(self).phase@ == "failed"@,
            final(self).last_error matches Some(e) && e@ == err@,
            final(self).updated_at@ == now@,
            final(self).docs_total == old(self).docs_total,
            final(self).docs_completed == old(self).docs_completed,
            final(self).thoughts_total == old(self).thoughts_total,
            final(self).thoughts_next_index == old(self).thoughts_next_index,
            final(self).rebuild_id == old(self).rebuild_id,
            final(self).last_message == old(self).last_message,
    {
        self.phase = to_owned_str("failed");
        self.last_error = Some(to_owned_str(err));
        self.updated_at = to_owned_str(now);
    }

    /// Records that document `fi` (0-based) was handled, at `now`.
    pub fn flush_documents(&mut self, fi: usize, msg: &str, now: &str)
        requires
            fi < usize::MAX,
        ensures
            final(self).docs_completed == fi + 1,
            final(self).phase@ == "documents"@,
            final(self).last_message matches Some(m) && m@ == msg@,
            final(self).updated_at@ == now@,
            final(self).docs_total == old(self).docs_total,
            final(self).thoughts_total == old(self).thoughts_total,
            final(self).thoughts_next_index == old(self).thoughts_next_index,
            final(self).last_error == old(self).last_error,
            final(self).rebuild_id == old(self).rebuild_id,
    {
        self.docs_completed = fi + 1;
        self.phase = to_owned_str("documents");
        self.last_message = Some(to_owned_str(msg));
        self.updated_at = to_owned_str(now);
    }
}

/// A resumed rebuild goes straight to the thoughts when the checkpoint is in
/// the thoughts phase, or failed there (all documents done, thoughts left).
pub open spec fn skips_documents(resume: bool, cp: RebuildProgress) -> bool {
    resume && (cp.phase@ == "thoughts"@ || (cp.phase@ == "failed"@ && cp.docs_completed
        >= cp.docs_total && cp.thoughts_total > 0 && cp.thoughts_next_index < cp.thoughts_total))
}

/// Decides whether the document pass is skipped.
pub fn skip_document_pass(resume: bool, cp: &RebuildProgress) -> (r: bool)
    ensures
        r == skips_documents(resume, *cp),
{
    resume && (str_eq(cp.phase.as_str(), "thoughts") || (str_eq(cp.phase.as_str(), "failed")
        && cp.docs_completed >= cp.docs_total && cp.thoughts_total > 0 && cp.thoughts_next_index
        < cp.thoughts_total))
}

/// What the rebuild does with one Markdown file.
#[derive(Debug, Clone, Copy, PartialEq, Eq, Structural)]
pub enum DocStep {
    /// Done before the checkpoint: skip.
    AlreadyDone,
    /// Too large: drop its chunks and record only its hash.
    TooLarge,
    /// Read it and decide with `doc_step_after_read`.
    Read,
    /// Marked private: drop its chunks.
    Private,
    /// Same hash as indexed: nothing to do.
    Unchanged,
    /// Drop its chunks and embed it again.
    Reindex,
}

/// The step for file `fi` of `size` bytes, before it is read.
pub fn doc_step_before_read(fi: usize, docs_completed: usize, size: u64) -> (r: DocStep)
    ensures
        fi < docs_completed ==> r == DocStep::AlreadyDone,
        fi >= docs_completed && size > MAX_INDEX_FILE_BYTES ==> r == DocStep::TooLarge,
        fi >= docs_completed && size <= MAX_INDEX_FILE_BYTES ==> r == DocStep::Read,
{
    if fi < docs_completed {
        DocStep::AlreadyDone
    } else if size > MAX_INDEX_FILE_BYTES {
        DocStep::TooLarge
    } else {
        DocStep::Read
    }
}

/// The step for a file that was read: private notes are dropped, a file
/// whose hash equals the recorded one is left, others are embedded again.
pub fn doc_step_after_read(content: &str, old_hash: Option<&str>, new_hash: &str) -> (r: DocStep)
    ensures
        crate::privacy::treat_as_private(content@) ==> r == DocStep::Private,
        !crate::privacy::treat_as_private(content@) && crate::text::opt_chars(old_hash) == Some(
            new_hash@,
        ) ==> r == DocStep::Unchanged,
        !crate::privacy::treat_as_private(content@) && crate::text::opt_chars(old_hash) != Some(
            new_hash@,
        ) ==> r == DocStep::Reindex,
{
    if crate::privacy::markdown_treat_as_kf_private(content) {
        return DocStep::Private;
    }
    match old_hash {
        Some(h) => {
            if str_eq(h, new_hash) {
                DocStep::Unchanged
            } else {
                DocStep::Reindex
            }
        },
        None => DocStep::Reindex,
    }
}

/// The SHA-256 digest of `data`.
pub uninterp spec fn sha256_digest(data: Seq<u8>) -> Seq<u8>;

/// `sha2::Sha256::digest` (through the `Digest` trait): the 32-byte SHA-256
/// digest of `data`, which depends on the bytes alone.
#[verifier::external_body]
fn sha256(data: &[u8]) -> (r: Vec<u8>)
    ensures
        r@ == sha256_digest(data@),
        r@.len() == 32,
{
    <sha2::Sha256 as sha2::Digest>::digest(data).to_vec()
}

/// The lower-case hexadecimal digit of `n` (below 16).
pub open spec fn hex_digit(n: int) -> char {
    if n < 10 {
        (48 + n) as char
    } else {
        (87 + n) as char
    }
}

/// Two lower-case hexadecimal digits per byte, high half first.
pub open spec fn hex_text(bytes: Seq<u8>) -> Seq<char>
    decreases bytes.len(),
{
    if bytes.len() == 0 {
        seq![]
    } else {
        seq![hex_digit(bytes[0] as int / 16), hex_digit(bytes[0] as int % 16)] + hex_text(bytes.drop_first())
    }
}

/// The lower-case hexadecimal digit of `n`.
fn hex_digit_char(n: u8) -> (c: char)
    requires
        n < 16,
    ensures
        c == hex_digit(n as int),
{
    if n < 10 {
        (48 + n) as char
    } else {
        (87 + n) as char
    }
}

/// Appending a byte appends its two digits.
proof fn lemma_hex_text_push(bytes: Seq<u8>, b: u8)
    ensures
        hex_text(bytes.push(b)) == hex_text(bytes) + seq![hex_digit(b as int / 16), hex_digit(b as int % 16)],
    decreases bytes.len(),
{
    if bytes.len() == 0 {
        assert(bytes.push(b).drop_first() =~= Seq::<u8>::empty());
        assert(hex_text(Seq::<u8>::empty()) =~= Seq::<char>::empty());
    } else {
        lemma_hex_text_push(bytes.drop_first(), b);
        assert(bytes.push(b).drop_first() =~= bytes.drop_first().push(b));
        assert(bytes.push(b)[0] == bytes[0]);
    }
}

/// The bytes in lower-case hexadecimal, high half of each byte first (as
/// `hex::encode` writes them).
fn hex_encode(data: &[u8]) -> (r: String)
    ensures
        r@ == hex_text(data@),
{
    let mut s = String::new();
    let mut i: usize = 0;
    proof {
        assert(data@.take(0) =~= Seq::<u8>::empty());
    }
    while i < data.len()
        invariant
            i <= data@.len(),
            s@ == hex_text(data@.take(i as int)),
        decreases data@.len() - i,
    {
        let b = data[i];
        proof {
            lemma_hex_text_push(data@.take(i as int), b);
            assert(data@.take(i + 1) =~= data@.take(i as int).push(b));
        }
        push_char(&mut s, hex_digit_char(b / 16));
        push_char(&mut s, hex_digit_char(b % 16));
        proof {
            assert(s@ =~= hex_text(data@.take(i + 1)));
        }
        i += 1;
    }
    proof {
        assert(data@.take(data@.len() as int) =~= data@);
    }
    s
}

proof fn lemma_hex_text_len(bytes: Seq<u8>)
    ensures
        hex_text(bytes).len() == 2 * bytes.len(),
    decreases bytes.len(),
{
    if bytes.len() > 0 {
        lemma_hex_text_len(bytes.drop_first());
    }
}

/// The hash the index records for some bytes: their SHA-256 in hex.
pub open spec fn recorded_hash(data: Seq<u8>) -> Seq<char> {
    hex_text(sha256_digest(data))
}

/// The recorded hash of a file's bytes (64 hex digits).
pub fn hash_bytes(data: &[u8]) -> (r: String)
    ensures
        r@ == recorded_hash(data@),
        r@.len() == 64,
{
    let d = sha256(data);
    proof {
        lemma_hex_text_len(d@);
    }
    hex_encode(d.as_slice())
}

/// The recorded hash of a text: the hash of its UTF-8 bytes.
pub fn hash_text(text: &str) -> (r: String)
    ensures
        r@ == recorded_hash(encode_utf8(text@)),
        r@.len() == 64,
{
    hash_bytes(text.as_bytes())
}

/// Whether a tracked file counts as stale, given the hash of its current
/// bytes (`None` when it is gone or unreadable) and the recorded hash.
pub fn stale_by_hash(current: Option<&str>, recorded: &str) -> (r: bool)
    ensures
        r == (crate::text::opt_chars(current) != Some(recorded@)),
{
    match current {
        Some(h) => !str_eq(h, recorded),
        None => true,
    }
}

/// Whether a tracked file is stale: it cannot be read, or its bytes no
/// longer have the recorded hash.
pub fn file_is_stale(current: Option<&[u8]>, recorded: &str) -> (r: bool)
    ensures
        r == match current {
            Some(b) => recorded_hash(b@) != recorded@,
            None => true,
        },
{
    match current {
        Some(b) => {
            let h = hash_bytes(b);
            stale_by_hash(Some(h.as_str()), recorded)
        },
        None => stale_by_hash(None, recorded),
    }
}

/// The step for a Markdown file that was read, with the hash to record:
/// a private note gets no hash; any other is hashed and compared with the
/// recorded hash (see `doc_step_after_read`).
pub fn doc_step_for_content(content: &str, recorded: Option<&str>) -> (r: (DocStep, Option<String>))
    ensures
        crate::privacy::treat_as_private(content@) ==> r.0 == DocStep::Private && r.1 is None,
        !crate::privacy::treat_as_private(content@) ==> (r.1 matches Some(h) && h@ == recorded_hash(
            encode_utf8(content@),
        ) && (r.0 == if crate::text::opt_chars(recorded) == Some(h@) {
            DocStep::Unchanged
        } else {
            DocStep::Reindex
        })),
{
    if crate::privacy::markdown_treat_as_kf_private(content) {
        return (DocStep::Private, None);
    }
    let h = hash_text(content);
    let step = doc_step_after_read(content, recorded, h.as_str());
    (step, Some(h))
}

/// The text embedded for a chunk: its heading, a newline, then its text.
pub open spec fn embed_text(c: ChunkInfo) -> Seq<char> {
    match c.heading_context {
        Some(h) => h@ + "\n"@ + c.text@,
        None => c.text@,
    }
}

/// The texts to embed for a note's chunks, at most `MAX_DOC_CHUNKS`.
pub fn chunk_embed_texts(chunks: &Vec<ChunkInfo>) -> (r: Vec<String>)
    ensures
        r@.len() == if chunks@.len() > MAX_DOC_CHUNKS {
            MAX_DOC_CHUNKS as nat
        } else {
            chunks@.len()
        },
        forall|i: int| 0 <= i < r@.len() ==> (#[trigger] r@[i])@ == embed_text(chunks@[i]),
{
    let n = if chunks.len() > MAX_DOC_CHUNKS {
        MAX_DOC_CHUNKS
    } else {
        chunks.len()
    };
    let mut out: Vec<String> = Vec::new();
    let mut i: usize = 0;
    while i < n
        invariant
            i <= n <= chunks.len(),
            out@.len() == i,
            forall|j: int| 0 <= j < i ==> (#[trigger] out@[j])@ == embed_text(chunks@[j]),
        decreases n - i,
    {
        let c = &chunks[i];
        let t = match &c.heading_context {
            Some(h) => {
                let mut t = to_owned_str(h.as_str());
                push_str(&mut t, "\n");
                push_str(&mut t, c.text.as_str());
                t
            },
            None => to_owned_str(c.text.as_str()),
        };
        out.push(t);
        i += 1;
    }
    out
}

/// The id of chunk `i` of a note: `<path>#<i>`.
pub fn chunk_id(rel_path: &str, i: usize) -> (r: String)
    ensures
        r@ == rel_path@ + "#"@ + decimal(i as nat),
{
    let mut s = to_owned_str(rel_path);
    push_str(&mut s, "#");
    push_decimal(&mut s, i as u64);
    s
}

/// The batches `[start, end)` covering `from..n` in steps of `INDEX_BATCH`.
pub open spec fn batch_ranges(from: nat, n: nat) -> Seq<(usize, usize)>
    decreases n - from,
{
    if from >= n {
        seq![]
    } else {
        let end: nat = if from + INDEX_BATCH < n {
            (from + INDEX_BATCH) as nat
        } else {
            n
        };
        seq![(from as usize, end as usize)] + batch_ranges(end, n)
    }
}

/// Splits `from..n` into embedding batches.
pub fn embed_batches(from: usize, n: usize) -> (r: Vec<(usize, usize)>)
    ensures
        r@ == batch_ranges(from as nat, n as nat),
{
    let mut out: Vec<(usize, usize)> = Vec::new();
    let mut b = from;
    while b < n
        invariant
            from <= b || b >= n,
            batch_ranges(from as nat, n as nat) == out@ + batch_ranges(b as nat, n as nat),
        decreases n - b,
    {
        let end = if n - b > INDEX_BATCH {
            b + INDEX_BATCH
        } else {
            n
        };
        let ghost before = out@;
        out.push((b, end));
        proof {
            assert(before + batch_ranges(b as nat, n as nat) =~= out@ + batch_ranges(end as nat, n as nat));
        }
        b = end;
    }
    proof {
        assert(out@ + batch_ranges(b as nat, n as nat) =~= out@);
    }
    out
}

/// The error when the thought queue changed under a resumed rebuild.
pub open spec fn queue_changed_text(total: nat, current: nat) -> Seq<char> {
    "thought embed queue length changed (checkpoint "@ + decimal(total) + ", current "@ + decimal(
        current,
    ) + "); run a full rebuild"@
}

/// Enters the thoughts phase with `queue_len` thoughts to embed, at `now`;
/// gives the index to start from. A resumed pass over a queue of another
/// length fails.
pub fn enter_thought_phase(cp: &mut RebuildProgress, skip_docs: bool, queue_len: usize, now: &str) -> (r:
    Result<usize, String>)
    ensures
        skip_docs && queue_len != old(cp).thoughts_total ==> (r matches Err(e) && e@ == queue_changed_text(
            old(cp).thoughts_total as nat,
            queue_len as nat,
        ) && *final(cp) == *old(cp)),
        !(skip_docs && queue_len != old(cp).thoughts_total) ==> {
            &&& r matches Ok(start)
            &&& final(cp).thoughts_total == queue_len
            &&& final(cp).phase@ == "thoughts"@
            &&& final(cp).updated_at@ == now@
            &&& final(cp).thoughts_next_index == if skip_docs {
                old(cp).thoughts_next_index
            } else {
                0
            }
            &&& start == if skip_docs {
                if old(cp).thoughts_next_index < queue_len {
                    old(cp).thoughts_next_index
                } else {
                    queue_len
                }
            } else {
                0
            }
            &&& final(cp).docs_total == old(cp).docs_total
            &&& final(cp).docs_completed == old(cp).docs_completed
        },
{
    if skip_docs && queue_len != cp.thoughts_total {
        let mut s = to_owned_str("thought embed queue length changed (checkpoint ");
        push_decimal(&mut s, cp.thoughts_total as u64);
        push_str(&mut s, ", current ");
        push_decimal(&mut s, queue_len as u64);
        push_str(&mut s, "); run a full rebuild");
        return Err(s);
    }
    cp.thoughts_total = queue_len;
    cp.phase = to_owned_str("thoughts");
    if !skip_docs {
        cp.thoughts_next_index = 0;
    }
    cp.updated_at = to_owned_str(now);
    if skip_docs {
        if cp.thoughts_next_index < queue_len {
            Ok(cp.thoughts_next_index)
        } else {
            Ok(queue_len)
        }
    } else {
        Ok(0)
    }
}

/// A thought is embedded again unless its stored `updated_at` equals the
/// current one.
pub fn thought_needs_embedding(stored_updated_at: Option<&str>, updated_at: &str) -> (r: bool)
    ensures
        r == (crate::text::opt_chars(stored_updated_at) != Some(updated_at@)),
{
    match stored_updated_at {
        Some(s) => !str_eq(s, updated_at),
        None => true,
    }
}

} // verus!
