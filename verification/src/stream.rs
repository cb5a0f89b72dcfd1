//! Reading streamed model replies: the lines of an SSE or NDJSON body as
//! they arrive, and the assembly of streamed tool-call fragments.
use vstd::prelude::*;

use crate::text::{
    chars_of, push_str, starts_with, str_eq, string_of_range, strs, to_owned_str, trim,
    trim_range, utf8_len, utf8_length,
};

verus! {

/// A line longer than this (in bytes, still without its newline) aborts
/// the stream.
pub const MAX_STREAM_LINE_BYTES: usize = 2097152;

/// Index of the first `\n` in `s`, or -1.
pub open spec fn nl_pos(s: Seq<char>) -> int
    decreases s.len(),
{
    if s.len() == 0 {
        -1
    } else if s[0] == '\n' {
        0
    } else {
        let r = nl_pos(s.drop_first());
        if r < 0 {
            -1
        } else {
            r + 1
        }
    }
}

proof fn lemma_nl_pos(s: Seq<char>)
    ensures
        -1 <= nl_pos(s) < s.len(),
        nl_pos(s) >= 0 ==> s[nl_pos(s)] == '\n',
        forall|j: int| 0 <= j < s.len() && (nl_pos(s) < 0 || j < nl_pos(s)) ==> s[j] != '\n',
    decreases s.len(),
{
    if s.len() > 0 && s[0] != '\n' {
        lemma_nl_pos(s.drop_first());
        assert forall|j: int| 0 <= j < s.len() && (nl_pos(s) < 0 || j < nl_pos(s)) implies s[j]
            != '\n' by {
            if j > 0 {
                assert(s[j] == s.drop_first()[j - 1]);
            }
        }
    }
}

/// The data payloads of the complete SSE lines of `buf`, and what is left
/// for later: each line is trimmed, blank lines and lines without `data: `
/// are skipped, the payload is trimmed, and a `[DONE]` payload ends this
/// scan (the lines after it stay in the buffer).
pub open spec fn sse_scan(buf: Seq<char>) -> (Seq<Seq<char>>, Seq<char>)
    decreases buf.len(),
{
    let p = nl_pos(buf);
    if p < 0 || p >= buf.len() {
        (seq![], buf)
    } else {
        let line = trim(buf.take(p));
        let rest = buf.skip(p + 1);
        if starts_with(line, "data: "@) && trim(line.skip(6)) == "[DONE]"@ {
            (seq![], rest)
        } else {
            let r = sse_scan(rest);
            if starts_with(line, "data: "@) {
                (seq![trim(line.skip(6))] + r.0, r.1)
            } else {
                r
            }
        }
    }
}

/// The trimmed, non-blank complete lines of an NDJSON buffer, and what is
/// left after the last newline.
pub open spec fn ndjson_scan(buf: Seq<char>) -> (Seq<Seq<char>>, Seq<char>)
    decreases buf.len(),
{
    let p = nl_pos(buf);
    if p < 0 || p >= buf.len() {
        (seq![], buf)
    } else {
        let line = trim(buf.take(p));
        let r = ndjson_scan(buf.skip(p + 1));
        if line.len() > 0 {
            (seq![line] + r.0, r.1)
        } else {
            r
        }
    }
}

/// The position of the first `\n` in `v` at or after `i`.
fn next_newline(v: &Vec<char>, i: usize) -> (r: Option<usize>)
    requires
        i <= v.len(),
    ensures
        match r {
            Some(p) => i <= p < v.len() && nl_pos(v@.skip(i as int)) == p - i,
            None => nl_pos(v@.skip(i as int)) < 0,
        },
{
    let mut k = i;
    while k < v.len()
        invariant
            i <= k <= v.len(),
            forall|j: int| i <= j < k ==> v@[j] != '\n',
        decreases v.len() - k,
    {
        if v[k] == '\n' {
            proof {
                lemma_nl_pos(v@.skip(i as int));
                let s = v@.skip(i as int);
                if nl_pos(s) >= 0 && nl_pos(s) < k - i {
                    assert(s[nl_pos(s)] == v@[i + nl_pos(s)]);
                }
                if nl_pos(s) < 0 || nl_pos(s) > k - i {
                    assert(s[k - i] == v@[k as int]);
                }
            }
            return Some(k);
        }
        k += 1;
    }
    proof {
        lemma_nl_pos(v@.skip(i as int));
        let s = v@.skip(i as int);
        if nl_pos(s) >= 0 {
            assert(s[nl_pos(s)] == v@[i + nl_pos(s)]);
        }
    }
    None
}

/// Why a stream was aborted.
#[derive(Debug, Clone, Copy, PartialEq, Eq, Structural)]
pub enum StreamError {
    /// The buffered text passed `MAX_STREAM_LINE_BYTES` without a newline.
    LineTooLong,
}

/// The text received but not yet split into lines.
pub struct LineBuffer {
    buf: String,
}

impl View for LineBuffer {
    type V = Seq<char>;

    closed spec fn view(&self) -> Seq<char> {
        self.buf@
    }
}

impl LineBuffer {
    /// An empty buffer.
    pub fn new() -> (r: Self)
        ensures
            r@ == Seq::<char>::empty(),
    {
        LineBuffer { buf: String::new() }
    }

    /// Appends received SSE text and takes the data payloads of the complete
    /// lines (see `sse_scan`); fails when the buffer grows past
    /// `MAX_STREAM_LINE_BYTES`.
    pub fn push_sse(&mut self, text: &str) -> (r: Result<Vec<String>, StreamError>)
        ensures
            ({
                let b = old(self)@ + text@;
                if utf8_len(b) > MAX_STREAM_LINE_BYTES {
                    r == Err::<Vec<String>, StreamError>(StreamError::LineTooLong) && final(self)@ == b
                } else {
                    r matches Ok(v) && strs(v@) == sse_scan(b).0 && final(self)@ == sse_scan(b).1
                }
            }),
    {
        push_str(&mut self.buf, text);
        if utf8_length(self.buf.as_str()) > MAX_STREAM_LINE_BYTES {
            return Err(StreamError::LineTooLong);
        }
        proof {
            reveal_strlit("data: ");
            reveal_strlit("[DONE]");
        }
        let prefix = chars_of("data: ");
        let v = chars_of(self.buf.as_str());
        let ghost b = v@;
        let mut out: Vec<String> = Vec::new();
        let mut i: usize = 0;
        proof {
            assert(b.skip(0) =~= b);
        }
        assert(prefix@.len() == 6);
        loop
            invariant_except_break
                sse_scan(b) == (strs(out@) + sse_scan(b.skip(i as int)).0, sse_scan(b.skip(i as int)).1),
            invariant
                i <= v.len(),
                b == v@,
                prefix@ == "data: "@,
                prefix@.len() == 6,
            ensures
                i <= v.len(),
                sse_scan(b) == (strs(out@), b.skip(i as int)),
            decreases v.len() - i,
        {
            let ghost s = b.skip(i as int);
            match next_newline(&v, i) {
                None => {
                    proof {
                        assert(sse_scan(s) == (Seq::<Seq<char>>::empty(), s));
                        assert(strs(out@) + Seq::<Seq<char>>::empty() =~= strs(out@));
                    }
                    break;
                },
                Some(p) => {
                    let (a, e) = trim_range(&v, i, p);
                    proof {
                        assert(s.take(p - i) =~= v@.subrange(i as int, p as int));
                        assert(s.skip(p - i + 1) =~= b.skip(p + 1));
                    }
                    let ghost line = v@.subrange(a as int, e as int);
                    assert(line == trim(s.take(p - i)));
                    assert(sse_scan(s) == (if starts_with(line, "data: "@) && trim(line.skip(6)) == "[DONE]"@ {
                        (Seq::<Seq<char>>::empty(), b.skip(p + 1))
                    } else if starts_with(line, "data: "@) {
                        (seq![trim(line.skip(6))] + sse_scan(b.skip(p + 1)).0, sse_scan(b.skip(p + 1)).1)
                    } else {
                        sse_scan(b.skip(p + 1))
                    }));
                    let has_prefix = crate::text::range_starts_with(&v, a, e, &prefix);
                    if has_prefix {
                        let (c, d) = trim_range(&v, a + 6, e);
                        proof {
                            assert(line.skip(6) =~= v@.subrange(a + 6, e as int));
                        }
                        let payload = string_of_range(&v, c, d);
                        if str_eq(payload.as_str(), "[DONE]") {
                            i = p + 1;
                            proof {
                                assert(strs(out@) + Seq::<Seq<char>>::empty() =~= strs(out@));
                            }
                            break;
                        }
                        let ghost before = out@;
                        out.push(payload);
                        proof {
                            assert(strs(out@) =~= strs(before).push(payload@));
                            assert(strs(before) + (seq![payload@] + sse_scan(b.skip(p + 1)).0)
                                =~= strs(out@) + sse_scan(b.skip(p + 1)).0);
                        }
                    }
                    i = p + 1;
                },
            }
        }
        self.buf = string_of_range(&v, i, v.len());
        proof {
            assert(v@.subrange(i as int, v@.len() as int) =~= b.skip(i as int));
        }
        Ok(out)
    }

    /// Appends received NDJSON text and takes the complete, non-blank lines
    /// (see `ndjson_scan`); fails when the buffer grows past
    /// `MAX_STREAM_LINE_BYTES`.
    pub fn push_ndjson(&mut self, text: &str) -> (r: Result<Vec<String>, StreamError>)
        ensures
            ({
                let b = old(self)@ + text@;
                if utf8_len(b) > MAX_STREAM_LINE_BYTES {
                    r == Err::<Vec<String>, StreamError>(StreamError::LineTooLong) && final(self)@ == b
                } else {
                    r matches Ok(v) && strs(v@) == ndjson_scan(b).0 && final(self)@ == ndjson_scan(b).1
                }
            }),
    {
        push_str(&mut self.buf, text);
        if utf8_length(self.buf.as_str()) > MAX_STREAM_LINE_BYTES {
            return Err(StreamError::LineTooLong);
        }
        let v = chars_of(self.buf.as_str());
        let ghost b = v@;
        let mut out: Vec<String> = Vec::new();
        let mut i: usize = 0;
        proof {
            assert(b.skip(0) =~= b);
        }
        loop
            invariant_except_break
                ndjson_scan(b) == (strs(out@) + ndjson_scan(b.skip(i as int)).0, ndjson_scan(
                    b.skip(i as int),
                ).1),
            invariant
                i <= v.len(),
                b == v@,
            ensures
                i <= v.len(),
                ndjson_scan(b) == (strs(out@), b.skip(i as int)),
            decreases v.len() - i,
        {
            let ghost s = b.skip(i as int);
            match next_newline(&v, i) {
                None => {
                    proof {
                        assert(ndjson_scan(s) == (Seq::<Seq<char>>::empty(), s));
                        assert(strs(out@) + Seq::<Seq<char>>::empty() =~= strs(out@));
                    }
                    break;
                },
                Some(p) => {
                    let (a, e) = trim_range(&v, i, p);
                    proof {
                        assert(s.take(p - i) =~= v@.subrange(i as int, p as int));
                        assert(s.skip(p - i + 1) =~= b.skip(p + 1));
                    }
                    if a < e {
                        let line = string_of_range(&v, a, e);
                        let ghost before = out@;
                        out.push(line);
                        proof {
                            assert(strs(out@) =~= strs(before).push(line@));
                            assert(strs(before) + (seq![line@] + ndjson_scan(b.skip(p + 1)).0)
                                =~= strs(out@) + ndjson_scan(b.skip(p + 1)).0);
                        }
                    }
                    i = p + 1;
                },
            }
        }
        self.buf = string_of_range(&v, i, v.len());
        proof {
            assert(v@.subrange(i as int, v@.len() as int) =~= b.skip(i as int));
        }
        Ok(out)
    }

    /// What is left once the stream ended, trimmed: a last line without
    /// newline, or empty.
    pub fn tail(&self) -> (r: String)
        ensures
            r@ == trim(self@),
    {
        crate::text::trim_str(self.buf.as_str())
    }
}

/// A fragment of a streamed tool call: its position in the reply, and the
/// id, name and piece of the JSON arguments it carries.
pub struct ToolCallDelta {
    pub index: usize,
    pub id: Option<String>,
    pub name: Option<String>,
    pub arguments: Option<String>,
}

/// A tool call being put together from fragments.
pub struct PendingToolCall {
    pub id: String,
    pub name: String,
    pub arguments_buf: String,
}

/// What a pending call holds: id, name, arguments so far.
pub type PendingView = (Seq<char>, Seq<char>, Seq<char>);

/// The view of a pending call.
pub open spec fn pview(p: PendingToolCall) -> PendingView {
    (p.id@, p.name@, p.arguments_buf@)
}

/// The views of the pending calls.
pub open spec fn pviews(ps: Seq<PendingToolCall>) -> Seq<PendingView> {
    ps.map_values(|p: PendingToolCall| pview(p))
}

/// Empty pending calls up to position `index`, then the fragment applied
/// there: a given id or name replaces the old one, an arguments piece is
/// appended.
pub open spec fn apply_delta(ps: Seq<PendingView>, d: ToolCallDelta) -> Seq<PendingView> {
    let grown = if ps.len() <= d.index {
        ps + Seq::new(
            (d.index + 1 - ps.len()) as nat,
            |i: int| (Seq::<char>::empty(), Seq::<char>::empty(), Seq::<char>::empty()),
        )
    } else {
        ps
    };
    let cur = grown[d.index as int];
    grown.update(
        d.index as int,
        (
            match d.id {
                Some(x) => x@,
                None => cur.0,
            },
            match d.name {
                Some(x) => x@,
                None => cur.1,
            },
            match d.arguments {
                Some(x) => cur.2 + x@,
                None => cur.2,
            },
        ),
    )
}

/// The fragments applied in order.
pub open spec fn apply_deltas(ps: Seq<PendingView>, ds: Seq<ToolCallDelta>) -> Seq<PendingView>
    decreases ds.len(),
{
    if ds.len() == 0 {
        ps
    } else {
        apply_delta(apply_deltas(ps, ds.drop_last()), ds.last())
    }
}

/// The text and tool calls of a streamed reply so far.
pub struct StreamAccumulator {
    pub content: String,
    pub pending: Vec<PendingToolCall>,
}

impl StreamAccumulator {
    /// Nothing received yet.
    pub fn new() -> (r: Self)
        ensures
            r.content@ == Seq::<char>::empty(),
            r.pending@.len() == 0,
    {
        StreamAccumulator { content: String::new(), pending: Vec::new() }
    }

    /// Adds one delta of the reply: its text, then its tool-call fragments.
    pub fn apply(&mut self, text: Option<&str>, deltas: Vec<ToolCallDelta>)
        requires
            forall|i: int| 0 <= i < deltas@.len() ==> (#[trigger] deltas@[i]).index < usize::MAX,
        ensures
            final(self).content@ == old(self).content@ + match text {
                Some(t) => t@,
                None => Seq::<char>::empty(),
            },
            pviews(final(self).pending@) == apply_deltas(pviews(old(self).pending@), deltas@),
    {
        match text {
            Some(t) => push_str(&mut self.content, t),
            None => {},
        }
        let ghost p0 = pviews(self.pending@);
        let ghost c1 = self.content@;
        let mut k: usize = 0;
        let mut ds = deltas;
        let ghost all = ds@;
        while k < ds.len()
            invariant
                k <= ds.len(),
                ds@ == all,
                self.content@ == c1,
                forall|i: int| 0 <= i < all.len() ==> (#[trigger] all[i]).index < usize::MAX,
                pviews(self.pending@) == apply_deltas(p0, all.take(k as int)),
            decreases ds.len() - k,
        {
            let d = &ds[k];
            let idx = d.index;
            let ghost before = pviews(self.pending@);
            while self.pending.len() <= idx
                invariant
                    idx < usize::MAX,
                    self.content@ == c1,
                    before.len() <= self.pending@.len() <= idx + 1 || before.len() > idx,
                    before.len() > idx ==> self.pending@.len() == before.len(),
                    self.pending@.len() >= before.len(),
                    pviews(self.pending@) == before + Seq::new(
                        (self.pending@.len() - before.len()) as nat,
                        |i: int| (Seq::<char>::empty(), Seq::<char>::empty(), Seq::<char>::empty()),
                    ),
                decreases idx + 1 - self.pending@.len(),
            {
                let ghost b2 = pviews(self.pending@);
                let fresh = PendingToolCall { id: String::new(), name: String::new(), arguments_buf: String::new() };
                assert(pview(fresh) == (Seq::<char>::empty(), Seq::<char>::empty(), Seq::<char>::empty()));
                self.pending.push(fresh);
                proof {
                    assert(pviews(self.pending@) =~= b2.push(pview(fresh)));
                    assert(pviews(self.pending@) =~= before + Seq::new(
                        (self.pending@.len() - before.len()) as nat,
                        |i: int| (Seq::<char>::empty(), Seq::<char>::empty(), Seq::<char>::empty()),
                    ));
                }
            }
            let ghost grown = pviews(self.pending@);
            proof {
                if before.len() <= idx {
                    assert(self.pending@.len() == idx + 1);
                } else {
                    assert(grown =~= before);
                }
            }
            let mut cur = self.pending.remove(idx);
            match &d.id {
                Some(x) => cur.id = to_owned_str(x.as_str()),
                None => {},
            }
            match &d.name {
                Some(x) => cur.name = to_owned_str(x.as_str()),
                None => {},
            }
            match &d.arguments {
                Some(x) => push_str(&mut cur.arguments_buf, x.as_str()),
                None => {},
            }
            self.pending.insert(idx, cur);
            proof {
                assert(all.take(k + 1).drop_last() =~= all.take(k as int));
                assert(pviews(self.pending@) =~= apply_delta(before, all[k as int]));
            }
            k += 1;
        }
        proof {
            assert(all.take(all.len() as int) =~= all);
        }
    }
}

/// A tool call read from the stream: the id when one was sent, the
/// internal tool name and the JSON text of the arguments.
pub struct StreamedToolCall {
    pub id: Option<String>,
    pub name: String,
    pub arguments: String,
}

/// The calls that got a name, in order, with their names turned back to
/// the internal form.
pub open spec fn finished_calls(ps: Seq<PendingView>) -> Seq<(Option<Seq<char>>, Seq<char>, Seq<char>)>
    decreases ps.len(),
{
    if ps.len() == 0 {
        seq![]
    } else {
        let rest = finished_calls(ps.drop_last());
        let p = ps.last();
        if p.1.len() == 0 {
            rest
        } else {
            rest.push(
                (
                    if p.0.len() == 0 {
                        None
                    } else {
                        Some(p.0)
                    },
                    crate::provider::internal_tool_name(p.1),
                    p.2,
                ),
            )
        }
    }
}

/// The view of a streamed call.
pub open spec fn streamed_view(c: StreamedToolCall) -> (Option<Seq<char>>, Seq<char>, Seq<char>) {
    (crate::text::opt_string(c.id), c.name@, c.arguments@)
}

/// The tool calls of the finished reply (see `finished_calls`).
pub fn finish_tool_calls(pending: &Vec<PendingToolCall>) -> (r: Vec<StreamedToolCall>)
    ensures
        r@.map_values(|c: StreamedToolCall| streamed_view(c)) == finished_calls(pviews(pending@)),
{
    let ghost ps = pviews(pending@);
    let mut out: Vec<StreamedToolCall> = Vec::new();
    let mut i: usize = 0;
    while i < pending.len()
        invariant
            i <= pending.len(),
            ps == pviews(pending@),
            out@.map_values(|c: StreamedToolCall| streamed_view(c)) == finished_calls(ps.take(i as int)),
        decreases pending.len() - i,
    {
        proof {
            assert(ps.take(i + 1).drop_last() =~= ps.take(i as int));
            assert(ps.take(i + 1).last() == pview(pending@[i as int]));
        }
        let p = &pending[i];
        if p.name.unicode_len() > 0 {
            let id = if p.id.unicode_len() == 0 {
                None
            } else {
                Some(to_owned_str(p.id.as_str()))
            };
            let c = StreamedToolCall {
                id,
                name: crate::provider::from_api_tool_name(p.name.as_str()),
                arguments: to_owned_str(p.arguments_buf.as_str()),
            };
            let ghost before = out@;
            out.push(c);
            proof {
                assert(out@.map_values(|c: StreamedToolCall| streamed_view(c)) =~= before.map_values(
                    |c: StreamedToolCall| streamed_view(c),
                ).push(streamed_view(c)));
            }
        }
        i += 1;
    }
    proof {
        assert(ps.take(ps.len() as int) =~= ps);
    }
    out
}

proof fn lemma_nl_pos_concat(s: Seq<char>, t: Seq<char>)
    ensures
        nl_pos(s + t) == if nl_pos(s) >= 0 {
            nl_pos(s)
        } else if nl_pos(t) >= 0 {
            s.len() + nl_pos(t)
        } else {
            -1
        },
    decreases s.len(),
{
    if s.len() == 0 {
        assert(s + t =~= t);
    } else {
        assert((s + t)[0] == s[0]);
        if s[0] != '\n' {
            assert((s + t).drop_first() =~= s.drop_first() + t);
            lemma_nl_pos_concat(s.drop_first(), t);
        }
    }
}

/// A stream read in chunks gives the same NDJSON lines as read at once:
/// scanning `a` and then the rest with `b` appended yields the lines and
/// the rest of scanning `a + b`.
pub proof fn lemma_ndjson_chunks(a: Seq<char>, b: Seq<char>)
    ensures
        ndjson_scan(a + b) == (
            ndjson_scan(a).0 + ndjson_scan(ndjson_scan(a).1 + b).0,
            ndjson_scan(ndjson_scan(a).1 + b).1,
        ),
    decreases a.len(),
{
    lemma_nl_pos(a);
    lemma_nl_pos_concat(a, b);
    let p = nl_pos(a);
    if p < 0 {
        assert(Seq::<Seq<char>>::empty() + ndjson_scan(a + b).0 =~= ndjson_scan(a + b).0);
    } else {
        lemma_nl_pos(a + b);
        assert((a + b).take(p) =~= a.take(p));
        assert((a + b).skip(p + 1) =~= a.skip(p + 1) + b);
        lemma_ndjson_chunks(a.skip(p + 1), b);
        let line = trim(a.take(p));
        let r = ndjson_scan(a.skip(p + 1));
        let q = ndjson_scan(r.1 + b);
        if line.len() > 0 {
            assert(seq![line] + (r.0 + q.0) =~= (seq![line] + r.0) + q.0);
        }
    }
}

/// Whether scanning `buf` stops at a `[DONE]` payload.
pub open spec fn sse_hits_done(buf: Seq<char>) -> bool
    decreases buf.len(),
{
    let p = nl_pos(buf);
    if p < 0 || p >= buf.len() {
        false
    } else {
        let line = trim(buf.take(p));
        if starts_with(line, "data: "@) && trim(line.skip(6)) == "[DONE]"@ {
            true
        } else {
            sse_hits_done(buf.skip(p + 1))
        }
    }
}

/// An SSE stream read in chunks gives the same payloads as read at once,
/// up to a `[DONE]`: scanning `a` and then the rest with `b` appended yields
/// the payloads and the rest of scanning `a + b`; once `a` reached
/// `[DONE]`, the text after it, with `b`, waits in the buffer.
pub proof fn lemma_sse_chunks(a: Seq<char>, b: Seq<char>)
    ensures
        sse_hits_done(a) ==> sse_scan(a + b) == (sse_scan(a).0, sse_scan(a).1 + b),
        !sse_hits_done(a) ==> sse_scan(a + b) == (
            sse_scan(a).0 + sse_scan(sse_scan(a).1 + b).0,
            sse_scan(sse_scan(a).1 + b).1,
        ),
    decreases a.len(),
{
    lemma_nl_pos(a);
    lemma_nl_pos_concat(a, b);
    let p = nl_pos(a);
    if p < 0 {
        assert(Seq::<Seq<char>>::empty() + sse_scan(a + b).0 =~= sse_scan(a + b).0);
    } else {
        lemma_nl_pos(a + b);
        assert((a + b).take(p) =~= a.take(p));
        assert((a + b).skip(p + 1) =~= a.skip(p + 1) + b);
        lemma_sse_chunks(a.skip(p + 1), b);
        let line = trim(a.take(p));
        let r = sse_scan(a.skip(p + 1));
        let q = sse_scan(r.1 + b);
        if starts_with(line, "data: "@) && trim(line.skip(6)) != "[DONE]"@ {
            assert(seq![trim(line.skip(6))] + (r.0 + q.0) =~= (seq![trim(line.skip(6))] + r.0) + q.0);
        }
    }
}


/// What one line of an Ollama chat stream asks for.
pub enum OllamaLineAction {
    /// The server reported an error: the stream ends with it.
    Fail(String),
    /// A piece of the reply.
    Chunk(String),
    /// Nothing to pass on.
    Continue,
}

/// One parsed line of an Ollama chat stream, given its `error` and its
/// `message.content`: an error ends the stream; otherwise non-empty content
/// is a piece of the reply.
pub fn ollama_line_step(error: Option<String>, content: Option<String>) -> (r: OllamaLineAction)
    ensures
        match error {
            Some(e) => r == OllamaLineAction::Fail(e),
            None => match content {
                Some(c) => if c@.len() > 0 {
                    r == OllamaLineAction::Chunk(c)
                } else {
                    r == OllamaLineAction::Continue
                },
                None => r == OllamaLineAction::Continue,
            },
        },
{
    match error {
        Some(e) => OllamaLineAction::Fail(e),
        None => match content {
            Some(c) => {
                if crate::text::char_count(c.as_str()) > 0 {
                    OllamaLineAction::Chunk(c)
                } else {
                    OllamaLineAction::Continue
                }
            },
            None => OllamaLineAction::Continue,
        },
    }
}


/// What `serde_json::from_str::<serde_json::Value>` reads from a text, when
/// it parses.
pub uninterp spec fn json_value_of(text: Seq<char>) -> Option<serde_json::Value>;

/// `serde_json::from_str::<serde_json::Value>`, with a parse error turned
/// into `None`; the value is named, as a function of the text.
#[verifier::external_body]
fn parse_json_value(text: &str) -> (r: Option<serde_json::Value>)
    ensures
        r == json_value_of(text@),
{
    serde_json::from_str(text).ok()
}

/// The arguments of a streamed tool call: its JSON text parsed, or an empty
/// object when the text does not parse.
pub fn tool_call_arguments(text: &str) -> (r: serde_json::Value)
    ensures
        r == match json_value_of(text@) {
            Some(v) => v,
            None => crate::skills::json_string_object(seq![]),
        },
{
    match parse_json_value(text) {
        Some(v) => v,
        None => {
            let members: Vec<(String, String)> = Vec::new();
            proof {
                assert(members@.map_values(|m: (String, String)| (m.0@, m.1@)) =~= seq![]);
            }
            crate::skills::string_object(members)
        },
    }
}

} // verus!
