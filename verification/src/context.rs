//! The context guard: token estimates for a conversation and the trimming
//! that keeps it within the model's context window.
use vstd::prelude::*;

use crate::message::{
    headed_system, plain_message, has_role, mview, mviews, role_is, set_content, system_view, with_content, LlmChatMessage,
    MessageView,
};
use crate::results::{STORED_REF_MARKER, SUMMARIZED_MARKER};
use crate::agent::{cut_with, truncate_str};
use crate::text::{
    trim_str, char_count, opt_chars, opt_string, trim, trim_range, chars_of, decimal, find, find_from, fit_prefix, fit_prefix_len, push_decimal, push_str,
    starts_with, str_starts_with, string_of_range, to_owned_str, utf8_len, utf8_length,
};

verus! {

pub const DEFAULT_MAX_TOKENS: usize = 32768;

pub const RESERVE_TOKENS: usize = 512;

pub const MIN_KEEP_ROUNDS: usize = 2;

/// Number of ASCII characters (one UTF-8 byte each).
pub open spec fn ascii_count(s: Seq<char>) -> nat
    decreases s.len(),
{
    if s.len() == 0 {
        0
    } else {
        ascii_count(s.drop_last()) + if (s.last() as u32) < 0x80 {
            1nat
        } else {
            0nat
        }
    }
}

/// Token estimate of one message: non-ASCII bytes / 2 plus ASCII bytes / 4,
/// at least 1, plus 4 for the message frame.
pub open spec fn content_tokens(c: Seq<char>) -> nat {
    let a = ascii_count(c);
    let t = (utf8_len(c) - a) as nat / 2 + a / 4;
    (if t < 1 {
        1
    } else {
        t
    }) + 4
}

/// Token estimate of a conversation.
pub open spec fn total_tokens(vs: Seq<MessageView>) -> nat
    decreases vs.len(),
{
    if vs.len() == 0 {
        0
    } else {
        total_tokens(vs.drop_last()) + content_tokens(vs.last().1)
    }
}

proof fn lemma_ascii_le(s: Seq<char>)
    ensures
        ascii_count(s) <= utf8_len(s),
    decreases s.len(),
{
    if s.len() > 0 {
        lemma_ascii_le(s.drop_last());
    }
}

/// A token total as `usize`, capped at `usize::MAX`.
pub open spec fn capped(n: nat) -> nat {
    if n > usize::MAX {
        usize::MAX as nat
    } else {
        n
    }
}

/// Keeps a conversation within a model's context window: `max_tokens`
/// minus a `reserve` for the reply.
#[derive(Clone)]
pub struct ContextGuard {
    max_tokens: usize,
    reserve: usize,
}

/// A summary computed ahead of time for the messages before
/// `summarized_up_to`.
pub struct PrecomputedSummary {
    pub summary_text: String,
    pub summarized_up_to: usize,
}

impl ContextGuard {
    /// The context window, in tokens.
    pub closed spec fn max_tokens_of(self) -> nat {
        self.max_tokens as nat
    }

    /// The tokens kept back for the reply.
    pub closed spec fn reserve_of(self) -> nat {
        self.reserve as nat
    }

    /// The token budget of a conversation: window minus reserve, at least 0.
    pub open spec fn budget_of(self) -> nat {
        if self.max_tokens_of() >= self.reserve_of() {
            (self.max_tokens_of() - self.reserve_of()) as nat
        } else {
            0
        }
    }

    /// A guard for a window of `max_context_tokens` (default
    /// `DEFAULT_MAX_TOKENS`) with the standard reserve.
    pub fn new(max_context_tokens: Option<u64>) -> (g: Self)
        ensures
            g.max_tokens_of() == match max_context_tokens {
                Some(t) => (t as usize) as nat,
                None => DEFAULT_MAX_TOKENS as nat,
            },
            g.reserve_of() == RESERVE_TOKENS,
    {
        let max_tokens = match max_context_tokens {
            Some(t) => t as usize,
            None => DEFAULT_MAX_TOKENS,
        };
        ContextGuard { max_tokens, reserve: RESERVE_TOKENS }
    }

    /// The token budget (saturating subtraction).
    pub fn budget(&self) -> (r: usize)
        ensures
            r == self.budget_of(),
    {
        self.max_tokens.saturating_sub(self.reserve)
    }

    /// Estimates the tokens of one message.
    pub fn estimate_message_tokens(m: &LlmChatMessage) -> (r: usize)
        ensures
            r == content_tokens(m.content@),
    {
        let bytes = utf8_length(m.content.as_str());
        let v = chars_of(m.content.as_str());
        let mut ascii: usize = 0;
        let mut i: usize = 0;
        proof {
            lemma_ascii_le(v@);
        }
        while i < v.len()
            invariant
                i <= v.len(),
                ascii == ascii_count(v@.take(i as int)),
                ascii <= i,
                ascii_count(v@) <= bytes,
                bytes == utf8_len(v@),
            decreases v.len() - i,
        {
            proof {
                assert(v@.take(i + 1).drop_last() =~= v@.take(i as int));
            }
            if (v[i] as u32) < 0x80 {
                ascii += 1;
            }
            i += 1;
        }
        proof {
            assert(v@.take(v@.len() as int) =~= v@);
        }
        let t = (bytes - ascii) / 2 + ascii / 4;
        let t1 = if t < 1 {
            1
        } else {
            t
        };
        t1 + 4
    }

    /// Estimates the tokens of a conversation (capped at `usize::MAX`).
    pub fn estimate_total(msgs: &Vec<LlmChatMessage>) -> (r: usize)
        ensures
            r == capped(total_tokens(mviews(msgs@))),
    {
        let mut total: usize = 0;
        let mut i: usize = 0;
        while i < msgs.len()
            invariant
                i <= msgs.len(),
                total == capped(total_tokens(mviews(msgs@.take(i as int)))),
            decreases msgs.len() - i,
        {
            proof {
                assert(mviews(msgs@.take(i + 1)).drop_last() =~= mviews(msgs@.take(i as int)));
                assert(mviews(msgs@.take(i + 1)).last() == mview(msgs@[i as int]));
            }
            let t = Self::estimate_message_tokens(&msgs[i]);
            total = total.saturating_add(t);
            i += 1;
        }
        proof {
            assert(msgs@.take(msgs@.len() as int) =~= msgs@);
        }
        total
    }

    /// Whether the conversation's token estimate is over `budget` (summed
    /// as a `u128`, which cannot overflow).
    fn over_budget(msgs: &Vec<LlmChatMessage>, budget: usize) -> (r: bool)
        ensures
            r == (total_tokens(mviews(msgs@)) > budget),
    {
        let mut total: u128 = 0;
        let mut i: usize = 0;
        while i < msgs.len()
            invariant
                i <= msgs.len(),
                total == total_tokens(mviews(msgs@.take(i as int))),
                total <= i * 0x1_0000_0000_0000_0000,
            decreases msgs.len() - i,
        {
            proof {
                assert(mviews(msgs@.take(i + 1)).drop_last() =~= mviews(msgs@.take(i as int)));
                assert(mviews(msgs@.take(i + 1)).last() == mview(msgs@[i as int]));
            }
            let t = Self::estimate_message_tokens(&msgs[i]);
            total = total + t as u128;
            i += 1;
        }
        proof {
            assert(msgs@.take(msgs@.len() as int) =~= msgs@);
        }
        total > budget as u128
    }
}

/// The start of the protected tail: the second-to-last assistant message
/// (scanning back until `MIN_KEEP_ROUNDS` assistant messages are found),
/// or 0 for short conversations.
pub open spec fn tail_scan(vs: Seq<MessageView>, i: int, rounds: nat, boundary: int) -> int
    decreases i,
{
    if i <= 0 || rounds >= MIN_KEEP_ROUNDS {
        boundary
    } else if vs[i - 1].0 == "assistant"@ {
        tail_scan(vs, i - 1, rounds + 1, i - 1)
    } else {
        tail_scan(vs, i - 1, rounds, boundary)
    }
}

/// Messages before this index may be trimmed.
pub open spec fn tail_boundary(vs: Seq<MessageView>) -> int {
    if vs.len() <= MIN_KEEP_ROUNDS * 2 {
        0
    } else {
        tail_scan(vs, vs.len() as int, 0, vs.len() as int)
    }
}

proof fn lemma_tail_scan_bound(vs: Seq<MessageView>, i: int, rounds: nat, boundary: int)
    requires
        0 <= i <= vs.len(),
        0 <= boundary <= vs.len(),
    ensures
        0 <= tail_scan(vs, i, rounds, boundary) <= vs.len(),
    decreases i,
{
    if i > 0 && rounds < MIN_KEEP_ROUNDS {
        if vs[i - 1].0 == "assistant"@ {
            lemma_tail_scan_bound(vs, i - 1, rounds + 1, i - 1);
        } else {
            lemma_tail_scan_bound(vs, i - 1, rounds, boundary);
        }
    }
}

/// The number of assistant messages in `vs`.
pub open spec fn assistant_count(vs: Seq<MessageView>) -> nat
    decreases vs.len(),
{
    if vs.len() == 0 {
        0
    } else {
        (if vs[0].0 == "assistant"@ {
            1nat
        } else {
            0nat
        }) + assistant_count(vs.drop_first())
    }
}

/// A suffix holds no more assistant messages than the whole.
proof fn lemma_suffix_count_le(vs: Seq<MessageView>, i: int)
    requires
        0 <= i <= vs.len(),
    ensures
        assistant_count(vs.subrange(i, vs.len() as int)) <= assistant_count(vs),
    decreases i,
{
    if i == 0 {
        assert(vs.subrange(0, vs.len() as int) =~= vs);
    } else {
        lemma_suffix_count_le(vs, i - 1);
        assert(vs.subrange(i - 1, vs.len() as int).drop_first() =~= vs.subrange(i, vs.len() as int));
    }
}

proof fn lemma_tail_scan_rounds(vs: Seq<MessageView>, i: int, rounds: nat, boundary: int)
    requires
        0 <= i <= vs.len(),
        rounds <= MIN_KEEP_ROUNDS,
        rounds == assistant_count(vs.subrange(i, vs.len() as int)),
        rounds == 0 ==> boundary == vs.len(),
        rounds > 0 ==> i <= boundary < vs.len() && vs[boundary].0 == "assistant"@ && assistant_count(
            vs.subrange(boundary + 1, vs.len() as int),
        ) == rounds - 1,
    ensures
        ({
            let b = tail_scan(vs, i, rounds, boundary);
            let n = if assistant_count(vs) < MIN_KEEP_ROUNDS {
                assistant_count(vs)
            } else {
                MIN_KEEP_ROUNDS as nat
            };
            &&& n == 0 ==> b == vs.len()
            &&& n > 0 ==> 0 <= b < vs.len() && vs[b].0 == "assistant"@ && assistant_count(
                vs.subrange(b + 1, vs.len() as int),
            ) == n - 1
        }),
    decreases i,
{
    let len = vs.len() as int;
    if i <= 0 || rounds >= MIN_KEEP_ROUNDS {
        lemma_suffix_count_le(vs, i);
        if i <= 0 {
            assert(vs.subrange(0, len) =~= vs);
        }
    } else {
        let j = i - 1;
        assert(vs.subrange(j, len).drop_first() =~= vs.subrange(i, len));
        assert(vs.subrange(j, len)[0] == vs[j]);
        if vs[j].0 == "assistant"@ {
            lemma_tail_scan_rounds(vs, j, rounds + 1, j);
        } else {
            lemma_tail_scan_rounds(vs, j, rounds, boundary);
        }
    }
}

/// The protected tail of a long conversation keeps its last rounds: when
/// it has at least `MIN_KEEP_ROUNDS` assistant messages, the boundary is an
/// assistant message followed by exactly `MIN_KEEP_ROUNDS - 1` more (with
/// fewer, it is the first assistant message, or the end when there is none).
pub proof fn lemma_tail_keeps_last_rounds(vs: Seq<MessageView>)
    requires
        vs.len() > MIN_KEEP_ROUNDS * 2,
    ensures
        ({
            let b = tail_boundary(vs);
            let n = if assistant_count(vs) < MIN_KEEP_ROUNDS {
                assistant_count(vs)
            } else {
                MIN_KEEP_ROUNDS as nat
            };
            &&& n == 0 ==> b == vs.len()
            &&& n > 0 ==> 0 <= b < vs.len() && vs[b].0 == "assistant"@ && assistant_count(
                vs.subrange(b + 1, vs.len() as int),
            ) == n - 1
        }),
{
    let len = vs.len() as int;
    assert(vs.subrange(len, len) =~= Seq::<MessageView>::empty());
    lemma_tail_scan_rounds(vs, len, 0, len);
}

impl ContextGuard {
    /// Finds the start of the protected tail.
    pub fn find_tail_boundary(messages: &Vec<LlmChatMessage>) -> (r: usize)
        ensures
            r == tail_boundary(mviews(messages@)),
            r <= messages.len(),
            messages@.len() > MIN_KEEP_ROUNDS * 2 && assistant_count(mviews(messages@)) >= MIN_KEEP_ROUNDS
                ==> r < messages@.len() && messages@[r as int].role@ == "assistant"@ && assistant_count(
                mviews(messages@).subrange(r + 1, messages@.len() as int),
            ) == MIN_KEEP_ROUNDS - 1,
    {
        proof {
            if messages@.len() > MIN_KEEP_ROUNDS * 2 {
                lemma_tail_keeps_last_rounds(mviews(messages@));
            }
        }
        let len = messages.len();
        if len <= MIN_KEEP_ROUNDS * 2 {
            return 0;
        }
        let ghost vs = mviews(messages@);
        let mut rounds: usize = 0;
        let mut boundary = len;
        let mut i = len;
        while i > 0 && rounds < MIN_KEEP_ROUNDS
            invariant
                len == messages.len(),
                vs == mviews(messages@),
                i <= len,
                boundary <= len,
                tail_scan(vs, len as int, 0, len as int) == tail_scan(
                    vs,
                    i as int,
                    rounds as nat,
                    boundary as int,
                ),
            decreases i,
        {
            i -= 1;
            proof {
                reveal_strlit("assistant");
            }
            if role_is(&messages[i], "assistant") {
                rounds += 1;
                boundary = i;
            }
        }
        proof {
            lemma_tail_scan_bound(vs, len as int, 0, len as int);
        }
        boundary
    }
}


/// Only contents of non-system messages before `end` differ.
pub open spec fn trims_only(old: Seq<MessageView>, new: Seq<MessageView>, end: int) -> bool {
    &&& new.len() == old.len()
    &&& forall|i: int|
        0 <= i < old.len() ==> {
            &&& (#[trigger] new[i]).0 == old[i].0
            &&& new[i].2 == old[i].2
            &&& new[i].3 == old[i].3
            &&& new[i].4 == old[i].4
            &&& (i >= end || old[i].0 == "system"@) ==> new[i] == old[i]
        }
}

proof fn lemma_trims_only_trans(a: Seq<MessageView>, b: Seq<MessageView>, c: Seq<MessageView>, end: int)
    requires
        trims_only(a, b, end),
        trims_only(b, c, end),
    ensures
        trims_only(a, c, end),
{
    assert forall|i: int| 0 <= i < a.len() implies {
        &&& (#[trigger] c[i]).0 == a[i].0
        &&& c[i].2 == a[i].2
        &&& c[i].3 == a[i].3
        &&& c[i].4 == a[i].4
        &&& (i >= end || a[i].0 == "system"@) ==> c[i] == a[i]
    } by {
        assert(b[i].0 == a[i].0);
    }
}

/// A raw tool result longer than 40 bytes (summaries are kept in pass 1).
pub open spec fn trimmable(v: MessageView) -> bool {
    v.0 == "tool"@ && utf8_len(v.1) > 40 && !starts_with(v.1, SUMMARIZED_MARKER@)
}

/// The placeholder of a trimmed tool result.
pub open spec fn trimmed_text(c: Seq<char>) -> Seq<char> {
    "[tool result trimmed, was "@ + decimal(utf8_len(c)) + " chars]"@
}

/// Pass 1: from index `i` up to `end`, while the conversation is over
/// budget, raw tool results are replaced by a placeholder.
pub open spec fn pass1(vs: Seq<MessageView>, i: int, end: int, budget: nat) -> Seq<MessageView>
    decreases end - i,
{
    if i >= end || total_tokens(vs) <= budget {
        vs
    } else {
        let v2 = if trimmable(vs[i]) {
            vs.update(i, with_content(vs[i], trimmed_text(vs[i].1)))
        } else {
            vs
        };
        pass1(v2, i + 1, end, budget)
    }
}

/// The stored-reference placeholder of a summarized tool result, when its
/// marker names a reference.
pub open spec fn stored_ref_marker(c: Seq<char>) -> Option<Seq<char>> {
    let rs = find(c, "| ref:"@);
    if rs < 0 {
        None
    } else {
        let tail = c.skip(rs + 6);
        let re = find(tail, "]"@);
        if re < 0 {
            None
        } else {
            let after = c.skip(fit_prefix_len(c, 17) as int);
            let ce = find(after, " "@);
            let orig = after.take(
                if ce < 0 {
                    0
                } else {
                    ce
                },
            );
            Some(STORED_REF_MARKER@ + tail.take(re) + ", was "@ + orig + " chars]"@)
        }
    }
}

/// Where `stored_ref_marker` reads the original size, byte 17 (just past
/// the summarized marker) is a character boundary.
pub open spec fn marker_slice_ok(c: Seq<char>) -> bool {
    let rs = find(c, "| ref:"@);
    (rs >= 0 && find(c.skip(rs + 6), "]"@) >= 0) ==> utf8_len(
        c.take(fit_prefix_len(c, 17) as int),
    ) == 17
}

/// A content that starts with the summarized marker meets
/// `marker_slice_ok`.
proof fn lemma_marker_prefix(c: Seq<char>)
    requires
        starts_with(c, SUMMARIZED_MARKER@),
    ensures
        fit_prefix_len(c, 17) == 17,
        utf8_len(c.take(17)) == 17,
        marker_slice_ok(c),
{
    reveal_strlit("[summarized from ");
    assert(SUMMARIZED_MARKER@.len() == 17);
    assert(utf8_len(SUMMARIZED_MARKER@) == 17) by {
        reveal_with_fuel(utf8_len, 18);
    }
    assert(c.take(17) == SUMMARIZED_MARKER@);
    crate::text::lemma_fit_prefix(c, 17);
    let k = fit_prefix_len(c, 17);
    crate::text::lemma_utf8_len_ge_len(c.take(k as int));
    if k < 17 {
        crate::text::lemma_utf8_len_mono(c, k as int + 1, 17);
    }
}

impl ContextGuard {
    /// Turns `[summarized from N chars | ref:ID]…` into
    /// `[tool result stored | ref:ID, was N chars]`.
    pub fn extract_stored_ref_marker(content: &str) -> (r: Option<String>)
        requires
            marker_slice_ok(content@),
        ensures
            crate::text::opt_string(r) == stored_ref_marker(content@),
    {
        let v = chars_of(content);
        let pat = chars_of("| ref:");
        let close = chars_of("]");
        let space = chars_of(" ");
        proof {
            reveal_strlit("| ref:");
            reveal_strlit("]");
            reveal_strlit(" ");
            assert(v@.skip(0) =~= v@);
        }
        let rs = match find_from(&v, 0, &pat) {
            Some(i) => i,
            None => return None,
        };
        let vs = rs + 6;
        let re = match find_from(&v, vs, &close) {
            Some(j) => j,
            None => return None,
        };
        let k = fit_prefix(&v, 17);
        let ce = match find_from(&v, k, &space) {
            Some(j) => j,
            None => k,
        };
        let mut s = to_owned_str(STORED_REF_MARKER);
        let rid = string_of_range(&v, vs, re);
        push_str(&mut s, rid.as_str());
        push_str(&mut s, ", was ");
        let orig = string_of_range(&v, k, ce);
        push_str(&mut s, orig.as_str());
        push_str(&mut s, " chars]");
        proof {
            assert(v@.skip(vs as int).take(re - vs) =~= v@.subrange(vs as int, re as int));
            assert(v@.skip(k as int).take(ce - k) =~= v@.subrange(k as int, ce as int));
        }
        Some(s)
    }
}

/// Pass 2: from `i` up to `end`, while over budget, summarized tool results
/// with a stored reference are reduced to their reference placeholder.
pub open spec fn pass2(vs: Seq<MessageView>, i: int, end: int, budget: nat) -> Seq<MessageView>
    decreases end - i,
{
    if i >= end || total_tokens(vs) <= budget {
        vs
    } else {
        let v2 = if vs[i].0 == "tool"@ && starts_with(vs[i].1, SUMMARIZED_MARKER@) {
            match stored_ref_marker(vs[i].1) {
                Some(m) => vs.update(i, with_content(vs[i], m)),
                None => vs,
            }
        } else {
            vs
        };
        pass2(v2, i + 1, end, budget)
    }
}

/// Phase 1: pass 1, then pass 2 when still over budget.
pub open spec fn phase1(vs: Seq<MessageView>, budget: nat) -> Seq<MessageView> {
    let end = tail_boundary(vs);
    let p = pass1(vs, 0, end, budget);
    if total_tokens(p) > budget {
        pass2(p, 0, end, budget)
    } else {
        p
    }
}

/// Phase 2: from `i` up to `end`, non-system messages longer than 20 bytes
/// get a placeholder, stopping once within budget.
pub open spec fn degrade(vs: Seq<MessageView>, i: int, end: int, budget: nat) -> Seq<MessageView>
    decreases end - i,
{
    if i >= end {
        vs
    } else if vs[i].0 == "system"@ {
        degrade(vs, i + 1, end, budget)
    } else {
        let v2 = if utf8_len(vs[i].1) > 20 {
            vs.update(i, with_content(vs[i], "[content trimmed]"@))
        } else {
            vs
        };
        if total_tokens(v2) <= budget {
            v2
        } else {
            degrade(v2, i + 1, end, budget)
        }
    }
}

/// Phase 2 over the trimmable prefix.
pub open spec fn phase2(vs: Seq<MessageView>, budget: nat) -> Seq<MessageView> {
    degrade(vs, 0, tail_boundary(vs), budget)
}

/// The trimming of a conversation over budget: phase 1, then phase 2 when
/// still over budget.
pub open spec fn trimmed(vs: Seq<MessageView>, budget: nat) -> Seq<MessageView> {
    if total_tokens(vs) <= budget {
        vs
    } else {
        let p = phase1(vs, budget);
        if total_tokens(p) <= budget {
            p
        } else {
            phase2(p, budget)
        }
    }
}

impl ContextGuard {
    /// Pass 1 of phase 1 over `[0, end)`.
    fn trim_raw_tool_results(messages: &mut Vec<LlmChatMessage>, end: usize, budget: usize)
        requires
            end <= old(messages).len(),
        ensures
            mviews(final(messages)@) == pass1(mviews(old(messages)@), 0, end as int, budget as nat),
            final(messages)@.len() == old(messages)@.len(),
    {
        let ghost target = pass1(mviews(messages@), 0, end as int, budget as nat);
        let ghost len0 = messages.len();
        let mut i: usize = 0;
        while i < end && Self::over_budget(messages, budget)
            invariant
                i <= end <= messages.len(),
                messages.len() == len0,
                target == pass1(mviews(messages@), i as int, end as int, budget as nat),
            decreases end - i,
        {
            let ghost vs = mviews(messages@);
            let content = messages[i].content.as_str();
            let n = utf8_length(content);
            if role_is(&messages[i], "tool") && n > 40 && !str_starts_with(
                content,
                SUMMARIZED_MARKER,
            ) {
                let mut s = to_owned_str("[tool result trimmed, was ");
                push_decimal(&mut s, n as u64);
                push_str(&mut s, " chars]");
                set_content(messages, i, s);
            }
            proof {
                assert(total_tokens(vs) > budget);
            }
            i += 1;
        }
    }

    /// Pass 2 of phase 1 over `[0, end)`.
    fn reduce_summarized_results(messages: &mut Vec<LlmChatMessage>, end: usize, budget: usize)
        requires
            end <= old(messages).len(),
        ensures
            mviews(final(messages)@) == pass2(mviews(old(messages)@), 0, end as int, budget as nat),
            final(messages)@.len() == old(messages)@.len(),
    {
        let ghost target = pass2(mviews(messages@), 0, end as int, budget as nat);
        let ghost len0 = messages.len();
        let mut i: usize = 0;
        while i < end && Self::over_budget(messages, budget)
            invariant
                i <= end <= messages.len(),
                messages.len() == len0,
                target == pass2(mviews(messages@), i as int, end as int, budget as nat),
            decreases end - i,
        {
            let ghost vs = mviews(messages@);
            let content = messages[i].content.as_str();
            if role_is(&messages[i], "tool") && str_starts_with(content, SUMMARIZED_MARKER) {
                proof {
                    lemma_marker_prefix(content@);
                }
                match Self::extract_stored_ref_marker(content) {
                    Some(m) => set_content(messages, i, m),
                    None => {},
                }
            }
            proof {
                assert(total_tokens(vs) > budget);
            }
            i += 1;
        }
    }

    /// Phase 1: trims raw tool results before the protected tail while over
    /// `budget`, then reduces summarized results that name a stored
    /// reference.
    pub fn phase1_remove_tool_results(&self, messages: &mut Vec<LlmChatMessage>, budget: usize)
        ensures
            mviews(final(messages)@) == phase1(mviews(old(messages)@), budget as nat),
    {
        let tb = Self::find_tail_boundary(messages);
        Self::trim_raw_tool_results(messages, tb, budget);
        if Self::over_budget(messages, budget) {
            Self::reduce_summarized_results(messages, tb, budget);
        }
    }

    /// Phase 2: replaces the content of non-system messages before the
    /// protected tail by a placeholder until within `budget`.
    pub fn phase2_degrade(&self, messages: &mut Vec<LlmChatMessage>, budget: usize)
        ensures
            mviews(final(messages)@) == phase2(mviews(old(messages)@), budget as nat),
    {
        let end = Self::find_tail_boundary(messages);
        let ghost target = phase2(mviews(messages@), budget as nat);
        let mut i: usize = 0;
        let mut done = false;
        while i < end && !done
            invariant
                i <= end <= messages.len(),
                done ==> i < end,
                target == if done {
                    mviews(messages@)
                } else {
                    degrade(mviews(messages@), i as int, end as int, budget as nat)
                },
            decreases end - i + if done {
                0int
            } else {
                1int
            },
        {
            let ghost vs = mviews(messages@);
            if !role_is(&messages[i], "system") {
                if utf8_length(messages[i].content.as_str()) > 20 {
                    set_content(messages, i, to_owned_str("[content trimmed]"));
                }
                if !Self::over_budget(messages, budget) {
                    done = true;
                }
            }
            if !done {
                i += 1;
            }
        }
    }

    /// Trims the conversation into the budget: phase 1, then phase 2 when
    /// still over budget.
    pub fn trim_if_needed(&self, messages: &mut Vec<LlmChatMessage>)
        ensures
            mviews(final(messages)@) == trimmed(mviews(old(messages)@), self.budget_of()),
    {
        let budget = self.budget();
        if !Self::over_budget(messages, budget) {
            return;
        }
        self.phase1_remove_tool_results(messages, budget);
        if !Self::over_budget(messages, budget) {
            return;
        }
        self.phase2_degrade(messages, budget);
    }
}

pub const MIN_MESSAGES_FOR_SUMMARY: usize = 4;

pub const MAX_SUMMARY_INPUT_CHARS: usize = 6000;

pub const MAX_CONTENT_PER_MESSAGE: usize = 1000;

pub const EARLIER_SUMMARY_PREFIX: &'static str = "[Earlier conversation summary]";

pub const SUMMARY_SYSTEM: &'static str = "Summarize the following conversation into a structured summary.\nYou MUST preserve:\n- What the user wants to accomplish (goal)\n- Any constraints the user specified\n- What tools were called and their key findings\n- Decisions made so far\n- Open questions or unresolved issues\n- What should happen next\n\nIf a previous summary is provided, merge its information into the new summary \u{2014} keep still-relevant items, drop outdated ones, and add new discoveries.\n\nFormat:\n[Goal] ...\n[Findings] ...\n[Decisions] ...\n[Open] ...\n[Next] ...\n\nBe concise. Each section 1-3 sentences max. Output only the summary.";

/// The text after the prefix of the last earlier-summary system message.
pub open spec fn previous_summary(vs: Seq<MessageView>) -> Option<Seq<char>>
    decreases vs.len(),
{
    if vs.len() == 0 {
        None
    } else if vs.last().0 == "system"@ && starts_with(vs.last().1, EARLIER_SUMMARY_PREFIX@) {
        Some(trim(vs.last().1.skip(EARLIER_SUMMARY_PREFIX@.len() as int)))
    } else {
        previous_summary(vs.drop_last())
    }
}

/// Finds the text of the last `[Earlier conversation summary]` system
/// message, trimmed.
pub fn find_previous_summary(messages: &Vec<LlmChatMessage>) -> (r: Option<String>)
    ensures
        opt_string(r) == previous_summary(mviews(messages@)),
{
    let mut i = messages.len();
    proof {
        assert(mviews(messages@).take(i as int) =~= mviews(messages@));
    }
    while i > 0
        invariant
            i <= messages.len(),
            previous_summary(mviews(messages@)) == previous_summary(
                mviews(messages@).take(i as int),
            ),
        decreases i,
    {
        let ghost t = mviews(messages@).take(i as int);
        proof {
            assert(t.drop_last() =~= mviews(messages@).take(i - 1));
        }
        if headed_system(&messages[i - 1], EARLIER_SUMMARY_PREFIX) {
            let v = chars_of(messages[i - 1].content.as_str());
            let n = char_count(EARLIER_SUMMARY_PREFIX);
            let (a, b) = trim_range(&v, n, v.len());
            proof {
                assert(v@.subrange(n as int, v@.len() as int) =~= v@.skip(n as int));
            }
            return Some(string_of_range(&v, a, b));
        }
        i -= 1;
    }
    None
}

/// Cuts `s` to `max_len` bytes at a character boundary, appending `...`
/// when it was cut.
pub fn truncate_for_summary(s: &str, max_len: usize) -> (r: String)
    ensures
        r@ == cut_with(s@, max_len as nat, "..."@),
{
    truncate_str(s, max_len)
}

/// The header of the summarization request: the previous summary, if any.
pub open spec fn summary_head(prev: Option<Seq<char>>) -> Seq<char> {
    match prev {
        Some(p) => "[Previous summary]:\n"@ + p + "\n\n[New messages]:\n"@,
        None => seq![],
    }
}

/// One line of the summarization request.
pub open spec fn summary_line(m: MessageView) -> Seq<char> {
    "["@ + m.0 + "]: "@ + cut_with(m.1, MAX_CONTENT_PER_MESSAGE as nat, "..."@) + "\n"@
}

/// The lines of the summarization request: one per message, in order,
/// stopping before the first line that would take the running byte count
/// (starting at `count`) over `MAX_SUMMARY_INPUT_CHARS`.
pub open spec fn summary_body(ms: Seq<MessageView>, count: nat) -> Seq<char>
    decreases ms.len(),
{
    if ms.len() == 0 {
        seq![]
    } else {
        let line = summary_line(ms[0]);
        if count + utf8_len(line) > MAX_SUMMARY_INPUT_CHARS {
            seq![]
        } else {
            line + summary_body(ms.drop_first(), count + utf8_len(line))
        }
    }
}

/// The messages behind a list of references.
pub open spec fn derefs(ms: Seq<&LlmChatMessage>) -> Seq<LlmChatMessage> {
    ms.map_values(|m: &LlmChatMessage| *m)
}

/// The user content of the summarization request.
pub open spec fn summary_request_text(ms: Seq<MessageView>, prev: Option<Seq<char>>) -> Seq<char> {
    summary_head(prev) + summary_body(ms, utf8_len(summary_head(prev)))
}

/// Builds the two messages of a summarization request: the instructions and
/// the conversation excerpt.
pub fn build_summary_input(messages: &[&LlmChatMessage], previous_summary: Option<&str>) -> (r: Vec<
    LlmChatMessage,
>)
    ensures
        r@.len() == 2,
        plain_message(r@[0], "system"@, SUMMARY_SYSTEM@),
        plain_message(
            r@[1],
            "user"@,
            summary_request_text(mviews(derefs(messages@)), opt_chars(previous_summary)),
        ),
{
    let ghost ms = mviews(derefs(messages@));
    let mut content = String::new();
    match previous_summary {
        Some(prev) => {
            push_str(&mut content, "[Previous summary]:\n");
            push_str(&mut content, prev);
            push_str(&mut content, "\n\n[New messages]:\n");
        },
        None => {},
    }
    let ghost head = content@;
    proof {
        assert(head =~= summary_head(opt_chars(previous_summary)));
        assert(ms.skip(0) =~= ms);
    }
    let mut count = utf8_length(content.as_str());
    let mut i: usize = 0;
    let mut stop = false;
    while i < messages.len() && !stop
        invariant
            i <= messages.len(),
            ms == mviews(derefs(messages@)),
            content@ + (if stop {
                seq![]
            } else {
                summary_body(ms.skip(i as int), count as nat)
            }) == head + summary_body(ms, utf8_len(head)),
        decreases messages.len() - i + if stop {
            0int
        } else {
            1int
        },
    {
        let m = messages[i];
        let truncated = truncate_for_summary(m.content.as_str(), MAX_CONTENT_PER_MESSAGE);
        let mut line = to_owned_str("[");
        push_str(&mut line, m.role.as_str());
        push_str(&mut line, "]: ");
        push_str(&mut line, truncated.as_str());
        push_str(&mut line, "\n");
        let n = utf8_length(line.as_str());
        proof {
            assert(ms.skip(i as int)[0] == mview(*m));
            assert(ms.skip(i as int).drop_first() =~= ms.skip(i + 1));
            assert(line@ == summary_line(mview(*m)));
        }
        if count > MAX_SUMMARY_INPUT_CHARS || n > MAX_SUMMARY_INPUT_CHARS - count {
            stop = true;
        } else {
            push_str(&mut content, line.as_str());
            count = count + n;
            i += 1;
        }
    }
    proof {
        if !stop {
            assert(ms.skip(i as int) =~= seq![]);
        }
    }
    let sys = LlmChatMessage::system(SUMMARY_SYSTEM);
    let user = LlmChatMessage::new("user", content.as_str());
    vec![sys, user]
}

/// The messages from index `k` on that survive summarization up to
/// `up_to`: system messages and those at or after `up_to`.
pub open spec fn kept_from(vs: Seq<MessageView>, k: int, up_to: int) -> Seq<MessageView>
    decreases vs.len() - k,
{
    if k >= vs.len() || k < 0 {
        seq![]
    } else if k >= up_to || vs[k].0 == "system"@ {
        seq![vs[k]] + kept_from(vs, k + 1, up_to)
    } else {
        kept_from(vs, k + 1, up_to)
    }
}

/// Index of the first non-system message at or after `k`, or the length.
pub open spec fn first_non_system(vs: Seq<MessageView>, k: int) -> int
    decreases vs.len() - k,
{
    if k >= vs.len() || k < 0 {
        vs.len() as int
    } else if vs[k].0 != "system"@ {
        k
    } else {
        first_non_system(vs, k + 1)
    }
}

/// The content of the summary message.
pub open spec fn summary_message_text(text: Seq<char>) -> Seq<char> {
    EARLIER_SUMMARY_PREFIX@ + "\n"@ + trim(text)
}

/// The conversation with the non-system messages before `up_to` replaced by
/// one summary system message, placed after the leading system messages.
pub open spec fn with_summary(vs: Seq<MessageView>, up_to: int, text: Seq<char>) -> Seq<
    MessageView,
> {
    let kept = kept_from(vs, 0, up_to);
    kept.insert(first_non_system(kept, 0), system_view(summary_message_text(text)))
}

/// The non-system messages among the first `n`.
pub open spec fn removable(ms: Seq<MessageView>, n: int) -> Seq<MessageView>
    decreases n,
{
    if n <= 0 || ms.len() == 0 {
        seq![]
    } else if n > ms.len() {
        removable(ms, ms.len() as int)
    } else if ms[n - 1].0 != "system"@ {
        removable(ms, n - 1).push(ms[n - 1])
    } else {
        removable(ms, n - 1)
    }
}

impl ContextGuard {
    /// Removes the non-system messages before `up_to` and inserts the summary
    /// after the leading system messages.
    fn insert_summary(messages: &mut Vec<LlmChatMessage>, up_to: usize, text: &str)
        requires
            up_to <= old(messages).len(),
        ensures
            mviews(final(messages)@) == with_summary(mviews(old(messages)@), up_to as int, text@),
    {
        let ghost vs = mviews(messages@);
        let mut k = up_to;
        proof {
            lemma_kept_from_tail(vs, up_to as int, up_to as int);
            assert(vs.take(up_to as int) + vs.skip(up_to as int) =~= vs);
        }
        while k > 0
            invariant
                k <= up_to <= vs.len(),
                mviews(messages@) == vs.take(k as int) + kept_from(vs, k as int, up_to as int),
            decreases k,
        {
            k -= 1;
            let ghost before = mviews(messages@);
            proof {
                assert(before.len() == messages@.len());
                assert(before[k as int] == vs[k as int]);
            }
            if !role_is(&messages[k], "system") {
                let ghost ms = messages@;
                messages.remove(k);
                proof {
                    assert(vs[k as int].0 != "system"@);
                    assert(kept_from(vs, k as int, up_to as int) == kept_from(vs, k + 1, up_to as int));
                    assert(mviews(messages@) =~= before.remove(k as int));
                    assert(mviews(messages@) =~= vs.take(k as int) + kept_from(vs, k as int, up_to as int));
                }
            } else {
                proof {
                    assert(mviews(messages@) =~= vs.take(k as int) + kept_from(vs, k as int, up_to as int));
                }
            }
        }
        let ghost kept = mviews(messages@);
        proof {
            assert(kept =~= kept_from(vs, 0, up_to as int));
        }
        let mut p: usize = 0;
        while p < messages.len() && role_is(&messages[p], "system")
            invariant
                p <= messages.len(),
                kept == mviews(messages@),
                first_non_system(kept, 0) == first_non_system(kept, p as int),
            decreases messages.len() - p,
        {
            p += 1;
        }
        let mut content = to_owned_str(EARLIER_SUMMARY_PREFIX);
        push_str(&mut content, "\n");
        let t = trim_str(text);
        push_str(&mut content, t.as_str());
        let m = LlmChatMessage::system(content.as_str());
        messages.insert(p, m);
        proof {
            assert(mviews(messages@) =~= kept.insert(p as int, system_view(summary_message_text(text@))));
        }
    }

    /// Applies a summary computed earlier: when the conversation still has
    /// at least `summarized_up_to` messages, its non-system messages before
    /// that index are replaced by the summary, and `true` is returned;
    /// otherwise nothing changes and `false` is returned.
    pub fn apply_cached_summary(
        &self,
        messages: &mut Vec<LlmChatMessage>,
        cached: &PrecomputedSummary,
    ) -> (applied: bool)
        ensures
            applied == (old(messages)@.len() >= cached.summarized_up_to),
            applied ==> mviews(final(messages)@) == with_summary(
                mviews(old(messages)@),
                cached.summarized_up_to as int,
                cached.summary_text@,
            ),
            !applied ==> final(messages)@ == old(messages)@,
    {
        if messages.len() < cached.summarized_up_to {
            return false;
        }
        Self::insert_summary(messages, cached.summarized_up_to, cached.summary_text.as_str());
        true
    }
}

/// A summarization request for `ms` (the removable messages) with the
/// previous summary `prev`.
pub open spec fn is_summary_input(input: Seq<LlmChatMessage>, ms: Seq<MessageView>, prev: Option<
    Seq<char>,
>) -> bool {
    &&& input.len() == 2
    &&& plain_message(input[0], "system"@, SUMMARY_SYSTEM@)
    &&& plain_message(input[1], "user"@, summary_request_text(ms, prev))
}

/// A summary reply is used only when it is not blank.
pub open spec fn usable_summary(reply: Option<String>) -> bool {
    match reply {
        Some(t) => trim(t@).len() > 0,
        None => false,
    }
}

/// What a conversation becomes after the summarization step with `reply`
/// for the messages before `up_to`.
pub open spec fn after_summary(vs: Seq<MessageView>, reply: Option<String>, up_to: int) -> Seq<
    MessageView,
> {
    if usable_summary(reply) && up_to <= vs.len() {
        with_summary(vs, up_to, reply->0@)
    } else {
        vs
    }
}

/// The next step of a trim that may summarize: done, or summarize the
/// messages before `up_to` with the request `input`, then call
/// `ContextGuard::finish_trim` with the reply.
pub enum TrimStep {
    Done,
    Summarize { input: Vec<LlmChatMessage>, up_to: usize },
}

/// Whether `text` is a usable summary (not blank).
fn usable_summary_text(text: &str) -> (r: bool)
    ensures
        r == (trim(text@).len() > 0),
{
    let t = trim_str(text);
    char_count(t.as_str()) > 0
}

/// A precomputed summary from a model reply for the messages before
/// `up_to`, when the reply is usable.
pub fn precomputed_summary(reply: Option<String>, up_to: usize) -> (r: Option<PrecomputedSummary>)
    ensures
        usable_summary(reply) <==> r is Some,
        r matches Some(p) ==> p.summary_text@ == reply->0@ && p.summarized_up_to == up_to,
{
    match reply {
        Some(t) => {
            if usable_summary_text(t.as_str()) {
                Some(PrecomputedSummary { summary_text: t, summarized_up_to: up_to })
            } else {
                None
            }
        },
        None => None,
    }
}

impl ContextGuard {
    /// The summarization request for the messages before the protected tail,
    /// with the tail boundary; `None` when fewer than
    /// `MIN_MESSAGES_FOR_SUMMARY` of them are non-system messages.
    pub fn summary_request(messages: &Vec<LlmChatMessage>) -> (r: Option<(Vec<LlmChatMessage>, usize)>)
        ensures
            ({
                let tb = tail_boundary(mviews(messages@));
                let ms = removable(mviews(messages@), tb);
                match r {
                    None => ms.len() < MIN_MESSAGES_FOR_SUMMARY,
                    Some((input, up_to)) => {
                        &&& ms.len() >= MIN_MESSAGES_FOR_SUMMARY
                        &&& up_to == tb
                        &&& is_summary_input(input@, ms, previous_summary(mviews(messages@)))
                    },
                }
            }),
    {
        let tb = Self::find_tail_boundary(messages);
        let mut refs: Vec<&LlmChatMessage> = Vec::new();
        let mut i: usize = 0;
        while i < tb
            invariant
                i <= tb <= messages.len(),
                mviews(derefs(refs@)) == removable(mviews(messages@), i as int),
            decreases tb - i,
        {
            let ghost before = refs@;
            if !role_is(&messages[i], "system") {
                refs.push(&messages[i]);
                proof {
                    assert(mviews(derefs(refs@)) =~= mviews(derefs(before)).push(mview(messages@[i as int])));
                }
            }
            i += 1;
        }
        if refs.len() < MIN_MESSAGES_FOR_SUMMARY {
            return None;
        }
        let prev = find_previous_summary(messages);
        let prev_str: Option<&str> = match &prev {
            Some(p) => Some(p.as_str()),
            None => None,
        };
        let input = build_summary_input(refs.as_slice(), prev_str);
        Some((input, tb))
    }

    /// Starts a trim that may summarize: within budget nothing changes;
    /// otherwise phase 1 runs, and when still over budget either a
    /// summarization request is returned (`has_provider`, enough messages)
    /// or phase 2 runs.
    pub fn begin_trim(&self, messages: &mut Vec<LlmChatMessage>, has_provider: bool) -> (r: TrimStep)
        ensures
            ({
                let vs = mviews(old(messages)@);
                let b = self.budget_of();
                let p = phase1(vs, b);
                let ms = removable(p, tail_boundary(p));
                if total_tokens(vs) <= b {
                    r is Done && final(messages)@ == old(messages)@
                } else if total_tokens(p) <= b {
                    r is Done && mviews(final(messages)@) == p
                } else if has_provider && ms.len() >= MIN_MESSAGES_FOR_SUMMARY {
                    &&& mviews(final(messages)@) == p
                    &&& r matches TrimStep::Summarize { input, up_to }
                    &&& up_to == tail_boundary(p)
                    &&& is_summary_input(input@, ms, previous_summary(p))
                } else {
                    r is Done && mviews(final(messages)@) == phase2(p, b)
                }
            }),
    {
        let budget = self.budget();
        if !Self::over_budget(messages, budget) {
            return TrimStep::Done;
        }
        self.phase1_remove_tool_results(messages, budget);
        if !Self::over_budget(messages, budget) {
            return TrimStep::Done;
        }
        if has_provider {
            match Self::summary_request(messages) {
                Some((input, up_to)) => {
                    return TrimStep::Summarize { input, up_to };
                },
                None => {},
            }
        }
        self.phase2_degrade(messages, budget);
        TrimStep::Done
    }

    /// Finishes a trim after the summarization request of `begin_trim`:
    /// a usable `reply` replaces the non-system messages before `up_to`,
    /// then phase 2 runs when still over budget.
    pub fn finish_trim(&self, messages: &mut Vec<LlmChatMessage>, reply: Option<String>, up_to: usize)
        ensures
            ({
                let q = after_summary(mviews(old(messages)@), reply, up_to as int);
                mviews(final(messages)@) == if total_tokens(q) <= self.budget_of() {
                    q
                } else {
                    phase2(q, self.budget_of())
                }
            }),
    {
        match reply {
            Some(t) => {
                if usable_summary_text(t.as_str()) && up_to <= messages.len() {
                    Self::insert_summary(messages, up_to, t.as_str());
                }
            },
            None => {},
        }
        let budget = self.budget();
        if Self::over_budget(messages, budget) {
            self.phase2_degrade(messages, budget);
        }
    }
}

/// Each kept suffix from `k >= up_to` is the plain suffix.
proof fn lemma_kept_from_tail(vs: Seq<MessageView>, k: int, up_to: int)
    requires
        up_to <= k <= vs.len(),
        0 <= k,
    ensures
        kept_from(vs, k, up_to) == vs.skip(k),
    decreases vs.len() - k,
{
    if k < vs.len() {
        lemma_kept_from_tail(vs, k + 1, up_to);
        assert(vs.skip(k) =~= seq![vs[k]] + vs.skip(k + 1));
    } else {
        assert(vs.skip(k) =~= seq![]);
    }
}

/// The system messages of `vs`, in order.
pub open spec fn system_msgs(vs: Seq<MessageView>) -> Seq<MessageView>
    decreases vs.len(),
{
    if vs.len() == 0 {
        seq![]
    } else if vs[0].0 == "system"@ {
        seq![vs[0]] + system_msgs(vs.drop_first())
    } else {
        system_msgs(vs.drop_first())
    }
}

proof fn lemma_kept_from_split(vs: Seq<MessageView>, k: int, up_to: int)
    requires
        0 <= k <= up_to <= vs.len(),
    ensures
        kept_from(vs, k, up_to) == system_msgs(vs.subrange(k, up_to)) + vs.skip(up_to),
    decreases up_to - k,
{
    if k == up_to {
        lemma_kept_from_tail(vs, k, up_to);
        assert(vs.subrange(k, up_to) =~= seq![]);
        assert(system_msgs(vs.subrange(k, up_to)) + vs.skip(up_to) =~= vs.skip(up_to));
    } else {
        lemma_kept_from_split(vs, k + 1, up_to);
        let sub = vs.subrange(k, up_to);
        assert(sub.drop_first() =~= vs.subrange(k + 1, up_to));
        assert(sub[0] == vs[k]);
        if vs[k].0 == "system"@ {
            assert(seq![vs[k]] + (system_msgs(vs.subrange(k + 1, up_to)) + vs.skip(up_to)) =~= (seq![
                vs[k],
            ] + system_msgs(vs.subrange(k + 1, up_to))) + vs.skip(up_to));
        }
    }
}

proof fn lemma_first_non_system_bound(vs: Seq<MessageView>, k: int)
    requires
        0 <= k <= vs.len(),
    ensures
        k <= first_non_system(vs, k) <= vs.len(),
    decreases vs.len() - k,
{
    if k < vs.len() && vs[k].0 == "system"@ {
        lemma_first_non_system_bound(vs, k + 1);
    }
}

/// Summarizing up to `up_to` keeps the system messages before `up_to`, in
/// order, followed by every message from `up_to` on, and inserts exactly one
/// system message (the summary) among them.
pub proof fn lemma_summary_keeps(vs: Seq<MessageView>, up_to: int, text: Seq<char>)
    requires
        0 <= up_to <= vs.len(),
    ensures
        ({
            let kept = system_msgs(vs.take(up_to)) + vs.skip(up_to);
            let pos = first_non_system(kept, 0);
            &&& 0 <= pos <= kept.len()
            &&& with_summary(vs, up_to, text).len() == kept.len() + 1
            &&& with_summary(vs, up_to, text)[pos] == system_view(summary_message_text(text))
            &&& with_summary(vs, up_to, text).remove(pos) == kept
        }),
{
    lemma_kept_from_split(vs, 0, up_to);
    assert(vs.subrange(0, up_to) =~= vs.take(up_to));
    let kept = kept_from(vs, 0, up_to);
    lemma_first_non_system_bound(kept, 0);
    let pos = first_non_system(kept, 0);
    assert(kept.insert(pos, system_view(summary_message_text(text))).remove(pos) =~= kept);
}

proof fn lemma_tail_roles(a: Seq<MessageView>, b: Seq<MessageView>, i: int, rounds: nat, boundary: int)
    requires
        a.len() == b.len(),
        forall|j: int| 0 <= j < a.len() ==> (#[trigger] a[j]).0 == b[j].0,
        0 <= i <= a.len(),
    ensures
        tail_scan(a, i, rounds, boundary) == tail_scan(b, i, rounds, boundary),
    decreases i,
{
    if i > 0 && rounds < MIN_KEEP_ROUNDS {
        assert(a[i - 1].0 == b[i - 1].0);
        lemma_tail_roles(a, b, i - 1, rounds + 1, i - 1);
        lemma_tail_roles(a, b, i - 1, rounds, boundary);
    }
}

/// Replacing the content of one non-system message before `end` is a trim.
proof fn lemma_update_trims(vs: Seq<MessageView>, v2: Seq<MessageView>, i: int, end: int)
    requires
        0 <= i < end <= vs.len(),
        v2 == vs || (vs[i].0 == "tool"@ && exists|c: Seq<char>| v2 == vs.update(i, #[trigger] with_content(vs[i], c))),
    ensures
        trims_only(vs, v2, end),
{
    reveal_strlit("tool");
    reveal_strlit("system");
    if v2 != vs {
        let c = choose|c: Seq<char>| v2 == vs.update(i, #[trigger] with_content(vs[i], c));
        assert forall|j: int| 0 <= j < vs.len() implies {
            &&& (#[trigger] v2[j]).0 == vs[j].0
            &&& v2[j].2 == vs[j].2
            &&& v2[j].3 == vs[j].3
            &&& v2[j].4 == vs[j].4
            &&& (j >= end || vs[j].0 == "system"@) ==> v2[j] == vs[j]
        } by {
            if j == i {
                assert("tool"@.len() == 4);
                assert("system"@.len() == 6);
                assert(vs[i].0 != "system"@);
            }
        }
    }
}

proof fn lemma_pass1(vs: Seq<MessageView>, i: int, end: int, budget: nat)
    requires
        0 <= i,
        end <= vs.len(),
    ensures
        trims_only(vs, pass1(vs, i, end, budget), end),
    decreases end - i,
{
    if !(i >= end || total_tokens(vs) <= budget) {
        let v2 = if trimmable(vs[i]) {
            vs.update(i, with_content(vs[i], trimmed_text(vs[i].1)))
        } else {
            vs
        };
        lemma_update_trims(vs, v2, i, end);
        lemma_pass1(v2, i + 1, end, budget);
        lemma_trims_only_trans(vs, v2, pass1(v2, i + 1, end, budget), end);
    }
}

proof fn lemma_pass2(vs: Seq<MessageView>, i: int, end: int, budget: nat)
    requires
        0 <= i,
        end <= vs.len(),
    ensures
        trims_only(vs, pass2(vs, i, end, budget), end),
    decreases end - i,
{
    if !(i >= end || total_tokens(vs) <= budget) {
        let v2 = if vs[i].0 == "tool"@ && starts_with(vs[i].1, SUMMARIZED_MARKER@) {
            match stored_ref_marker(vs[i].1) {
                Some(m) => vs.update(i, with_content(vs[i], m)),
                None => vs,
            }
        } else {
            vs
        };
        lemma_update_trims(vs, v2, i, end);
        lemma_pass2(v2, i + 1, end, budget);
        lemma_trims_only_trans(vs, v2, pass2(v2, i + 1, end, budget), end);
    }
}

proof fn lemma_degrade(vs: Seq<MessageView>, i: int, end: int, budget: nat)
    requires
        0 <= i,
        end <= vs.len(),
    ensures
        trims_only(vs, degrade(vs, i, end, budget), end),
    decreases end - i,
{
    if i < end {
        if vs[i].0 == "system"@ {
            lemma_degrade(vs, i + 1, end, budget);
        } else {
            let v2 = if utf8_len(vs[i].1) > 20 {
                vs.update(i, with_content(vs[i], "[content trimmed]"@))
            } else {
                vs
            };
            assert(trims_only(vs, v2, end));
            if total_tokens(v2) > budget {
                lemma_degrade(v2, i + 1, end, budget);
                lemma_trims_only_trans(vs, v2, degrade(v2, i + 1, end, budget), end);
            }
        }
    }
}

/// The tail boundary depends only on the roles.
proof fn lemma_tail_same(a: Seq<MessageView>, b: Seq<MessageView>, end: int)
    requires
        trims_only(a, b, end),
    ensures
        tail_boundary(a) == tail_boundary(b),
{
    assert forall|j: int| 0 <= j < a.len() implies (#[trigger] a[j]).0 == b[j].0 by {
        assert(b[j].0 == a[j].0);
    }
    lemma_tail_roles(a, b, a.len() as int, 0, a.len() as int);
}

/// Trimming changes only contents of non-system messages before the tail
/// boundary, and leaves a conversation within budget unchanged.
pub proof fn lemma_trimmed_preserves(vs: Seq<MessageView>, budget: nat)
    ensures
        trims_only(vs, trimmed(vs, budget), tail_boundary(vs)),
        total_tokens(vs) <= budget ==> trimmed(vs, budget) == vs,
{
    let end = tail_boundary(vs);
    assert(trims_only(vs, vs, end));
    if total_tokens(vs) > budget {
        lemma_tail_scan_bound(vs, vs.len() as int, 0, vs.len() as int);
        let p = pass1(vs, 0, end, budget);
        lemma_pass1(vs, 0, end, budget);
        let q = if total_tokens(p) > budget {
            pass2(p, 0, end, budget)
        } else {
            p
        };
        if total_tokens(p) > budget {
            lemma_pass2(p, 0, end, budget);
            lemma_trims_only_trans(vs, p, q, end);
        }
        if total_tokens(q) > budget {
            lemma_tail_same(vs, q, end);
            lemma_degrade(q, 0, end, budget);
            lemma_trims_only_trans(vs, q, phase2(q, budget), end);
        }
    }
}

} // verus!
