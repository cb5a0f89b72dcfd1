//! Front-load compression of tool results: which results are summarized,
//! how a summarized result is marked, and rule-based extraction of search
//! hits.
use vstd::prelude::*;

use crate::message::{LlmChatMessage, has_role};
use crate::text::{
    chars_of, decimal, fit_prefix, fit_prefix_len, join, push_decimal, push_str, starts_with,
    str_eq, str_starts_with, strs, to_owned_str, utf8_len, utf8_length,
};

verus! {

pub const DEFAULT_SUMMARIZE_THRESHOLD: usize = 3000;

pub const MAX_GOAL_CHARS: usize = 200;

pub const SUMMARIZED_MARKER: &'static str = "[summarized from ";

pub const STORED_REF_MARKER: &'static str = "[tool result stored | ref:";

pub const RECALL_TOOL_NAME: &'static str = "tool.recall";

pub const RULE_BASED_TOP_K: usize = 5;

pub const RULE_BASED_SNIPPET_LEN: usize = 200;

/// The longest prefix of `s` that fits in `max` bytes.
pub open spec fn byte_prefix(s: Seq<char>, max: nat) -> Seq<char> {
    if utf8_len(s) <= max {
        s
    } else {
        s.take(fit_prefix_len(s, max) as int)
    }
}

/// Cuts `s` to at most `max` bytes at a character boundary.
pub fn truncate_at_boundary(s: &str, max: usize) -> (r: &str)
    ensures
        r@ == byte_prefix(s@, max as nat),
        utf8_len(r@) <= max || r@ == s@,
{
    if utf8_length(s) <= max {
        return s;
    }
    let v = chars_of(s);
    let k = fit_prefix(&v, max);
    s.substring_char(0, k)
}

/// The last user message, cut to `MAX_GOAL_CHARS` bytes.
pub open spec fn user_goal(msgs: Seq<LlmChatMessage>) -> Option<Seq<char>>
    decreases msgs.len(),
{
    if msgs.len() == 0 {
        None
    } else if has_role(msgs.last(), "user"@) {
        Some(byte_prefix(msgs.last().content@, MAX_GOAL_CHARS as nat))
    } else {
        user_goal(msgs.drop_last())
    }
}

/// The latest user message, truncated, as a hint of the task.
pub fn extract_user_goal(messages: &Vec<LlmChatMessage>) -> (r: Option<String>)
    ensures
        crate::text::opt_string(r) == user_goal(messages@),
{
    let mut i = messages.len();
    assert(messages@.take(i as int) =~= messages@);
    while i > 0
        invariant
            i <= messages.len(),
            user_goal(messages@) == user_goal(messages@.take(i as int)),
        decreases i,
    {
        proof {
            assert(messages@.take(i as int).last() == messages@[i - 1]);
            assert(messages@.take(i as int).drop_last() =~= messages@.take(i - 1));
            reveal_strlit("user");
        }
        if str_eq(messages[i - 1].role.as_str(), "user") {
            let t = truncate_at_boundary(messages[i - 1].content.as_str(), MAX_GOAL_CHARS);
            return Some(to_owned_str(t));
        }
        i -= 1;
    }
    None
}

/// How a long tool result is compressed.
#[derive(Debug, Clone, Copy, PartialEq, Eq, Structural)]
pub enum ProcessPlan {
    /// Kept as it is.
    PassThrough,
    /// Summarized by the model (web results).
    LlmSummary,
    /// Compressed by a rule for the tool's result shape.
    RuleBased,
}

/// Recalled results and results within the threshold pass through; long
/// web results go to the model; other long results to rule-based
/// extraction.
pub open spec fn process_plan_spec(tool_name: Seq<char>, byte_len: nat, threshold: nat) -> ProcessPlan {
    if tool_name == RECALL_TOOL_NAME@ || byte_len <= threshold {
        ProcessPlan::PassThrough
    } else if starts_with(tool_name, "web."@) {
        ProcessPlan::LlmSummary
    } else {
        ProcessPlan::RuleBased
    }
}

/// Decides how a tool result is processed.
pub fn process_plan(tool_name: &str, raw_content: &str, summarize_threshold: usize) -> (r:
    ProcessPlan)
    ensures
        r == process_plan_spec(tool_name@, utf8_len(raw_content@), summarize_threshold as nat),
{
    if str_eq(tool_name, RECALL_TOOL_NAME) || utf8_length(raw_content) <= summarize_threshold {
        ProcessPlan::PassThrough
    } else if str_starts_with(tool_name, "web.") {
        ProcessPlan::LlmSummary
    } else {
        ProcessPlan::RuleBased
    }
}

/// A compressed result: the marker with the original byte count and, when
/// the raw result was stored, its reference, then the summary text.
pub open spec fn summarized_text(original_len: nat, ref_id: Option<Seq<char>>, text: Seq<char>) -> Seq<char> {
    SUMMARIZED_MARKER@ + decimal(original_len) + " chars"@ + (match ref_id {
        Some(r) => " | ref:"@ + r,
        None => seq![],
    }) + "]\n"@ + text
}

/// Builds the content of a compressed result.
pub fn summarized_content(original_len: usize, ref_id: Option<&str>, text: &str) -> (r: String)
    ensures
        r@ == summarized_text(original_len as nat, crate::text::opt_chars(ref_id), text@),
{
    let mut s = to_owned_str(SUMMARIZED_MARKER);
    push_decimal(&mut s, original_len as u64);
    push_str(&mut s, " chars");
    match ref_id {
        Some(r) => {
            push_str(&mut s, " | ref:");
            push_str(&mut s, r);
        },
        None => {},
    }
    push_str(&mut s, "]\n");
    push_str(&mut s, text);
    s
}

/// The reference under which a raw result is stored: the first eight bytes
/// of the call id.
pub fn short_ref_id(call_id: &str) -> (r: String)
    ensures
        r@ == byte_prefix(call_id@, 8),
{
    to_owned_str(truncate_at_boundary(call_id, 8))
}

/// One hit of a keyword or semantic search result; `score_label` is the
/// score as shown after the path (` (0.92)` for a semantic hit with score
/// 0.92; none for keyword hits).
pub struct KeywordHit {
    pub rel_path: Option<String>,
    pub snippet: Option<String>,
    pub score_label: Option<String>,
}

/// `- <path><score>: <snippet>` for a hit, with `?` for a missing path and
/// the snippet cut to `RULE_BASED_SNIPPET_LEN` bytes.
pub open spec fn hit_line(h: KeywordHit) -> Seq<char> {
    "- "@ + (match h.rel_path {
        Some(p) => p@,
        None => "?"@,
    }) + (match h.score_label {
        Some(l) => l@,
        None => seq![],
    }) + ": "@ + byte_prefix(
        match h.snippet {
            Some(s) => s@,
            None => seq![],
        },
        RULE_BASED_SNIPPET_LEN as nat,
    )
}

/// The lines of the first `RULE_BASED_TOP_K` hits, and a note of how many
/// were omitted; `None` when there are no hits.
pub open spec fn keyword_hits_text(hits: Seq<KeywordHit>) -> Option<Seq<char>> {
    if hits.len() == 0 {
        None
    } else {
        let n = if hits.len() < RULE_BASED_TOP_K {
            hits.len()
        } else {
            RULE_BASED_TOP_K as nat
        };
        let ls = Seq::new(n, |i: int| hit_line(hits[i]));
        Some(
            join(ls, "\n"@) + if hits.len() > RULE_BASED_TOP_K {
                "\n("@ + decimal((hits.len() - RULE_BASED_TOP_K) as nat) + " more results omitted)"@
            } else {
                seq![]
            },
        )
    }
}

/// Rule-based compression of a keyword or semantic search result.
pub fn format_keyword_hits(hits: &Vec<KeywordHit>) -> (r: Option<String>)
    ensures
        crate::text::opt_string(r) == keyword_hits_text(hits@),
{
    if hits.len() == 0 {
        return None;
    }
    let n = if hits.len() < RULE_BASED_TOP_K {
        hits.len()
    } else {
        RULE_BASED_TOP_K
    };
    let ghost ls = Seq::new(n as nat, |i: int| hit_line(hits@[i]));
    let mut out = String::new();
    let mut k: usize = 0;
    while k < n
        invariant
            n <= hits.len(),
            ls == Seq::new(n as nat, |i: int| hit_line(hits@[i])),
            k <= n,
            out@ == join(ls.take(k as int), "\n"@),
        decreases n - k,
    {
        proof {
            assert(ls.take(k + 1).drop_last() =~= ls.take(k as int));
            assert(ls.take(k + 1).last() == hit_line(hits@[k as int]));
            if k == 0 {
                assert(out@ =~= seq![]);
            }
            reveal_strlit("?");
        }
        let ghost before = out@;
        if k > 0 {
            push_str(&mut out, "\n");
        }
        let h = &hits[k];
        push_str(&mut out, "- ");
        match &h.rel_path {
            Some(p) => push_str(&mut out, p.as_str()),
            None => push_str(&mut out, "?"),
        }
        match &h.score_label {
            Some(l) => push_str(&mut out, l.as_str()),
            None => {},
        }
        push_str(&mut out, ": ");
        match &h.snippet {
            Some(s) => push_str(&mut out, truncate_at_boundary(s.as_str(), RULE_BASED_SNIPPET_LEN)),
            None => {
                proof {
                    assert(byte_prefix(seq![], RULE_BASED_SNIPPET_LEN as nat) =~= seq![]);
                }
            },
        }
        proof {
            if k == 0 {
                assert(ls.take(1) =~= seq![hit_line(hits@[0])]);
                assert(out@ =~= hit_line(hits@[0]));
            } else {
                assert(out@ =~= before + "\n"@ + hit_line(hits@[k as int]));
            }
        }
        k += 1;
    }
    proof {
        assert(ls.take(n as int) =~= ls);
    }
    if hits.len() > RULE_BASED_TOP_K {
        push_str(&mut out, "\n(");
        push_decimal(&mut out, (hits.len() - RULE_BASED_TOP_K) as u64);
        push_str(&mut out, " more results omitted)");
    } else {
        proof {
            assert(out@ + seq![] =~= out@);
        }
    }
    Some(out)
}

/// A tool result ready for the conversation: its content, whether it was
/// summarized, and the length of the raw result.
pub struct ProcessedResult {
    pub content: String,
    pub was_summarized: bool,
    pub original_len: usize,
}

/// The result shapes that rule-based extraction knows.
#[derive(Debug, Clone, Copy, PartialEq, Eq, Structural)]
pub enum RuleBasedShape {
    /// `vault.search_keyword`: `{"snippets": [..]}`.
    KeywordSnippets,
    /// `vault.semantic_search`: `{"hits": [..]}`.
    SemanticHits,
    /// No rule: the raw result is kept.
    Unknown,
}

/// Which rule compresses the results of a tool.
pub fn rule_based_shape(tool_name: &str) -> (r: RuleBasedShape)
    ensures
        r == (if tool_name@ == "vault.search_keyword"@ {
            RuleBasedShape::KeywordSnippets
        } else if tool_name@ == "vault.semantic_search"@ {
            RuleBasedShape::SemanticHits
        } else {
            RuleBasedShape::Unknown
        }),
{
    if str_eq(tool_name, "vault.search_keyword") {
        RuleBasedShape::KeywordSnippets
    } else if str_eq(tool_name, "vault.semantic_search") {
        RuleBasedShape::SemanticHits
    } else {
        RuleBasedShape::Unknown
    }
}

/// The processed result once the summary (if any) is known: the summary
/// behind the marker, with the reference of the stored raw result when it
/// was stored; without a summary the raw result as it is.
pub fn finish_result(raw_content: &str, summary: Option<&str>, ref_id: Option<&str>) -> (r:
    ProcessedResult)
    ensures
        r.original_len == utf8_len(raw_content@),
        summary is None ==> r.content@ == raw_content@ && !r.was_summarized,
        summary matches Some(t) ==> r.content@ == summarized_text(
            utf8_len(raw_content@),
            crate::text::opt_chars(ref_id),
            t@,
        ) && r.was_summarized,
{
    let original_len = utf8_length(raw_content);
    match summary {
        Some(t) => ProcessedResult {
            content: summarized_content(original_len, ref_id, t),
            was_summarized: true,
            original_len,
        },
        None => ProcessedResult {
            content: to_owned_str(raw_content),
            was_summarized: false,
            original_len,
        },
    }
}

/// Raw results sent to the model for a summary are cut to this many bytes.
pub const MAX_RAW_INPUT_FOR_SUMMARY: usize = 4000;

/// The system prompt of a tool-result summary.
pub const SUMMARIZE_SYSTEM: &'static str = "You are a tool result summarizer. Extract only the information relevant to the user's task.\nOutput a concise summary (under 800 chars) containing:\n1. Key facts and findings relevant to the task\n2. Important data points, names, URLs worth keeping\n3. Whether more reading/searching is needed\nOutput ONLY the summary, nothing else.";

/// The request of a summary: the task context when there is one (cut to
/// `MAX_GOAL_CHARS` bytes), the tool, the byte length of the raw result and
/// the raw result cut to `MAX_RAW_INPUT_FOR_SUMMARY` bytes.
pub open spec fn summarize_prompt(tool_name: Seq<char>, raw: Seq<char>, goal: Option<Seq<char>>) -> Seq<char> {
    (match goal {
        Some(g) => "User's task context: "@ + byte_prefix(g, MAX_GOAL_CHARS as nat) + "\n\n"@,
        None => seq![],
    }) + "Tool: "@ + tool_name + "\nRaw result ("@ + decimal(utf8_len(raw)) + " chars):\n"@ + byte_prefix(
        raw,
        MAX_RAW_INPUT_FOR_SUMMARY as nat,
    )
}

/// The messages that ask the model to summarize a long web result.
pub fn summarize_messages(tool_name: &str, raw_content: &str, user_goal: Option<&str>) -> (r: Vec<
    LlmChatMessage,
>)
    ensures
        r@.len() == 2,
        crate::message::plain_message(r@[0], "system"@, SUMMARIZE_SYSTEM@),
        crate::message::plain_message(
            r@[1],
            "user"@,
            summarize_prompt(tool_name@, raw_content@, crate::text::opt_chars(user_goal)),
        ),
{
    let mut p = String::new();
    match user_goal {
        Some(g) => {
            push_str(&mut p, "User's task context: ");
            push_str(&mut p, truncate_at_boundary(g, MAX_GOAL_CHARS));
            push_str(&mut p, "\n\n");
        },
        None => {},
    }
    push_str(&mut p, "Tool: ");
    push_str(&mut p, tool_name);
    push_str(&mut p, "\nRaw result (");
    push_decimal(&mut p, utf8_length(raw_content) as u64);
    push_str(&mut p, " chars):\n");
    push_str(&mut p, truncate_at_boundary(raw_content, MAX_RAW_INPUT_FOR_SUMMARY));
    let ghost goal = crate::text::opt_chars(user_goal);
    proof {
        assert(p@ =~= summarize_prompt(tool_name@, raw_content@, goal));
    }
    let mut r: Vec<LlmChatMessage> = Vec::new();
    r.push(LlmChatMessage::system(SUMMARIZE_SYSTEM));
    r.push(LlmChatMessage::new("user", p.as_str()));
    r
}

/// The model's summary, unless it is blank.
pub fn usable_summary(reply: Option<&str>) -> (r: Option<String>)
    ensures
        match reply {
            Some(t) => if crate::text::trim(t@).len() > 0 {
                r matches Some(s) && s@ == t@
            } else {
                r is None
            },
            None => r is None,
        },
{
    match reply {
        Some(t) => {
            let trimmed = crate::text::trim_str(t);
            if trimmed.unicode_len() > 0 {
                Some(to_owned_str(t))
            } else {
                None
            }
        },
        None => None,
    }
}

} // verus!
