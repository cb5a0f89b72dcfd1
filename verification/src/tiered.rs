//! Tiered planning privacy: a note shown to the planning model is reduced
//! to its path, title, headings and a short summary.
use vstd::prelude::*;

use crate::agent::{cut_with, truncate_str};
use crate::message::{
    call_view, copy_message, mview, mviews, role_is, system_view, LlmChatMessage, LlmToolCall, MessageView,
};
use crate::provider::{build_tool_result_message, ProviderKind};
use crate::text::{
    chars_of, contains, find, find_from, join, line_ranges, lines, matches_at, pieces, push_char,
    push_decimal, push_str, ranges_in, starts_with, str_contains, string_of_range, to_owned_str,
    trim, trim_range, trim_start, trim_start_range, utf8_len, utf8_length, decimal,
};

verus! {

/// The path between the first pair of backticks, when it contains a dot.
pub open spec fn backtick_path(content: Seq<char>) -> Option<Seq<char>> {
    let i = find(content, "`"@);
    if i < 0 {
        None
    } else {
        let rest = content.skip(i + 1);
        let j = find(rest, "`"@);
        if j < 0 {
            None
        } else if contains(rest.take(j), "."@) {
            Some(rest.take(j))
        } else {
            None
        }
    }
}

/// The file path quoted in backticks in a note system message.
pub fn extract_path_from_system_msg(content: &str) -> (r: Option<String>)
    ensures
        crate::text::opt_string(r) == backtick_path(content@),
{
    let v = chars_of(content);
    let tick = chars_of("`");
    let dot = chars_of(".");
    proof {
        reveal_strlit("`");
        reveal_strlit(".");
        assert(v@.skip(0) =~= v@);
    }
    match find_from(&v, 0, &tick) {
        None => None,
        Some(i) => {
            proof {
                assert(v@.skip(i + 1) =~= v@.skip(i + 1));
            }
            match find_from(&v, i + 1, &tick) {
                None => None,
                Some(j) => {
                    let p = string_of_range(&v, i + 1, j);
                    proof {
                        assert(v@.skip(i + 1).take(j - (i + 1)) =~= v@.subrange(
                            i + 1,
                            j as int,
                        ));
                    }
                    if str_contains(p.as_str(), ".") {
                        Some(p)
                    } else {
                        None
                    }
                },
            }
        },
    }
}

/// A line whose text after leading whitespace starts with three backticks.
pub open spec fn is_fence(line: Seq<char>) -> bool {
    starts_with(trim_start(line), "```"@)
}

/// The lines of the first fenced block, each followed by a newline.
pub open spec fn block_body(ls: Seq<Seq<char>>, in_block: bool) -> Seq<char>
    decreases ls.len(),
{
    if ls.len() == 0 {
        seq![]
    } else if is_fence(ls[0]) && !in_block {
        block_body(ls.drop_first(), true)
    } else if is_fence(ls[0]) && in_block {
        seq![]
    } else if in_block {
        ls[0] + "\n"@ + block_body(ls.drop_first(), true)
    } else {
        block_body(ls.drop_first(), false)
    }
}

/// The first fenced code block of `content`, if it is not empty.
pub open spec fn code_block(content: Seq<char>) -> Option<Seq<char>> {
    let b = block_body(lines(content), false);
    if b.len() == 0 {
        None
    } else {
        Some(b)
    }
}

fn line_is_fence(v: &Vec<char>, a: usize, b: usize) -> (r: bool)
    requires
        a <= b <= v.len(),
    ensures
        r == is_fence(v@.subrange(a as int, b as int)),
{
    let s = trim_start_range(v, a, b);
    let w = chars_of("```");
    proof {
        reveal_strlit("```");
    }
    let sub = crate::text::copy_range(v, s, b);
    assert(sub@.skip(0) =~= sub@);
    matches_at(&sub, 0, &w)
}

/// The body of the first fenced code block.
pub fn extract_code_block_content(content: &str) -> (r: Option<String>)
    ensures
        crate::text::opt_string(r) == code_block(content@),
{
    let v = chars_of(content);
    let ls = line_ranges(&v);
    let ghost lv = lines(v@);
    let mut body = String::new();
    let mut in_block = false;
    let mut k: usize = 0;
    let mut done = false;
    proof {
        assert(lv.skip(0) =~= lv);
        assert(body@ + block_body(lv, false) =~= block_body(lv, false));
    }
    while k < ls.len() && !done
        invariant
            ranges_in(v@, ls@),
            pieces(v@, ls@) == lv,
            lv.len() == ls@.len(),
            k <= ls.len(),
            block_body(lv, false) == body@ + (if done {
                seq![]
            } else {
                block_body(lv.skip(k as int), in_block)
            }),
        decreases ls.len() - k,
    {
        let (a, b) = ls[k];
        let fence = line_is_fence(&v, a, b);
        proof {
            assert(lv[k as int] == v@.subrange(a as int, b as int));
            assert(lv.skip(k as int).drop_first() =~= lv.skip(k + 1));
            assert(lv.skip(k as int)[0] == lv[k as int]);
        }
        if fence && !in_block {
            in_block = true;
        } else if fence && in_block {
            done = true;
        } else if in_block {
            let line = string_of_range(&v, a, b);
            let ghost before = body@;
            push_str(&mut body, line.as_str());
            push_str(&mut body, "\n");
            proof {
                assert(before + (lv[k as int] + "\n"@ + block_body(lv.skip(k + 1), true)) =~= body@
                    + block_body(lv.skip(k + 1), true));
            }
        }
        k += 1;
    }
    proof {
        if !done {
            assert(lv.skip(k as int).len() == 0);
        }
        assert(body@ + seq![] =~= body@);
        assert(block_body(lv, false) == body@);
    }
    if body.unicode_len() == 0 {
        None
    } else {
        Some(body)
    }
}


/// What a note reduces to for the planning model.
pub struct NoteMetadataBlock {
    pub path: String,
    pub title: String,
    pub headings: Vec<String>,
    pub summary: String,
}

/// The state of the metadata scan: title, headings, first paragraph, and
/// whether the scan is inside the first paragraph.
pub type MetaState = (Seq<char>, Seq<Seq<char>>, Seq<char>, bool);

/// One line of the metadata scan. The first `# ` line gives the title and
/// opens the first paragraph; `## ` lines are headings; a `### ` line is
/// nested under the last heading unless that one is already nested; the
/// first paragraph collects trimmed lines while it is under 200 bytes and
/// ends at a blank line or a heading.
pub open spec fn meta_step(st: MetaState, line: Seq<char>) -> MetaState {
    let (title, hs, para, inp) = st;
    if starts_with(line, "# "@) && title.len() == 0 {
        (trim(line.skip(2)), hs, para, true)
    } else if starts_with(line, "## "@) {
        (title, hs.push(trim(line.skip(3))), para, false)
    } else if starts_with(line, "### "@) {
        let h3 = trim(line.skip(4));
        let h = if hs.len() > 0 && !contains(hs.last(), " > "@) {
            hs.last() + " > "@ + h3
        } else {
            h3
        };
        (title, hs.push(h), para, false)
    } else if inp {
        if trim(line).len() == 0 {
            (title, hs, para, false)
        } else if utf8_len(para) < 200 {
            (
                title,
                hs,
                if para.len() > 0 {
                    para + " "@ + trim(line)
                } else {
                    trim(line)
                },
                true,
            )
        } else {
            st
        }
    } else {
        st
    }
}

/// The metadata scan over a list of lines.
pub open spec fn meta_run(ls: Seq<Seq<char>>, st: MetaState) -> MetaState
    decreases ls.len(),
{
    if ls.len() == 0 {
        st
    } else {
        meta_run(ls.drop_first(), meta_step(st, ls[0]))
    }
}

/// The metadata of a note system message: its path, and the title,
/// headings and summary (first paragraph cut to 200 bytes) of its code
/// block.
pub open spec fn note_metadata(content: Seq<char>) -> Option<
    (Seq<char>, Seq<char>, Seq<Seq<char>>, Seq<char>),
> {
    match backtick_path(content) {
        None => None,
        Some(path) => match code_block(content) {
            None => None,
            Some(body) => {
                let st = meta_run(lines(body), (seq![], seq![], seq![], false));
                Some((path, st.0, st.1, cut_with(st.2, 200, "..."@)))
            },
        },
    }
}

/// The views of a metadata block.
pub open spec fn meta_view(m: NoteMetadataBlock) -> (Seq<char>, Seq<char>, Seq<Seq<char>>, Seq<char>) {
    (m.path@, m.title@, crate::text::strs(m.headings@), m.summary@)
}

proof fn lemma_meta_run_step(ls: Seq<Seq<char>>, k: int, st: MetaState)
    requires
        0 <= k < ls.len(),
    ensures
        meta_run(ls.skip(k), st) == meta_run(ls.skip(k + 1), meta_step(st, ls[k])),
{
    assert(ls.skip(k).drop_first() =~= ls.skip(k + 1));
    assert(ls.skip(k)[0] == ls[k]);
}

/// Extracts path, title, headings and summary of a note system message.
pub fn extract_note_metadata(content: &str) -> (r: Option<NoteMetadataBlock>)
    ensures
        match r {
            Some(m) => note_metadata(content@) == Some(meta_view(m)),
            None => note_metadata(content@) is None,
        },
{
    let path = match extract_path_from_system_msg(content) {
        Some(p) => p,
        None => return None,
    };
    let body = match extract_code_block_content(content) {
        Some(b) => b,
        None => return None,
    };
    let v = chars_of(body.as_str());
    let ls = line_ranges(&v);
    let ghost lv = lines(v@);
    let ghost init: MetaState = (seq![], seq![], seq![], false);
    let h1 = chars_of("# ");
    let h2 = chars_of("## ");
    let h3p = chars_of("### ");
    let mut title = String::new();
    let mut headings: Vec<String> = Vec::new();
    let mut para = String::new();
    let mut inp = false;
    let mut k: usize = 0;
    proof {
        assert(lv.skip(0) =~= lv);
        assert(crate::text::strs(headings@) =~= seq![]);
    }
    while k < ls.len()
        invariant
            ranges_in(v@, ls@),
            pieces(v@, ls@) == lv,
            lv.len() == ls@.len(),
            k <= ls.len(),
            h1@ == "# "@,
            h2@ == "## "@,
            h3p@ == "### "@,
            meta_run(lv, init) == meta_run(
                lv.skip(k as int),
                (title@, crate::text::strs(headings@), para@, inp),
            ),
        decreases ls.len() - k,
    {
        let (a, b) = ls[k];
        let ghost line = v@.subrange(a as int, b as int);
        let ghost st: MetaState = (title@, crate::text::strs(headings@), para@, inp);
        proof {
            assert(lv[k as int] == line);
            lemma_meta_run_step(lv, k as int, st);
            reveal_strlit(" > ");
            reveal_strlit(" ");
            reveal_strlit("# ");
            reveal_strlit("## ");
            reveal_strlit("### ");
        }
        if range_is_prefixed(&v, a, b, &h1) && title.unicode_len() == 0 {
            let (ta, tb) = trim_range(&v, a + 2, b);
            proof {
                assert(line.skip(2) =~= v@.subrange(a + 2, b as int));
            }
            title = string_of_range(&v, ta, tb);
            inp = true;
        } else if range_is_prefixed(&v, a, b, &h2) {
            let (ta, tb) = trim_range(&v, a + 3, b);
            proof {
                assert(line.skip(3) =~= v@.subrange(a + 3, b as int));
            }
            let hd = string_of_range(&v, ta, tb);
            let ghost before = headings@;
            headings.push(hd);
            proof {
                assert(crate::text::strs(headings@) =~= crate::text::strs(before).push(
                    trim(line.skip(3)),
                ));
            }
            inp = false;
        } else if range_is_prefixed(&v, a, b, &h3p) {
            let (ta, tb) = trim_range(&v, a + 4, b);
            proof {
                assert(line.skip(4) =~= v@.subrange(a + 4, b as int));
            }
            let h3 = string_of_range(&v, ta, tb);
            let n = headings.len();
            let nested = n > 0 && !str_contains(headings[n - 1].as_str(), " > ");
            let hd = if nested {
                let mut s = to_owned_str(headings[n - 1].as_str());
                push_str(&mut s, " > ");
                push_str(&mut s, h3.as_str());
                s
            } else {
                h3
            };
            let ghost before = headings@;
            proof {
                if n > 0 {
                    assert(crate::text::strs(before).last() == before[n - 1]@);
                }
            }
            headings.push(hd);
            proof {
                assert(crate::text::strs(headings@) =~= crate::text::strs(before).push(hd@));
            }
            inp = false;
        } else if inp {
            let (ta, tb) = trim_range(&v, a, b);
            if tb == ta {
                inp = false;
            } else if utf8_length(para.as_str()) < 200 {
                let t = string_of_range(&v, ta, tb);
                if para.unicode_len() > 0 {
                    push_str(&mut para, " ");
                }
                push_str(&mut para, t.as_str());
            }
        }
        k += 1;
    }
    proof {
        assert(lv.skip(k as int).len() == 0);
    }
    let summary = truncate_str(para.as_str(), 200);
    Some(NoteMetadataBlock { path, title, headings, summary })
}

fn range_is_prefixed(v: &Vec<char>, a: usize, b: usize, p: &Vec<char>) -> (r: bool)
    requires
        a <= b <= v.len(),
    ensures
        r == starts_with(v@.subrange(a as int, b as int), p@),
        r ==> a + p@.len() <= b,
{
    crate::text::range_starts_with(v, a, b, p)
}


/// The text that stands for a note: path, then title, headings and
/// summary when they are not empty.
pub open spec fn metadata_text(m: (Seq<char>, Seq<char>, Seq<Seq<char>>, Seq<char>)) -> Seq<char> {
    let (path, title, hs, summary) = m;
    "[Note: "@ + path + "]\n"@ + (if title.len() > 0 {
        "Title: "@ + title + "\n"@
    } else {
        seq![]
    }) + (if hs.len() > 0 {
        "Headings: "@ + join(hs, ", "@) + "\n"@
    } else {
        seq![]
    }) + (if summary.len() > 0 {
        "Summary: "@ + summary + "\n"@
    } else {
        seq![]
    })
}

/// Formats a metadata block.
pub fn format_metadata_block(meta: &NoteMetadataBlock) -> (r: String)
    ensures
        r@ == metadata_text(meta_view(*meta)),
{
    let mut out = to_owned_str("[Note: ");
    push_str(&mut out, meta.path.as_str());
    push_str(&mut out, "]\n");
    let ghost a = out@;
    if meta.title.unicode_len() > 0 {
        push_str(&mut out, "Title: ");
        push_str(&mut out, meta.title.as_str());
        push_str(&mut out, "\n");
    }
    let ghost b = out@;
    if meta.headings.len() > 0 {
        push_str(&mut out, "Headings: ");
        let j = crate::text::join_strings(&meta.headings, ", ");
        push_str(&mut out, j.as_str());
        push_str(&mut out, "\n");
    }
    let ghost c = out@;
    if meta.summary.unicode_len() > 0 {
        push_str(&mut out, "Summary: ");
        push_str(&mut out, meta.summary.as_str());
        push_str(&mut out, "\n");
    }
    proof {
        assert(out@ =~= metadata_text(meta_view(*meta)));
    }
    out
}

pub const PRIVACY_PLACEHOLDER: &'static str = "[note content omitted for privacy]\n";

/// The lines outside fenced blocks, each followed by a newline, with
/// `repl` in place of the first fenced block.
pub open spec fn strip_blocks(ls: Seq<Seq<char>>, in_code: bool, replaced: bool, repl: Seq<char>) -> Seq<char>
    decreases ls.len(),
{
    if ls.len() == 0 {
        seq![]
    } else if is_fence(ls[0]) && !in_code {
        (if !replaced {
            repl
        } else {
            seq![]
        }) + strip_blocks(ls.drop_first(), true, true, repl)
    } else if is_fence(ls[0]) && in_code {
        strip_blocks(ls.drop_first(), false, replaced, repl)
    } else if !in_code {
        ls[0] + "\n"@ + strip_blocks(ls.drop_first(), in_code, replaced, repl)
    } else {
        strip_blocks(ls.drop_first(), in_code, replaced, repl)
    }
}

/// A note system message with its code block replaced by the note's
/// metadata (or a placeholder when there is none); messages without a code
/// fence stay as they are.
pub open spec fn body_replaced(content: Seq<char>) -> Seq<char> {
    if !contains(content, "```markdown"@) && !contains(content, "```\n"@) {
        content
    } else {
        let repl = match note_metadata(content) {
            Some(m) => metadata_text(m),
            None => PRIVACY_PLACEHOLDER@,
        };
        strip_blocks(lines(content), false, false, repl)
    }
}

/// Replaces the note body in a system message by its metadata.
pub fn replace_note_body_with_metadata(content: &str) -> (r: String)
    ensures
        r@ == body_replaced(content@),
{
    if !str_contains(content, "```markdown") && !str_contains(content, "```\n") {
        return to_owned_str(content);
    }
    let repl = match extract_note_metadata(content) {
        Some(m) => format_metadata_block(&m),
        None => to_owned_str(PRIVACY_PLACEHOLDER),
    };
    let v = chars_of(content);
    let ls = line_ranges(&v);
    let ghost lv = lines(v@);
    let mut out = String::new();
    let mut in_code = false;
    let mut replaced = false;
    let mut k: usize = 0;
    proof {
        assert(lv.skip(0) =~= lv);
        assert(out@ + strip_blocks(lv, false, false, repl@) =~= strip_blocks(lv, false, false, repl@));
    }
    while k < ls.len()
        invariant
            ranges_in(v@, ls@),
            pieces(v@, ls@) == lv,
            lv.len() == ls@.len(),
            k <= ls.len(),
            strip_blocks(lv, false, false, repl@) == out@ + strip_blocks(
                lv.skip(k as int),
                in_code,
                replaced,
                repl@,
            ),
        decreases ls.len() - k,
    {
        let (a, b) = ls[k];
        let fence = line_is_fence(&v, a, b);
        let ghost rest = lv.skip(k + 1);
        proof {
            assert(lv[k as int] == v@.subrange(a as int, b as int));
            assert(lv.skip(k as int).drop_first() =~= rest);
            assert(lv.skip(k as int)[0] == lv[k as int]);
        }
        let ghost before = out@;
        if fence && !in_code {
            if !replaced {
                push_str(&mut out, repl.as_str());
            }
            proof {
                assert(before + ((if !replaced {
                    repl@
                } else {
                    seq![]
                }) + strip_blocks(rest, true, true, repl@)) =~= out@ + strip_blocks(
                    rest,
                    true,
                    true,
                    repl@,
                ));
            }
            in_code = true;
            replaced = true;
        } else if fence && in_code {
            in_code = false;
        } else if !in_code {
            let line = string_of_range(&v, a, b);
            push_str(&mut out, line.as_str());
            push_str(&mut out, "\n");
            proof {
                assert(before + (lv[k as int] + "\n"@ + strip_blocks(rest, in_code, replaced, repl@))
                    =~= out@ + strip_blocks(rest, in_code, replaced, repl@));
            }
        }
        k += 1;
    }
    proof {
        assert(lv.skip(k as int).len() == 0);
        assert(out@ + seq![] =~= out@);
    }
    out
}

/// The one-line summary of a tool result given to the generation model.
pub open spec fn tool_result_metadata_text(name: Seq<char>, success: bool, len: nat) -> Seq<char> {
    "Tool '"@ + name + "': status="@ + (if success {
        "ok"@
    } else {
        "error"@
    }) + ", result_length="@ + decimal(len) + " chars"@
}

/// `Tool '<name>': status=ok|error, result_length=<n> chars`.
pub fn build_tool_result_metadata(tc_name: &str, success: bool, content_len: usize) -> (r: String)
    ensures
        r@ == tool_result_metadata_text(tc_name@, success, content_len as nat),
{
    let mut s = to_owned_str("Tool '");
    push_str(&mut s, tc_name);
    push_str(&mut s, "': status=");
    if success {
        push_str(&mut s, "ok");
    } else {
        push_str(&mut s, "error");
    }
    push_str(&mut s, ", result_length=");
    push_decimal(&mut s, content_len as u64);
    push_str(&mut s, " chars");
    s
}

pub const TIERED_CLOUD_SYSTEM: &'static str = "You are a planning assistant. Analyze the user's request and call the appropriate tools. You have access to the user's vault metadata (file names and titles only, no content). Call tools to gather information. Do NOT generate a final answer — only make tool calls.";

/// What the planning model sees of a conversation: system messages with
/// their note bodies replaced by metadata (dropped when nothing but blanks
/// is left), user and assistant messages as they are, nothing else.
pub open spec fn planning_views(vs: Seq<MessageView>) -> Seq<MessageView>
    decreases vs.len(),
{
    if vs.len() == 0 {
        seq![]
    } else {
        let rest = planning_views(vs.drop_last());
        let v = vs.last();
        if v.0 == "system"@ {
            let stripped = body_replaced(v.1);
            if trim(stripped).len() > 0 {
                rest.push(system_view(stripped))
            } else {
                rest
            }
        } else if v.0 == "user"@ || v.0 == "assistant"@ {
            rest.push(v)
        } else {
            rest
        }
    }
}

/// The messages for the cloud planning step: the planning system prompt,
/// then the conversation without note bodies.
pub fn build_tiered_planning_messages(messages: &Vec<LlmChatMessage>) -> (r: Vec<LlmChatMessage>)
    ensures
        mviews(r@) == seq![system_view(TIERED_CLOUD_SYSTEM@)] + planning_views(mviews(messages@)),
{
    proof {
        reveal_strlit("system");
        reveal_strlit("user");
        reveal_strlit("assistant");
    }
    let mut out: Vec<LlmChatMessage> = Vec::new();
    out.push(LlmChatMessage::system(TIERED_CLOUD_SYSTEM));
    let ghost vs = mviews(messages@);
    let mut i: usize = 0;
    while i < messages.len()
        invariant
            i <= messages.len(),
            vs == mviews(messages@),
            mviews(out@) == seq![system_view(TIERED_CLOUD_SYSTEM@)] + planning_views(vs.take(i as int)),
        decreases messages.len() - i,
    {
        let ghost before = mviews(out@);
        proof {
            assert(vs.take(i + 1).drop_last() =~= vs.take(i as int));
            assert(vs.take(i + 1).last() == mview(messages@[i as int]));
        }
        let m = &messages[i];
        if role_is(m, "system") {
            let stripped = replace_note_body_with_metadata(m.content.as_str());
            let t = crate::text::trim_str(stripped.as_str());
            if t.unicode_len() > 0 {
                out.push(LlmChatMessage::system(stripped.as_str()));
                proof {
                    assert(mviews(out@) =~= before.push(system_view(stripped@)));
                }
            }
        } else if role_is(m, "user") || role_is(m, "assistant") {
            let c = copy_message(m);
            out.push(c);
            proof {
                assert(mviews(out@) =~= before.push(mview(*m)));
            }
        }
        i += 1;
    }
    proof {
        assert(vs.take(vs.len() as int) =~= vs);
    }
    out
}

/// `--- name ---\ncontent\n\n` for each tool result.
pub open spec fn results_block(rs: Seq<(String, String, bool)>) -> Seq<char>
    decreases rs.len(),
{
    if rs.len() == 0 {
        seq![]
    } else {
        results_block(rs.drop_last()) + "--- "@ + rs.last().0@ + " ---\n"@ + rs.last().1@ + "\n\n"@
    }
}

pub const TOOL_RESULTS_INTRO: &'static str = "The following tool results were gathered:\n\n";

pub const PLANNING_GUIDANCE_PREFIX: &'static str = "Planning guidance from analysis:\n";

pub const PLANNING_GUIDANCE_SUFFIX: &'static str = "\n\nUse the tool results above to compose your final answer to the user.";

/// The messages for the local generation step: the conversation, the tool
/// results (when there are any) and the planning guidance (when it is not
/// blank), each as a system message.
pub open spec fn generation_views(
    vs: Seq<MessageView>,
    rs: Seq<(String, String, bool)>,
    guidance: Seq<char>,
) -> Seq<MessageView> {
    vs + (if rs.len() > 0 {
        seq![system_view(TOOL_RESULTS_INTRO@ + results_block(rs))]
    } else {
        seq![]
    }) + if trim(guidance).len() > 0 {
        seq![system_view(PLANNING_GUIDANCE_PREFIX@ + guidance + PLANNING_GUIDANCE_SUFFIX@)]
    } else {
        seq![]
    }
}

/// Builds the messages for the local generation step from the conversation,
/// the `(tool name, result, success)` triples and the cloud's guidance.
pub fn build_generation_messages(
    original_messages: &Vec<LlmChatMessage>,
    tool_results: &Vec<(String, String, bool)>,
    cloud_guidance: &str,
) -> (r: Vec<LlmChatMessage>)
    ensures
        mviews(r@) == generation_views(mviews(original_messages@), tool_results@, cloud_guidance@),
{
    let mut out: Vec<LlmChatMessage> = Vec::new();
    let mut i: usize = 0;
    while i < original_messages.len()
        invariant
            i <= original_messages.len(),
            mviews(out@) == mviews(original_messages@).take(i as int),
        decreases original_messages.len() - i,
    {
        let ghost before = mviews(out@);
        let c = copy_message(&original_messages[i]);
        out.push(c);
        proof {
            assert(mviews(out@) =~= before.push(mview(original_messages@[i as int])));
            assert(mviews(out@) =~= mviews(original_messages@).take(i + 1));
        }
        i += 1;
    }
    let ghost base = mviews(out@);
    proof {
        assert(base =~= mviews(original_messages@));
    }
    if tool_results.len() > 0 {
        let mut ctx = to_owned_str(TOOL_RESULTS_INTRO);
        let mut k: usize = 0;
        while k < tool_results.len()
            invariant
                k <= tool_results.len(),
                ctx@ == TOOL_RESULTS_INTRO@ + results_block(tool_results@.take(k as int)),
            decreases tool_results.len() - k,
        {
            proof {
                assert(tool_results@.take(k + 1).drop_last() =~= tool_results@.take(k as int));
            }
            push_str(&mut ctx, "--- ");
            push_str(&mut ctx, tool_results[k].0.as_str());
            push_str(&mut ctx, " ---\n");
            push_str(&mut ctx, tool_results[k].1.as_str());
            push_str(&mut ctx, "\n\n");
            k += 1;
        }
        proof {
            assert(tool_results@.take(tool_results@.len() as int) =~= tool_results@);
        }
        out.push(LlmChatMessage::system(ctx.as_str()));
    }
    let ghost mid = mviews(out@);
    proof {
        if tool_results@.len() > 0 {
            assert(mid =~= base + seq![system_view(TOOL_RESULTS_INTRO@ + results_block(tool_results@))]);
        } else {
            assert(mid =~= base + seq![]);
        }
    }
    let g = crate::text::trim_str(cloud_guidance);
    if g.unicode_len() > 0 {
        let mut c = to_owned_str(PLANNING_GUIDANCE_PREFIX);
        push_str(&mut c, cloud_guidance);
        push_str(&mut c, PLANNING_GUIDANCE_SUFFIX);
        out.push(LlmChatMessage::system(c.as_str()));
        proof {
            assert(mviews(out@) =~= mid.push(system_view(c@)));
        }
    } else {
        proof {
            assert(mviews(out@) =~= mid + seq![]);
        }
    }
    out
}

pub const PLANNING_SYSTEM_PROMPT: &'static str = "Before making any tool calls, briefly explain your approach in 1-2 sentences.\nThen proceed to execute step by step.";

/// Planning mode: the planning instruction goes last, as a system message.
pub fn add_planning_prompt(messages: &mut Vec<LlmChatMessage>)
    ensures
        mviews(final(messages)@) == mviews(old(messages)@).push(system_view(PLANNING_SYSTEM_PROMPT@)),
{
    let ghost before = mviews(messages@);
    messages.push(LlmChatMessage::system(PLANNING_SYSTEM_PROMPT));
    proof {
        assert(mviews(messages@) =~= before.push(system_view(PLANNING_SYSTEM_PROMPT@)));
    }
}

/// What the planning model hears back of the local tool results: for each
/// of its calls that has a result, only the result's status and length (in
/// bytes), never its content.
pub open spec fn feedback_texts(names: Seq<String>, rs: Seq<(String, String, bool)>) -> Seq<Seq<char>>
    decreases names.len(),
{
    if names.len() == 0 {
        seq![]
    } else {
        let rest = feedback_texts(names.drop_last(), rs);
        let i = names.len() - 1;
        if i < rs.len() {
            rest.push(tool_result_metadata_text(names.last()@, rs[i].2, utf8_len(rs[i].1@)))
        } else {
            rest
        }
    }
}

/// Builds the result summaries sent back to the planning model.
pub fn feedback_metadata(call_names: &Vec<String>, results: &Vec<(String, String, bool)>) -> (r: Vec<
    String,
>)
    ensures
        crate::text::strs(r@) == feedback_texts(call_names@, results@),
{
    let mut out: Vec<String> = Vec::new();
    let mut i: usize = 0;
    while i < call_names.len()
        invariant
            i <= call_names.len(),
            crate::text::strs(out@) == feedback_texts(call_names@.take(i as int), results@),
        decreases call_names.len() - i,
    {
        proof {
            assert(call_names@.take(i + 1).drop_last() =~= call_names@.take(i as int));
            assert(call_names@.take(i + 1).last() == call_names@[i as int]);
        }
        if i < results.len() {
            let m = build_tool_result_metadata(
                call_names[i].as_str(),
                results[i].2,
                utf8_length(results[i].1.as_str()),
            );
            let ghost before = out@;
            out.push(m);
            proof {
                assert(crate::text::strs(out@) =~= crate::text::strs(before).push(m@));
            }
        }
        i += 1;
    }
    proof {
        assert(call_names@.take(call_names@.len() as int) =~= call_names@);
    }
    out
}

/// The planning model learns nothing of a tool result's content beyond its
/// length: two result lists that agree on status and length give the same
/// feedback.
pub proof fn lemma_feedback_hides_content(
    names: Seq<String>,
    rs1: Seq<(String, String, bool)>,
    rs2: Seq<(String, String, bool)>,
)
    requires
        rs1.len() == rs2.len(),
        forall|i: int|
            0 <= i < rs1.len() ==> (#[trigger] rs1[i]).2 == rs2[i].2 && utf8_len(rs1[i].1@) == utf8_len(
                rs2[i].1@,
            ),
    ensures
        feedback_texts(names, rs1) == feedback_texts(names, rs2),
    decreases names.len(),
{
    if names.len() > 0 {
        lemma_feedback_hides_content(names.drop_last(), rs1, rs2);
        let i = names.len() - 1;
        if i < rs1.len() {
            assert(rs1[i].2 == rs2[i].2);
        }
    }
}

/// What the planning model is shown of the conversation comes only from
/// its user and assistant messages, unchanged, and from its system
/// messages with their note bodies replaced: no tool message, and no system
/// text other than `body_replaced` of an original one.
pub proof fn lemma_planning_views_sources(vs: Seq<MessageView>)
    ensures
        forall|k: int|
            0 <= k < planning_views(vs).len() ==> {
                let p = #[trigger] planning_views(vs)[k];
                exists|j: int|
                    0 <= j < vs.len() && ((p == vs[j] && (vs[j].0 == "user"@ || vs[j].0
                        == "assistant"@)) || (vs[j].0 == "system"@ && p == system_view(
                        body_replaced(vs[j].1),
                    )))
            },
    decreases vs.len(),
{
    if vs.len() > 0 {
        let rest = vs.drop_last();
        lemma_planning_views_sources(rest);
        let pv = planning_views(vs);
        let pr = planning_views(rest);
        assert forall|k: int| 0 <= k < pv.len() implies {
            let p = #[trigger] pv[k];
            exists|j: int|
                0 <= j < vs.len() && ((p == vs[j] && (vs[j].0 == "user"@ || vs[j].0 == "assistant"@))
                    || (vs[j].0 == "system"@ && p == system_view(body_replaced(vs[j].1))))
        } by {
            if k < pr.len() {
                assert(pv[k] == pr[k]);
                let p = pr[k];
                let j = choose|j: int|
                    0 <= j < rest.len() && ((p == rest[j] && (rest[j].0 == "user"@ || rest[j].0
                        == "assistant"@)) || (rest[j].0 == "system"@ && p == system_view(
                        body_replaced(rest[j].1),
                    )));
                assert(rest[j] == vs[j]);
            } else {
                let j = vs.len() - 1;
                assert(vs[j] == vs.last());
            }
        }
    }
}

/// A system text that holds a code fence (a note message).
pub open spec fn has_fence(c: Seq<char>) -> bool {
    contains(c, "```markdown"@) || contains(c, "```\n"@)
}

/// Two system texts that differ at most inside their fenced blocks: equal
/// when neither holds a fence; otherwise both do, their note metadata is
/// the same, and their lines outside the blocks are the same.
pub open spec fn differ_in_note_body(c1: Seq<char>, c2: Seq<char>) -> bool {
    if !has_fence(c1) && !has_fence(c2) {
        c1 == c2
    } else {
        &&& has_fence(c1) && has_fence(c2)
        &&& note_metadata(c1) == note_metadata(c2)
        &&& same_outside_blocks(lines(c1), lines(c2), false)
    }
}

/// Two lists of lines with their fences at the same places that agree on
/// every line outside the fenced blocks (`in_code`: the lists start inside
/// a block); lines inside blocks may differ.
pub open spec fn same_outside_blocks(ls1: Seq<Seq<char>>, ls2: Seq<Seq<char>>, in_code: bool) -> bool
    decreases ls1.len(),
{
    if ls1.len() == 0 || ls2.len() == 0 {
        ls1.len() == ls2.len()
    } else {
        &&& is_fence(ls1[0]) == is_fence(ls2[0])
        &&& (!in_code && !is_fence(ls1[0]) ==> ls1[0] == ls2[0])
        &&& same_outside_blocks(
            ls1.drop_first(),
            ls2.drop_first(),
            if is_fence(ls1[0]) { !in_code } else { in_code },
        )
    }
}

/// Lines inside fenced blocks do not reach the stripped text.
proof fn lemma_strip_blocks_outside(
    ls1: Seq<Seq<char>>,
    ls2: Seq<Seq<char>>,
    in_code: bool,
    replaced: bool,
    repl: Seq<char>,
)
    requires
        same_outside_blocks(ls1, ls2, in_code),
    ensures
        strip_blocks(ls1, in_code, replaced, repl) == strip_blocks(ls2, in_code, replaced, repl),
    decreases ls1.len(),
{
    if ls1.len() > 0 && ls2.len() > 0 {
        if is_fence(ls1[0]) && !in_code {
            lemma_strip_blocks_outside(ls1.drop_first(), ls2.drop_first(), true, true, repl);
        } else if is_fence(ls1[0]) && in_code {
            lemma_strip_blocks_outside(ls1.drop_first(), ls2.drop_first(), false, replaced, repl);
        } else {
            lemma_strip_blocks_outside(ls1.drop_first(), ls2.drop_first(), in_code, replaced, repl);
        }
    }
}

/// Two conversations that the cloud model must not tell apart: message by
/// message the same role; user and assistant messages equal; system
/// messages differing at most in their note bodies; tool messages free.
pub open spec fn cloud_equivalent(vs1: Seq<MessageView>, vs2: Seq<MessageView>) -> bool {
    &&& vs1.len() == vs2.len()
    &&& forall|i: int|
        0 <= i < vs1.len() ==> {
            &&& (#[trigger] vs1[i]).0 == vs2[i].0
            &&& (vs1[i].0 == "user"@ || vs1[i].0 == "assistant"@) ==> vs1[i] == vs2[i]
            &&& vs1[i].0 == "system"@ ==> differ_in_note_body(vs1[i].1, vs2[i].1)
        }
}

/// Note bodies and tool-result contents never reach the cloud model: two
/// runs whose conversations differ only in note bodies (with the same
/// metadata) and in tool messages, and whose tool results agree on status
/// and length, give the planning request the same messages and the same
/// tool feedback.
pub proof fn lemma_cloud_sees_only_metadata(
    vs1: Seq<MessageView>,
    vs2: Seq<MessageView>,
    names: Seq<String>,
    rs1: Seq<(String, String, bool)>,
    rs2: Seq<(String, String, bool)>,
)
    requires
        cloud_equivalent(vs1, vs2),
        rs1.len() == rs2.len(),
        forall|i: int|
            0 <= i < rs1.len() ==> (#[trigger] rs1[i]).2 == rs2[i].2 && utf8_len(rs1[i].1@) == utf8_len(
                rs2[i].1@,
            ),
    ensures
        seq![system_view(TIERED_CLOUD_SYSTEM@)] + planning_views(vs1) == seq![
            system_view(TIERED_CLOUD_SYSTEM@),
        ] + planning_views(vs2),
        feedback_texts(names, rs1) == feedback_texts(names, rs2),
    decreases vs1.len(),
{
    lemma_feedback_hides_content(names, rs1, rs2);
    lemma_planning_views_equal(vs1, vs2);
}

proof fn lemma_planning_views_equal(vs1: Seq<MessageView>, vs2: Seq<MessageView>)
    requires
        cloud_equivalent(vs1, vs2),
    ensures
        planning_views(vs1) == planning_views(vs2),
    decreases vs1.len(),
{
    if vs1.len() > 0 {
        let n = vs1.len() - 1;
        assert(cloud_equivalent(vs1.drop_last(), vs2.drop_last())) by {
            assert forall|i: int| 0 <= i < vs1.drop_last().len() implies {
                &&& (#[trigger] vs1.drop_last()[i]).0 == vs2.drop_last()[i].0
                &&& (vs1.drop_last()[i].0 == "user"@ || vs1.drop_last()[i].0 == "assistant"@)
                    ==> vs1.drop_last()[i] == vs2.drop_last()[i]
                &&& vs1.drop_last()[i].0 == "system"@ ==> differ_in_note_body(
                    vs1.drop_last()[i].1,
                    vs2.drop_last()[i].1,
                )
            } by {
                assert(vs1.drop_last()[i] == vs1[i]);
                assert(vs2.drop_last()[i] == vs2[i]);
            }
        }
        lemma_planning_views_equal(vs1.drop_last(), vs2.drop_last());
        let a = vs1[n];
        let b = vs2[n];
        assert(a.0 == b.0);
        if a.0 == "system"@ {
            assert(differ_in_note_body(a.1, b.1));
            if has_fence(a.1) || has_fence(b.1) {
                let r1 = match note_metadata(a.1) {
                    Some(m) => metadata_text(m),
                    None => PRIVACY_PLACEHOLDER@,
                };
                lemma_strip_blocks_outside(lines(a.1), lines(b.1), false, false, r1);
                assert(body_replaced(a.1) == body_replaced(b.1));
            }
        }
    }
}


/// What a tool result message for provider `kind` holds.
pub open spec fn result_view(kind: ProviderKind, id: Seq<char>, name: Seq<char>, content: Seq<char>) -> MessageView {
    match kind {
        ProviderKind::OpenAiCompatible => ("tool"@, content, None, None, Some(id)),
        ProviderKind::Ollama => ("tool"@, content, None, Some(name), None),
    }
}

/// What the planning model is sent back for its calls: for each call that
/// has a result, a tool result message carrying only the result's status
/// and length.
pub open spec fn feedback_views(
    kind: ProviderKind,
    calls: Seq<(Seq<char>, Seq<char>, serde_json::Value)>,
    rs: Seq<(String, String, bool)>,
) -> Seq<MessageView>
    decreases calls.len(),
{
    if calls.len() == 0 {
        seq![]
    } else {
        let rest = feedback_views(kind, calls.drop_last(), rs);
        let i = calls.len() - 1;
        if i < rs.len() {
            rest.push(
                result_view(
                    kind,
                    calls.last().0,
                    calls.last().1,
                    tool_result_metadata_text(calls.last().1, rs[i].2, utf8_len(rs[i].1@)),
                ),
            )
        } else {
            rest
        }
    }
}

/// The feedback request: the planning request, the planning model's reply
/// with its calls, and the result summaries.
pub open spec fn feedback_request(
    plan: Seq<MessageView>,
    kind: ProviderKind,
    content: Seq<char>,
    calls: Seq<(Seq<char>, Seq<char>, serde_json::Value)>,
    rs: Seq<(String, String, bool)>,
) -> Seq<MessageView> {
    plan.push(("assistant"@, content, Some(calls), None, None)) + feedback_views(kind, calls, rs)
}

/// Builds the feedback request to the planning model from the planning
/// request, its reply (`cloud_content`, `cloud_calls`) and the local
/// results of those calls, in order.
pub fn build_tiered_feedback_messages(
    plan_messages: Vec<LlmChatMessage>,
    kind: ProviderKind,
    cloud_content: &str,
    cloud_calls: Vec<LlmToolCall>,
    results: &Vec<(String, String, bool)>,
) -> (r: Vec<LlmChatMessage>)
    ensures
        mviews(r@) == feedback_request(
            mviews(plan_messages@),
            kind,
            cloud_content@,
            cloud_calls@.map_values(|c: LlmToolCall| call_view(c)),
            results@,
        ),
{
    let ghost cv = cloud_calls@.map_values(|c: LlmToolCall| call_view(c));
    let mut fb: Vec<LlmChatMessage> = Vec::new();
    let mut i: usize = 0;
    while i < cloud_calls.len()
        invariant
            i <= cloud_calls.len(),
            cv == cloud_calls@.map_values(|c: LlmToolCall| call_view(c)),
            mviews(fb@) == feedback_views(kind, cv.take(i as int), results@),
        decreases cloud_calls.len() - i,
    {
        proof {
            assert(cv.take(i + 1).drop_last() =~= cv.take(i as int));
            assert(cv.take(i + 1).last() == call_view(cloud_calls@[i as int]));
        }
        if i < results.len() {
            let tc = &cloud_calls[i];
            let metadata = build_tool_result_metadata(
                tc.function.name.as_str(),
                results[i].2,
                utf8_length(results[i].1.as_str()),
            );
            let msg = build_tool_result_message(
                kind,
                tc.id.as_str(),
                tc.function.name.as_str(),
                metadata.as_str(),
            );
            let ghost before = mviews(fb@);
            fb.push(msg);
            proof {
                assert(mview(msg) == result_view(kind, tc.id@, tc.function.name@, metadata@));
                assert(mviews(fb@) =~= before.push(mview(msg)));
            }
        }
        i += 1;
    }
    proof {
        assert(cv.take(cv.len() as int) =~= cv);
    }
    let mut out = plan_messages;
    let ghost pv = mviews(out@);
    let assistant = LlmChatMessage {
        role: to_owned_str("assistant"),
        content: to_owned_str(cloud_content),
        tool_calls: Some(cloud_calls),
        tool_name: None,
        tool_call_id: None,
    };
    out.push(assistant);
    let ghost fv = mviews(fb@);
    out.append(&mut fb);
    proof {
        assert(mviews(out@) =~= pv.push(mview(assistant)) + fv);
    }
    out
}

/// Tool feedback built from two result lists that agree on status and
/// length is the same.
proof fn lemma_feedback_views_hide_content(
    kind: ProviderKind,
    calls: Seq<(Seq<char>, Seq<char>, serde_json::Value)>,
    rs1: Seq<(String, String, bool)>,
    rs2: Seq<(String, String, bool)>,
)
    requires
        rs1.len() == rs2.len(),
        forall|i: int|
            0 <= i < rs1.len() ==> (#[trigger] rs1[i]).2 == rs2[i].2 && utf8_len(rs1[i].1@) == utf8_len(
                rs2[i].1@,
            ),
    ensures
        feedback_views(kind, calls, rs1) == feedback_views(kind, calls, rs2),
    decreases calls.len(),
{
    if calls.len() > 0 {
        lemma_feedback_views_hide_content(kind, calls.drop_last(), rs1, rs2);
        let i = calls.len() - 1;
        if i < rs1.len() {
            assert(rs1[i].2 == rs2[i].2);
        }
    }
}

/// Over a whole tiered run, note bodies and tool-result contents never
/// reach the planning model: two runs whose conversations differ only in
/// note bodies (with the same metadata) and in tool messages, whose local
/// results agree on status and length, and in which the planning model
/// replies the same to the same request, send it the same planning request
/// and the same feedback request.
pub proof fn lemma_tiered_run_cloud_requests(
    vs1: Seq<MessageView>,
    vs2: Seq<MessageView>,
    kind: ProviderKind,
    content: Seq<char>,
    calls: Seq<(Seq<char>, Seq<char>, serde_json::Value)>,
    rs1: Seq<(String, String, bool)>,
    rs2: Seq<(String, String, bool)>,
)
    requires
        cloud_equivalent(vs1, vs2),
        rs1.len() == rs2.len(),
        forall|i: int|
            0 <= i < rs1.len() ==> (#[trigger] rs1[i]).2 == rs2[i].2 && utf8_len(rs1[i].1@) == utf8_len(
                rs2[i].1@,
            ),
    ensures
        seq![system_view(TIERED_CLOUD_SYSTEM@)] + planning_views(vs1) == seq![
            system_view(TIERED_CLOUD_SYSTEM@),
        ] + planning_views(vs2),
        feedback_request(
            seq![system_view(TIERED_CLOUD_SYSTEM@)] + planning_views(vs1),
            kind,
            content,
            calls,
            rs1,
        ) == feedback_request(
            seq![system_view(TIERED_CLOUD_SYSTEM@)] + planning_views(vs2),
            kind,
            content,
            calls,
            rs2,
        ),
{
    lemma_planning_views_equal(vs1, vs2);
    lemma_feedback_views_hide_content(kind, calls, rs1, rs2);
}

} // verus!
