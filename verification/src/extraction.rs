//! Preparing memory extraction: which messages go to the extractor, the
//! summary of the current memory, and the extraction and reflection prompts.
use vstd::prelude::*;

use crate::memory::{
    truncate_message, truncated_message, InteractionStyle, MemoryCorrection, ProposalAction,
};
use crate::message::{copy_message, mview, mviews, role_is, LlmChatMessage, MessageView};
use crate::text::{join, join_strings, opt_string, push_str, replace, replace_str, strs, to_owned_str};

verus! {

pub const MIN_USER_MESSAGES_FOR_SESSION: usize = 2;

pub const MAX_EXTRACTION_MESSAGES: usize = 30;

pub const REFLECTION_PROMPT: &'static str = "You are a memory curator for KnowForge, a personal knowledge management tool.\nYour task: compare the EXISTING memory with a NEW extraction from this session,\nand produce a list of proposals to keep the memory accurate, non-redundant, and up-to-date.\n\n## Existing memory\n{current_memory_json}\n\n## New extraction from this session\n{new_update_json}\n\n## What to check\n\n### 1. Conflicts\nDoes the new extraction contradict anything in existing memory?\n(e.g. user was \"learning Rust\" but now clearly \"expert\" level)\n→ Propose UPDATE or MERGE.\n\n### 2. Staleness\nAre there domains/corrections that haven't been referenced in a long time\nand the new session shows the user has moved on?\n→ Propose ARCHIVE (soft-delete, recoverable).\n\n### 3. Redundancy\nDoes the new extraction duplicate an existing entry?\n→ Propose SKIP (do not add) or MERGE (combine into one).\n\n### 4. Additions\nGenuinely new information not already captured?\n→ Propose ADD.\n\n## Rules\n- Every proposal must have a clear reason.\n- Prefer MERGE over ARCHIVE when two entries overlap.\n- A single reflection may archive at most 3 domains — be conservative.\n- If nothing needs changing, return an empty array [].\n- Return ONLY a JSON array of proposals, no markdown fences.\n\n## Proposal schema\n[{\n  \"action\": \"add\" | \"update\" | \"archive\" | \"merge\" | \"skip\",\n  \"category\": \"knowledge_domain\" | \"correction\" | \"interaction_style\",\n  \"target\": \"name of existing entry to modify (null for add)\",\n  \"content\": { ... fields for the new/updated entry ... },\n  \"reason\": \"why this change\"\n}]";

pub const SESSION_EXTRACTION_PROMPT: &'static str = "You are a user modeling agent for KnowForge, a personal knowledge management tool.\nYour task: analyze the conversation and update the user model to help future sessions\nunderstand this user better.\n\n## Current user model\n{current_memory_json}\n\n## What to extract\n\n### 1. Knowledge domains\nIdentify domains the user engaged with. For each domain:\n- \"domain\": the knowledge area (e.g. \"distributed systems\", \"machine learning\")\n- \"depth\": assess from conversation evidence:\n    - \"curious\": user asked basic questions, requested explanations\n    - \"learning\": user followed discussion but needed guidance\n    - \"practitioner\": user showed hands-on experience, discussed trade-offs\n    - \"expert\": user corrected the assistant, discussed cutting-edge topics\n- \"current_focus\": specific sub-topic if identifiable (nullable)\n- \"motivation\": ONLY if the user EXPLICITLY stated why they're interested (nullable)\n  Do NOT infer motivation.\n- \"confidence\": signal strength — explicit self-description = 0.8, demonstrated expertise = 0.7, asked questions = 0.5\n\n### 2. Interaction style (only if clearly demonstrated)\nOnly include fields with CLEAR evidence from this conversation.\nDo NOT extrapolate from a single instance.\nPossible keys: \"detail_preference\", \"explanation_style\", \"challenge_tolerance\", \"format\".\n\n### 3. Corrections\nUser explicitly told the assistant to do/not do something.\nInclude the user's stated reason.\n\n### 4. Session summary\nOne concise sentence: what the user wanted and what was done.\n\n## Rules\n- One conversation = one evidence point.\n- For interaction style: require >= 2 instances in this conversation.\n- For motivation: ONLY extract from explicit statements. NEVER infer.\n- When uncertain, OMIT the field entirely.\n- Do NOT duplicate information already in the current model unless updating it.\n- Return ONLY a JSON object, no markdown fences.\n\nReturn a JSON object with these optional fields:\nknowledge_domains, interaction_style_updates, new_corrections,\nremove_corrections, session_summary, session_domains_touched, follow_up.";

/// The number of leading messages kept: up to and including the first
/// non-system message (all of them when every message is a system one).
pub open spec fn head_end(vs: Seq<MessageView>, i: int) -> int
    decreases vs.len() - i,
{
    if i >= vs.len() || i < 0 {
        vs.len() as int
    } else if vs[i].0 != "system"@ {
        i + 1
    } else {
        head_end(vs, i + 1)
    }
}

/// The messages sent for extraction: all of them when there are at most
/// `MAX_EXTRACTION_MESSAGES`; otherwise the leading system messages and the
/// first other message (at most half the limit) and the most recent ones up
/// to the limit.
pub open spec fn extraction_window(vs: Seq<MessageView>) -> Seq<MessageView> {
    if vs.len() <= MAX_EXTRACTION_MESSAGES {
        vs
    } else {
        let h0 = head_end(vs, 0);
        let h = if h0 < MAX_EXTRACTION_MESSAGES / 2 {
            h0
        } else {
            (MAX_EXTRACTION_MESSAGES / 2) as int
        };
        let tail_start = vs.len() - (MAX_EXTRACTION_MESSAGES - h);
        if tail_start > h {
            vs.take(h) + vs.skip(tail_start)
        } else {
            vs.take(h)
        }
    }
}

proof fn lemma_head_end_bound(vs: Seq<MessageView>, i: int)
    requires
        0 <= i <= vs.len(),
    ensures
        i <= head_end(vs, i) <= vs.len(),
    decreases vs.len() - i,
{
    if i < vs.len() && vs[i].0 == "system"@ {
        lemma_head_end_bound(vs, i + 1);
    }
}

/// Appends copies of `ms[lo..hi]`.
fn push_copies(out: &mut Vec<LlmChatMessage>, ms: &Vec<LlmChatMessage>, lo: usize, hi: usize)
    requires
        lo <= hi <= ms.len(),
    ensures
        mviews(final(out)@) == mviews(old(out)@) + mviews(ms@).subrange(lo as int, hi as int),
{
    let ghost start = mviews(out@);
    let mut i = lo;
    while i < hi
        invariant
            lo <= i <= hi <= ms.len(),
            mviews(out@) == start + mviews(ms@).subrange(lo as int, i as int),
        decreases hi - i,
    {
        let ghost before = out@;
        let c = copy_message(&ms[i]);
        out.push(c);
        proof {
            assert(mviews(out@) =~= mviews(before).push(mview(ms@[i as int])));
            assert(mviews(ms@).subrange(lo as int, i + 1) =~= mviews(ms@).subrange(lo as int, i as int).push(
                mview(ms@[i as int]),
            ));
        }
        i += 1;
    }
}

/// Copies of the messages sent for extraction (see `extraction_window`).
pub fn trim_messages_for_extraction(messages: &Vec<LlmChatMessage>) -> (r: Vec<LlmChatMessage>)
    ensures
        mviews(r@) == extraction_window(mviews(messages@)),
{
    let ghost vs = mviews(messages@);
    let n = messages.len();
    let mut out: Vec<LlmChatMessage> = Vec::new();
    if n <= MAX_EXTRACTION_MESSAGES {
        push_copies(&mut out, messages, 0, n);
        proof {
            assert(vs.subrange(0, n as int) =~= vs);
            assert(mviews(out@) =~= vs);
        }
        return out;
    }
    let mut head: usize = 0;
    let mut i: usize = 0;
    let mut found = false;
    while i < n && !found
        invariant
            i <= n == messages.len(),
            vs == mviews(messages@),
            head_end(vs, 0) == if found {
                head as int
            } else {
                head_end(vs, i as int)
            },
            found ==> head <= n,
        decreases n - i + if found {
            0int
        } else {
            1int
        },
    {
        head = i + 1;
        if !role_is(&messages[i], "system") {
            found = true;
        } else {
            i += 1;
        }
    }
    if !found {
        head = n;
    }
    proof {
        lemma_head_end_bound(vs, 0);
    }
    let h = if head < MAX_EXTRACTION_MESSAGES / 2 {
        head
    } else {
        MAX_EXTRACTION_MESSAGES / 2
    };
    let tail_start = n - (MAX_EXTRACTION_MESSAGES - h);
    push_copies(&mut out, messages, 0, h);
    if tail_start > h {
        push_copies(&mut out, messages, tail_start, n);
        proof {
            assert(vs.subrange(0, h as int) =~= vs.take(h as int));
            assert(vs.subrange(tail_start as int, n as int) =~= vs.skip(tail_start as int));
            assert(mviews(out@) =~= extraction_window(vs));
        }
    } else {
        proof {
            assert(vs.subrange(0, h as int) =~= vs.take(h as int));
            assert(mviews(out@) =~= extraction_window(vs));
        }
    }
    out
}

/// Number of messages with role `user`.
pub open spec fn user_count(vs: Seq<MessageView>) -> nat
    decreases vs.len(),
{
    if vs.len() == 0 {
        0
    } else {
        user_count(vs.drop_last()) + if vs.last().0 == "user"@ {
            1nat
        } else {
            0nat
        }
    }
}

/// Counts the user messages.
fn count_user_messages(messages: &Vec<LlmChatMessage>) -> (r: usize)
    ensures
        r == user_count(mviews(messages@)),
{
    let ghost vs = mviews(messages@);
    let mut count: usize = 0;
    let mut i: usize = 0;
    while i < messages.len()
        invariant
            i <= messages.len(),
            vs == mviews(messages@),
            count == user_count(vs.take(i as int)),
            count <= i,
        decreases messages.len() - i,
    {
        proof {
            assert(vs.take(i + 1).drop_last() =~= vs.take(i as int));
        }
        if role_is(&messages[i], "user") {
            count += 1;
        }
        i += 1;
    }
    proof {
        assert(vs.take(vs.len() as int) =~= vs);
    }
    count
}

/// A reflection is due once the conversation has at least three user
/// messages and the memory holds something (domains, corrections or
/// sessions).
pub fn should_reflect(messages: &Vec<LlmChatMessage>, memory_has_entries: bool) -> (r: bool)
    ensures
        r == (user_count(mviews(messages@)) >= 3 && memory_has_entries),
{
    let n = count_user_messages(messages);
    if n < 3 {
        return false;
    }
    memory_has_entries
}

/// A knowledge domain as the extraction summary shows it.
pub struct DomainSummary {
    pub domain: String,
    pub depth: String,
    pub current_focus: Option<String>,
    pub archived: bool,
}

/// `- domain (depth), focus: f` for a domain that is not archived.
pub open spec fn domain_summary_line(d: DomainSummary) -> Seq<char> {
    "- "@ + d.domain@ + " ("@ + d.depth@ + ")"@ + match d.current_focus {
        Some(f) => ", focus: "@ + f@,
        None => seq![],
    }
}

/// The lines of the domains that are not archived.
pub open spec fn domain_summary_lines(ds: Seq<DomainSummary>) -> Seq<Seq<char>>
    decreases ds.len(),
{
    if ds.len() == 0 {
        seq![]
    } else {
        domain_summary_lines(ds.drop_last()) + if ds.last().archived {
            seq![]
        } else {
            seq![domain_summary_line(ds.last())]
        }
    }
}

/// `- rule` for each active correction.
pub open spec fn rule_summary_lines(cs: Seq<MemoryCorrection>) -> Seq<Seq<char>>
    decreases cs.len(),
{
    if cs.len() == 0 {
        seq![]
    } else {
        rule_summary_lines(cs.drop_last()) + if cs.last().superseded_by is None {
            seq!["- "@ + cs.last().rule@]
        } else {
            seq![]
        }
    }
}

/// `key=value` for each known style value.
pub open spec fn style_items(st: InteractionStyle) -> Seq<Seq<char>> {
    (match st.detail_preference {
        Some(v) => seq!["detail_preference="@ + v@],
        None => seq![],
    }) + (match st.explanation_style {
        Some(v) => seq!["explanation_style="@ + v@],
        None => seq![],
    }) + (match st.challenge_tolerance {
        Some(v) => seq!["challenge_tolerance="@ + v@],
        None => seq![],
    }) + match st.format {
        Some(v) => seq!["format="@ + v@],
        None => seq![],
    }
}

/// `[prefix + join(items, sep)]` unless `items` is empty.
pub open spec fn part_if(items: Seq<Seq<char>>, prefix: Seq<char>, sep: Seq<char>) -> Seq<Seq<char>> {
    if items.len() == 0 {
        seq![]
    } else {
        seq![prefix + join(items, sep)]
    }
}

/// The summary of the current memory given to the extractor.
pub open spec fn memory_summary(
    ds: Seq<DomainSummary>,
    cs: Seq<MemoryCorrection>,
    st: InteractionStyle,
) -> Seq<char> {
    let parts = part_if(domain_summary_lines(ds), "Known domains:\n"@, "\n"@) + part_if(
        rule_summary_lines(cs),
        "Existing rules:\n"@,
        "\n"@,
    ) + part_if(style_items(st), "Interaction style: "@, ", "@);
    if parts.len() == 0 {
        "No existing memory."@
    } else {
        join(parts, "\n\n"@)
    }
}

/// Appends `prefix + join(items, sep)` unless `items` is empty.
fn push_part(parts: &mut Vec<String>, items: &Vec<String>, prefix: &str, sep: &str)
    ensures
        strs(final(parts)@) == strs(old(parts)@) + part_if(strs(items@), prefix@, sep@),
{
    let ghost before = parts@;
    if items.len() > 0 {
        let mut s = to_owned_str(prefix);
        let joined = join_strings(items, sep);
        push_str(&mut s, joined.as_str());
        parts.push(s);
    }
    proof {
        assert(strs(parts@) =~= strs(before) + part_if(strs(items@), prefix@, sep@));
    }
}

/// Summarizes the current memory for the extractor.
pub fn build_memory_summary_for_extraction(
    domains: &Vec<DomainSummary>,
    corrections: &Vec<MemoryCorrection>,
    style: &InteractionStyle,
) -> (r: String)
    ensures
        r@ == memory_summary(domains@, corrections@, *style),
{
    let mut dl: Vec<String> = Vec::new();
    let mut i: usize = 0;
    while i < domains.len()
        invariant
            i <= domains.len(),
            strs(dl@) == domain_summary_lines(domains@.take(i as int)),
        decreases domains.len() - i,
    {
        let ghost before = dl@;
        let d = &domains[i];
        proof {
            assert(domains@.take(i + 1).drop_last() =~= domains@.take(i as int));
        }
        if !d.archived {
            let mut s = to_owned_str("- ");
            push_str(&mut s, d.domain.as_str());
            push_str(&mut s, " (");
            push_str(&mut s, d.depth.as_str());
            push_str(&mut s, ")");
            match &d.current_focus {
                Some(f) => {
                    push_str(&mut s, ", focus: ");
                    push_str(&mut s, f.as_str());
                },
                None => {},
            }
            let ghost line = s@;
            dl.push(s);
            proof {
                assert(line =~= domain_summary_line(domains@[i as int]));
                assert(strs(dl@) =~= strs(before).push(line));
            }
        }
        proof {
            assert(strs(dl@) =~= domain_summary_lines(domains@.take(i + 1)));
        }
        i += 1;
    }
    let mut rl: Vec<String> = Vec::new();
    let mut j: usize = 0;
    while j < corrections.len()
        invariant
            j <= corrections.len(),
            strs(rl@) == rule_summary_lines(corrections@.take(j as int)),
        decreases corrections.len() - j,
    {
        let ghost before = rl@;
        proof {
            assert(corrections@.take(j + 1).drop_last() =~= corrections@.take(j as int));
        }
        if corrections[j].is_active() {
            let mut s = to_owned_str("- ");
            push_str(&mut s, corrections[j].rule.as_str());
            let ghost line = s@;
            rl.push(s);
            proof {
                assert(strs(rl@) =~= strs(before).push(line));
            }
        }
        proof {
            assert(strs(rl@) =~= rule_summary_lines(corrections@.take(j + 1)));
        }
        j += 1;
    }
    let mut si: Vec<String> = Vec::new();
    let ghost s0 = si@;
    push_style_item(&mut si, &style.detail_preference, "detail_preference=");
    push_style_item(&mut si, &style.explanation_style, "explanation_style=");
    push_style_item(&mut si, &style.challenge_tolerance, "challenge_tolerance=");
    push_style_item(&mut si, &style.format, "format=");
    proof {
        assert(domains@.take(domains@.len() as int) =~= domains@);
        assert(corrections@.take(corrections@.len() as int) =~= corrections@);
        assert(strs(si@) =~= style_items(*style));
    }
    let mut parts: Vec<String> = Vec::new();
    proof {
        assert(strs(parts@) =~= Seq::<Seq<char>>::empty());
    }
    push_part(&mut parts, &dl, "Known domains:\n", "\n");
    push_part(&mut parts, &rl, "Existing rules:\n", "\n");
    push_part(&mut parts, &si, "Interaction style: ", ", ");
    if parts.len() == 0 {
        to_owned_str("No existing memory.")
    } else {
        join_strings(&parts, "\n\n")
    }
}

/// Appends `key + value` when the value is known.
fn push_style_item(items: &mut Vec<String>, v: &Option<String>, key: &str)
    ensures
        strs(final(items)@) == strs(old(items)@) + match *v {
            Some(x) => seq![key@ + x@],
            None => seq![],
        },
{
    let ghost before = items@;
    match v {
        Some(x) => {
            let mut s = to_owned_str(key);
            push_str(&mut s, x.as_str());
            items.push(s);
        },
        None => {},
    }
    proof {
        assert(strs(items@) =~= strs(before) + match *v {
            Some(x) => seq![key@ + x@],
            None => seq![],
        });
    }
}

/// `[role]: content` (content cut to 500 characters) for each user or
/// assistant message.
pub open spec fn conversation_lines(vs: Seq<MessageView>) -> Seq<Seq<char>>
    decreases vs.len(),
{
    if vs.len() == 0 {
        seq![]
    } else {
        conversation_lines(vs.drop_last()) + if vs.last().0 == "user"@ || vs.last().0
            == "assistant"@ {
            seq!["["@ + vs.last().0 + "]: "@ + truncated_message(vs.last().1, 500)]
        } else {
            seq![]
        }
    }
}

/// The session extraction prompt for a memory summary and a conversation.
pub open spec fn session_prompt(summary: Seq<char>, vs: Seq<MessageView>) -> Seq<char> {
    replace(SESSION_EXTRACTION_PROMPT@, "{current_memory_json}"@, summary)
        + "\n\n## Conversation\n"@ + join(conversation_lines(vs), "\n\n"@)
}

/// Builds the session extraction prompt.
pub fn build_session_extraction_prompt(memory_summary: &str, messages: &Vec<LlmChatMessage>) -> (r:
    String)
    ensures
        r@ == session_prompt(memory_summary@, mviews(messages@)),
{
    let ghost vs = mviews(messages@);
    let mut lines: Vec<String> = Vec::new();
    let mut i: usize = 0;
    while i < messages.len()
        invariant
            i <= messages.len(),
            vs == mviews(messages@),
            strs(lines@) == conversation_lines(vs.take(i as int)),
        decreases messages.len() - i,
    {
        let ghost before = lines@;
        proof {
            assert(vs.take(i + 1).drop_last() =~= vs.take(i as int));
        }
        let m = &messages[i];
        if role_is(m, "user") || role_is(m, "assistant") {
            let mut s = to_owned_str("[");
            push_str(&mut s, m.role.as_str());
            push_str(&mut s, "]: ");
            push_str(&mut s, truncate_message(m.content.as_str(), 500));
            let ghost line = s@;
            lines.push(s);
            proof {
                assert(strs(lines@) =~= strs(before).push(line));
            }
        }
        proof {
            assert(strs(lines@) =~= conversation_lines(vs.take(i + 1)));
        }
        i += 1;
    }
    proof {
        assert(vs.take(vs.len() as int) =~= vs);
        reveal_strlit("{current_memory_json}");
    }
    let mut prompt = replace_str(SESSION_EXTRACTION_PROMPT, "{current_memory_json}", memory_summary);
    push_str(&mut prompt, "\n\n## Conversation\n");
    let conversation = join_strings(&lines, "\n\n");
    push_str(&mut prompt, conversation.as_str());
    prompt
}

/// The reflection prompt for a memory summary and the JSON of a new
/// extraction.
pub open spec fn reflection_prompt(summary: Seq<char>, update_json: Seq<char>) -> Seq<char> {
    replace(
        replace(REFLECTION_PROMPT@, "{current_memory_json}"@, summary),
        "{new_update_json}"@,
        update_json,
    )
}

/// Builds the reflection prompt.
pub fn build_reflection_prompt(memory_summary: &str, update_json: &str) -> (r: String)
    ensures
        r@ == reflection_prompt(memory_summary@, update_json@),
{
    proof {
        reveal_strlit("{current_memory_json}");
        reveal_strlit("{new_update_json}");
    }
    let a = replace_str(REFLECTION_PROMPT, "{current_memory_json}", memory_summary);
    replace_str(a.as_str(), "{new_update_json}", update_json)
}


/// A user message with content `c`.
pub open spec fn user_view(c: Seq<char>) -> MessageView {
    ("user"@, c, None, None, None)
}

/// The requests for a session extraction: nothing without a cloud model or
/// with fewer than `MIN_USER_MESSAGES_FOR_SESSION` user messages; otherwise
/// one user message with the extraction prompt over the trimmed
/// conversation.
pub fn session_extraction_request(
    has_cloud: bool,
    memory_summary: &str,
    messages: &Vec<LlmChatMessage>,
) -> (r: Option<Vec<LlmChatMessage>>)
    ensures
        !has_cloud || user_count(mviews(messages@)) < MIN_USER_MESSAGES_FOR_SESSION ==> r is None,
        has_cloud && user_count(mviews(messages@)) >= MIN_USER_MESSAGES_FOR_SESSION ==> (r matches Some(
            v,
        ) && mviews(v@) == seq![
            user_view(session_prompt(memory_summary@, extraction_window(mviews(messages@)))),
        ]),
{
    if !has_cloud {
        return None;
    }
    if count_user_messages(messages) < MIN_USER_MESSAGES_FOR_SESSION {
        return None;
    }
    let trimmed = trim_messages_for_extraction(messages);
    let prompt = build_session_extraction_prompt(memory_summary, &trimmed);
    let m = LlmChatMessage::new("user", prompt.as_str());
    let mut v: Vec<LlmChatMessage> = Vec::new();
    v.push(m);
    proof {
        assert(mviews(v@) =~= seq![mview(m)]);
    }
    Some(v)
}

pub const MAX_ARCHIVES_PER_REFLECTION: usize = 3;

/// The number of archive proposals among `actions`.
pub open spec fn archive_count(actions: Seq<ProposalAction>) -> nat
    decreases actions.len(),
{
    if actions.len() == 0 {
        0
    } else {
        archive_count(actions.drop_last()) + if actions.last() is Archive {
            1nat
        } else {
            0nat
        }
    }
}

/// Whether proposal `i` of a reflection stays: every proposal that does not
/// archive, and the first `MAX_ARCHIVES_PER_REFLECTION` that do.
pub open spec fn proposal_kept(actions: Seq<ProposalAction>, i: int) -> bool {
    !(actions[i] is Archive) || archive_count(actions.take(i)) < MAX_ARCHIVES_PER_REFLECTION
}

/// Which proposals of a reflection stay (see `proposal_kept`).
pub fn kept_proposals(actions: &Vec<ProposalAction>) -> (r: Vec<bool>)
    ensures
        r@.len() == actions@.len(),
        forall|i: int| 0 <= i < r@.len() ==> #[trigger] r@[i] == proposal_kept(actions@, i),
{
    let mut out: Vec<bool> = Vec::new();
    let mut archives: usize = 0;
    let mut i: usize = 0;
    while i < actions.len()
        invariant
            i <= actions.len(),
            out@.len() == i,
            archives == archive_count(actions@.take(i as int)),
            archives <= i,
            forall|k: int| 0 <= k < i ==> #[trigger] out@[k] == proposal_kept(actions@, k),
        decreases actions.len() - i,
    {
        proof {
            assert(actions@.take(i + 1).drop_last() =~= actions@.take(i as int));
        }
        let is_archive = match &actions[i] {
            ProposalAction::Archive => true,
            _ => false,
        };
        out.push(!is_archive || archives < MAX_ARCHIVES_PER_REFLECTION);
        if is_archive {
            archives += 1;
        }
        i += 1;
    }
    out
}

/// The number of archive proposals a reflection keeps.
pub open spec fn kept_archive_count(actions: Seq<ProposalAction>) -> nat
    decreases actions.len(),
{
    if actions.len() == 0 {
        0
    } else {
        let n = actions.len() - 1;
        kept_archive_count(actions.drop_last()) + if actions.last() is Archive && proposal_kept(
            actions,
            n,
        ) {
            1nat
        } else {
            0nat
        }
    }
}

/// A reflection keeps every archive proposal up to
/// `MAX_ARCHIVES_PER_REFLECTION` of them, and never more.
pub proof fn lemma_archives_capped(actions: Seq<ProposalAction>)
    ensures
        kept_archive_count(actions) == if archive_count(actions) < MAX_ARCHIVES_PER_REFLECTION {
            archive_count(actions)
        } else {
            MAX_ARCHIVES_PER_REFLECTION as nat
        },
    decreases actions.len(),
{
    if actions.len() > 0 {
        let n = actions.len() - 1;
        lemma_archives_capped(actions.drop_last());
        assert(actions.take(n) =~= actions.drop_last());
    }
}

} // verus!
