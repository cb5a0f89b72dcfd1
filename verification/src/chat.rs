//! Assembling the messages of a chat turn: the system blocks for the open
//! note, a focused thought, the response depth, an accepted invitation,
//! tool use and skills, followed by the conversation.
use vstd::prelude::*;

use crate::message::{mviews, plain_message, system_view, LlmChatMessage, MessageView};
use crate::privacy::{
    markdown_treat_as_kf_private, treat_as_private, valid_rel_path,
    validate_workspace_rel_path, INVALID_NOTE_PATH,
};
use crate::text::{char_count, opt_string, push_str, strs, to_owned_str, trim, trim_str};

verus! {

/// How long and how deep a reply should be.
#[derive(Debug, Clone, Copy, PartialEq, Eq, Structural)]
pub enum DepthMode {
    Shallow,
    Medium,
    Deep,
    Auto,
}

/// Whether a turn plans before it acts.
#[derive(Debug, Clone, Copy, PartialEq, Eq, Structural)]
pub enum AgentMode {
    Direct,
    Planning,
}

/// The AI settings that the chat logic reads.
pub struct AiConfig {
    /// Plan before acting.
    pub planning_enabled: bool,
    /// Offer tools when a request does not say.
    pub tools_enabled: bool,
    /// Withhold the content of `kf-private` notes.
    pub redact_private: bool,
}

impl AiConfig {
    /// Whether `kf-private` notes are withheld.
    pub fn should_redact_private(&self) -> (r: bool)
        ensures
            r == self.redact_private,
    {
        self.redact_private
    }
}

impl Default for AiConfig {
    fn default() -> (r: Self)
        ensures
            !r.planning_enabled,
            !r.tools_enabled,
            !r.redact_private,
    {
        AiConfig { planning_enabled: false, tools_enabled: false, redact_private: false }
    }
}

/// Planning when the settings enable it, direct otherwise.
pub fn determine_agent_mode(ai: &AiConfig) -> (r: AgentMode)
    ensures
        r == (if ai.planning_enabled {
            AgentMode::Planning
        } else {
            AgentMode::Direct
        }),
{
    if ai.planning_enabled {
        AgentMode::Planning
    } else {
        AgentMode::Direct
    }
}

/// The depth chosen for `Auto` from the length (in characters) of the
/// trimmed query, with the reason recorded.
pub open spec fn auto_depth(query: Seq<char>) -> (DepthMode, Seq<char>) {
    let n = trim(query).len();
    if n <= 40 {
        (DepthMode::Shallow, "short_query"@)
    } else if n <= 200 {
        (DepthMode::Medium, "medium_query"@)
    } else {
        (DepthMode::Deep, "long_query"@)
    }
}

/// Resolves `Auto` depth from the last user query.
pub fn resolve_auto_depth_heuristic(query: &str) -> (r: (DepthMode, String))
    ensures
        r.0 == auto_depth(query@).0,
        r.1@ == auto_depth(query@).1,
{
    let t = trim_str(query);
    let n = char_count(t.as_str());
    if n <= 40 {
        return (DepthMode::Shallow, to_owned_str("short_query"));
    }
    if n <= 200 {
        return (DepthMode::Medium, to_owned_str("medium_query"));
    }
    (DepthMode::Deep, to_owned_str("long_query"))
}

pub const SHALLOW_INSTRUCTION: &'static str = "Response depth: SHALLOW. Keep your answer brief and direct (2-4 sentences). Do NOT reference previous thoughts from the user's notes. Do NOT suggest deepening questions or invite further exploration. Focus on answering the immediate question concisely. Do not pad with repeated words or restated points.";

pub const MEDIUM_INSTRUCTION: &'static str = "Response depth: MEDIUM. Provide a clear, well-structured answer of moderate length. You may reference relevant context if available. Use a suggestive, non-judgmental tone. Avoid prescriptive language like 'you should' or 'you need to'. Prefer 'you might consider' or 'one approach is'. Avoid repeating the same claim in multiple sentences without adding detail.";

pub const DEEP_INSTRUCTION: &'static str = "Response depth: DEEP. Provide a thorough, nuanced answer that explores the topic in depth. Consider multiple perspectives. Reference related context from the user's notes when relevant. Use a suggestive, non-judgmental tone throughout. Avoid prescriptive or lecturing language. Never use phrases like 'you should', 'you need to', 'it's important that you'. Prefer 'you might consider', 'one perspective is', 'it could be worth exploring'. Depth does not mean verbosity: avoid lexical echo and redundant restatements across paragraphs.";

pub const AUTO_INSTRUCTION: &'static str = "Adapt your response depth to the complexity of the question. For simple factual questions, be brief. For conceptual questions, provide more nuance. Use a suggestive, non-judgmental tone. Avoid prescriptive language like 'you should' or 'you need to'. Regardless of length, avoid stuttering repetition and duplicate phrasing.";

/// The instruction for a depth.
pub open spec fn depth_text(depth: DepthMode) -> Seq<char> {
    match depth {
        DepthMode::Shallow => SHALLOW_INSTRUCTION@,
        DepthMode::Medium => MEDIUM_INSTRUCTION@,
        DepthMode::Deep => DEEP_INSTRUCTION@,
        DepthMode::Auto => AUTO_INSTRUCTION@,
    }
}

/// The system instruction that sets the length and tone of a reply.
pub fn build_depth_system_instruction(depth: DepthMode) -> (r: String)
    ensures
        r@ == depth_text(depth),
{
    match depth {
        DepthMode::Shallow => to_owned_str(SHALLOW_INSTRUCTION),
        DepthMode::Medium => to_owned_str(MEDIUM_INSTRUCTION),
        DepthMode::Deep => to_owned_str(DEEP_INSTRUCTION),
        DepthMode::Auto => to_owned_str(AUTO_INSTRUCTION),
    }
}

/// The system message that carries the open note.
pub open spec fn note_text(rel_path: Seq<char>, markdown: Seq<char>) -> Seq<char> {
    "The user is editing the following Markdown file `"@ + rel_path
        + "`. Use it as the primary source when answering questions about its contents.\nWhen citing this file, repeat its path exactly once (do not garble or repeat path segments).\n\n```markdown\n"@
        + markdown + "\n```"@
}

/// Builds the system message for the open note.
pub fn build_note_system_content(rel_path: &str, markdown: &str) -> (r: String)
    ensures
        r@ == note_text(rel_path@, markdown@),
{
    let mut s = to_owned_str("The user is editing the following Markdown file `");
    push_str(&mut s, rel_path);
    push_str(
        &mut s,
        "`. Use it as the primary source when answering questions about its contents.\nWhen citing this file, repeat its path exactly once (do not garble or repeat path segments).\n\n```markdown\n",
    );
    push_str(&mut s, markdown);
    push_str(&mut s, "\n```");
    s
}

/// The note the user has open.
pub struct NoteContextIn {
    pub rel_path: String,
    pub markdown_for_gate: String,
}

/// A saved thought the user focuses the conversation on.
pub struct ThoughtFocusContextIn {
    pub thought_id: String,
    pub thought_body: String,
    pub maturity: String,
}

/// A deepening question the user accepted.
pub struct InviteContextIn {
    pub question: String,
    pub thought_excerpt: Option<String>,
}

pub const FOCUS_HEADER: &'static str = "The user is focusing on a specific saved thought (from their knowledge vault) for deeper discussion.\n";

pub const FOCUS_OPEN_NOTE: &'static str = "They may also have a Markdown note open for reference. Unless they clearly switch the topic to that note, prioritize helping them explore and refine the focused thought above.\n";

/// The system block for a focused thought.
pub open spec fn focus_text(tf: ThoughtFocusContextIn, has_open_note: bool) -> Seq<char> {
    FOCUS_HEADER@ + "- thought_id: "@ + trim(tf.thought_id@) + "\n"@ + "- maturity: "@ + trim(
        tf.maturity@,
    ) + "\n"@ + "Thought content:\n```\n"@ + tf.thought_body@ + "\n```\n"@ + if has_open_note {
        FOCUS_OPEN_NOTE@
    } else {
        seq![]
    }
}

/// Builds the system block for a focused thought.
pub fn build_thought_focus_system_block(tf: &ThoughtFocusContextIn, has_open_note: bool) -> (r:
    String)
    ensures
        r@ == focus_text(*tf, has_open_note),
{
    let mut s = to_owned_str(FOCUS_HEADER);
    push_str(&mut s, "- thought_id: ");
    let id = trim_str(tf.thought_id.as_str());
    push_str(&mut s, id.as_str());
    push_str(&mut s, "\n");
    push_str(&mut s, "- maturity: ");
    let maturity = trim_str(tf.maturity.as_str());
    push_str(&mut s, maturity.as_str());
    push_str(&mut s, "\n");
    push_str(&mut s, "Thought content:\n```\n");
    push_str(&mut s, tf.thought_body.as_str());
    push_str(&mut s, "\n```\n");
    if has_open_note {
        push_str(&mut s, FOCUS_OPEN_NOTE);
    }
    proof {
        assert(s@ =~= focus_text(*tf, has_open_note));
    }
    s
}

pub const SKILLS_HEADER: &'static str = "Available skills (call as tools via `skill.<id>` with a single string `input`):\n";

pub const SKILLS_FOOTER: &'static str = "Skills cannot invoke other skills. The skill streams its own output to the user;\nafter `skill.<id>` returns, acknowledge briefly without repeating the skill's content.";

/// The line of one skill `(id, name, when_to_use)`; a blank `when_to_use`
/// is left out.
pub open spec fn skill_line(s: (String, String, Option<String>)) -> Seq<char> {
    let head = "- skill."@ + s.0@ + " ("@ + s.1@ + ")"@;
    match s.2 {
        Some(w) => if trim(w@).len() > 0 {
            head + ": "@ + trim(w@) + "\n"@
        } else {
            head + "\n"@
        },
        None => head + "\n"@,
    }
}

/// The lines of a list of skills.
pub open spec fn skill_lines(ss: Seq<(String, String, Option<String>)>) -> Seq<char>
    decreases ss.len(),
{
    if ss.len() == 0 {
        seq![]
    } else {
        skill_lines(ss.drop_last()) + skill_line(ss.last())
    }
}

/// The "Available skills" block, or `None` when there are none.
pub open spec fn skills_block(ss: Seq<(String, String, Option<String>)>) -> Option<Seq<char>> {
    if ss.len() == 0 {
        None
    } else {
        Some(SKILLS_HEADER@ + skill_lines(ss) + SKILLS_FOOTER@)
    }
}

/// Builds the "Available skills" system block from `(id, name,
/// when_to_use)` triples; `None` when there are no skills.
pub fn build_skills_system_block(skills: &[(String, String, Option<String>)]) -> (r: Option<
    String,
>)
    ensures
        opt_string(r) == skills_block(skills@),
{
    if skills.len() == 0 {
        return None;
    }
    let mut s = to_owned_str(SKILLS_HEADER);
    let mut i: usize = 0;
    while i < skills.len()
        invariant
            i <= skills.len(),
            s@ == SKILLS_HEADER@ + skill_lines(skills@.take(i as int)),
        decreases skills.len() - i,
    {
        let entry = &skills[i];
        proof {
            assert(skills@.take(i + 1).drop_last() =~= skills@.take(i as int));
        }
        push_str(&mut s, "- skill.");
        push_str(&mut s, entry.0.as_str());
        push_str(&mut s, " (");
        push_str(&mut s, entry.1.as_str());
        push_str(&mut s, ")");
        match &entry.2 {
            Some(w) => {
                let t = trim_str(w.as_str());
                if char_count(t.as_str()) > 0 {
                    push_str(&mut s, ": ");
                    push_str(&mut s, t.as_str());
                }
            },
            None => {},
        }
        push_str(&mut s, "\n");
        proof {
            assert(s@ =~= SKILLS_HEADER@ + skill_lines(skills@.take(i + 1)));
        }
        i += 1;
    }
    proof {
        assert(skills@.take(skills@.len() as int) =~= skills@);
    }
    push_str(&mut s, SKILLS_FOOTER);
    Some(s)
}

pub const LANGUAGE_INSTRUCTION: &'static str = "IMPORTANT: Always respond in the same language the user writes in. If the user writes in Chinese, respond entirely in Chinese. If the user writes in English, respond in English. Match the user's language exactly.";

pub const CHAT_ANTI_REPETITION_SYSTEM: &'static str = "FORM / STYLE: Write economical, fluent prose. Avoid redundant repetition: no stuttering (duplicated syllables, characters, or words without purpose), no echoing the same phrase or idea in different words unless each adds clarity, and no filler stacks (e.g. piling similar intensifiers). Each sentence should add new information. In Chinese, avoid gratuitous reduplication (e.g. 叠词堆砌) and needless near-duplicate clauses.";

pub const PRIVATE_NOTE_NOTICE: &'static str = "The user has a Markdown note open that is marked private (kf-private). Its full content is not included in this request. Answer using only the visible user messages and general knowledge.";

pub const INVITE_GUIDANCE: &'static str = "Respond with: (1) acknowledge what they already wrote, (2) offer a complementary angle they haven't considered, (3) connect to broader context. Be suggestive, not prescriptive.";

pub const INVALID_ROLE: &'static str = "Invalid message role: expected user or assistant.";

/// The note a reply drew on, and whether its content was withheld.
pub struct ReplyCurrentNoteSource {
    pub rel_path: String,
    pub mode: ReplyCurrentNoteMode,
}

/// Whether the open note went out in full or was withheld.
#[derive(Debug, Clone, Copy, PartialEq, Eq, Structural)]
pub enum ReplyCurrentNoteMode {
    Full,
    Redacted,
}

/// One vault file found by keyword search; `kind` names the kind of snippet.
pub struct ReplyVaultKeywordEntry {
    pub rel_path: String,
    pub kind: String,
}

/// The vault keyword snippets a reply drew on.
pub struct ReplyVaultKeywordSource {
    pub entries: Vec<ReplyVaultKeywordEntry>,
    pub truncated: bool,
}

/// The semantic excerpts a reply drew on.
pub struct ReplySemanticSource {
    pub injected: bool,
    pub document_paths: Vec<String>,
    pub thought_ids: Vec<String>,
}

impl Default for ReplySemanticSource {
    fn default() -> (r: Self)
        ensures
            !r.injected,
            r.document_paths@.len() == 0,
            r.thought_ids@.len() == 0,
    {
        ReplySemanticSource { injected: false, document_paths: Vec::new(), thought_ids: Vec::new() }
    }
}

/// The focused thought a reply drew on.
pub struct ReplyThoughtFocusSource {
    pub thought_id: String,
}

/// Everything a reply drew on, for the interface to show.
pub struct ReplyContextSources {
    pub current_note: Option<ReplyCurrentNoteSource>,
    pub vault_keyword: Option<ReplyVaultKeywordSource>,
    pub semantic: ReplySemanticSource,
    pub thought_focus: Option<ReplyThoughtFocusSource>,
}

impl Default for ReplyContextSources {
    fn default() -> (r: Self)
        ensures
            r.current_note is None,
            r.vault_keyword is None,
            !r.semantic.injected,
            r.semantic.document_paths@.len() == 0,
            r.semantic.thought_ids@.len() == 0,
            r.thought_focus is None,
    {
        ReplyContextSources {
            current_note: None,
            vault_keyword: None,
            semantic: ReplySemanticSource::default(),
            thought_focus: None,
        }
    }
}

/// A request to start a chat turn.
pub struct ChatStreamStartArgs {
    pub messages: Vec<LlmChatMessage>,
    pub model: Option<String>,
    pub note_context: Option<NoteContextIn>,
    pub include_vault_context: Option<bool>,
    pub depth_mode: Option<DepthMode>,
    pub invite_context: Option<InviteContextIn>,
    pub thought_focus_context: Option<ThoughtFocusContextIn>,
    pub semantic_context_enabled: Option<bool>,
    pub tools_enabled: Option<bool>,
    pub conversation_id: Option<String>,
}

/// The answer to a request to start a chat turn.
pub struct ChatStreamStartResponse {
    pub session_id: String,
    pub resolved_depth: Option<DepthMode>,
    pub reply_context_sources: ReplyContextSources,
    pub provider_label: String,
    pub model_name: String,
}

/// A request to list a provider's models.
pub struct ListModelsArgs {
    pub provider_id: Option<String>,
    pub base_url: Option<String>,
    pub api_key: Option<String>,
}

/// The user's answer to a tool approval request.
pub struct RespondToolApprovalArgs {
    pub approval_id: String,
    pub decision: bool,
}

/// A request to forget the tool approvals of a conversation.
pub struct ClearConversationApprovalsArgs {
    pub conversation_id: String,
}

/// The assembled messages of a turn, where context blocks go, and what was
/// decided on the way.
pub struct AssembleFastOutcome {
    pub messages: Vec<LlmChatMessage>,
    pub context_insert_pos: usize,
    pub resolved_depth: Option<DepthMode>,
    pub auto_resolve_reason: Option<String>,
    pub reply_context_sources: ReplyContextSources,
}

/// The content of the last message whose trimmed role is `user`.
pub open spec fn last_user_query(ms: Seq<LlmChatMessage>) -> Option<Seq<char>>
    decreases ms.len(),
{
    if ms.len() == 0 {
        None
    } else if trim(ms.last().role@) == "user"@ {
        Some(ms.last().content@)
    } else {
        last_user_query(ms.drop_last())
    }
}

/// The open note goes out withheld: it is `kf-private` and the settings
/// withhold private notes.
pub open spec fn note_redacted(ai: AiConfig, nc: NoteContextIn) -> bool {
    treat_as_private(nc.markdown_for_gate@) && ai.redact_private
}

/// The system message for the open note, if any.
pub open spec fn note_part(ai: AiConfig, args: ChatStreamStartArgs) -> Seq<MessageView> {
    match args.note_context {
        Some(nc) => seq![
            system_view(
                if note_redacted(ai, nc) {
                    PRIVATE_NOTE_NOTICE@
                } else {
                    note_text(nc.rel_path@, nc.markdown_for_gate@)
                },
            ),
        ],
        None => seq![],
    }
}

/// A focused thought counts when its id and body are not blank.
pub open spec fn focus_used(args: ChatStreamStartArgs) -> bool {
    match args.thought_focus_context {
        Some(tf) => trim(tf.thought_id@).len() > 0 && trim(tf.thought_body@).len() > 0,
        None => false,
    }
}

/// The system block for the focused thought, if it counts.
pub open spec fn focus_part(args: ChatStreamStartArgs) -> Seq<MessageView> {
    if focus_used(args) {
        seq![system_view(focus_text(args.thought_focus_context->0, args.note_context is Some))]
    } else {
        seq![]
    }
}

/// The depth for the prompt: `Auto` is resolved from the last user query.
pub open spec fn prompt_depth(args: ChatStreamStartArgs) -> Option<DepthMode> {
    match args.depth_mode {
        None => None,
        Some(DepthMode::Auto) => Some(
            auto_depth(
                match last_user_query(args.messages@) {
                    Some(q) => q,
                    None => seq![],
                },
            ).0,
        ),
        Some(d) => Some(d),
    }
}

/// The depth instruction, if a depth is set.
pub open spec fn depth_part(args: ChatStreamStartArgs) -> Seq<MessageView> {
    match prompt_depth(args) {
        Some(d) => seq![system_view(depth_text(d))],
        None => seq![],
    }
}

/// The system block for an accepted invitation.
pub open spec fn invite_text(inv: InviteContextIn) -> Seq<char> {
    "The user accepted a deepening question: \""@ + inv.question@ + "\". "@ + match inv.thought_excerpt {
        Some(e) => "Relevant previous thought from their notes: \""@ + e@ + "\". "@,
        None => seq![],
    } + INVITE_GUIDANCE@
}

/// The invitation block, if any.
pub open spec fn invite_part(args: ChatStreamStartArgs) -> Seq<MessageView> {
    match args.invite_context {
        Some(inv) => seq![system_view(invite_text(inv))],
        None => seq![],
    }
}

/// Tools are offered when the request says so, or else when the settings do.
pub open spec fn tools_on(ai: AiConfig, args: ChatStreamStartArgs) -> bool {
    match args.tools_enabled {
        Some(b) => b,
        None => ai.tools_enabled,
    }
}

/// The standing instructions: language, style, and with tools the tool-use
/// hint and the skills block.
pub open spec fn standing_part(
    ai: AiConfig,
    args: ChatStreamStartArgs,
    skills: Seq<(String, String, Option<String>)>,
) -> Seq<MessageView> {
    seq![system_view(LANGUAGE_INSTRUCTION@), system_view(CHAT_ANTI_REPETITION_SYSTEM@)] + if tools_on(
        ai,
        args,
    ) {
        seq![system_view(crate::agent::TOOL_USE_DISCOVERY_HINT@)] + match skills_block(skills) {
            Some(b) => seq![system_view(b)],
            None => seq![],
        }
    } else {
        seq![]
    }
}

/// The conversation with trimmed roles and no tool fields.
pub open spec fn conversation_part(ms: Seq<LlmChatMessage>) -> Seq<MessageView> {
    ms.map_values(|m: LlmChatMessage| (trim(m.role@), m.content@, None, None, None))
}

/// Every message's trimmed role is `user` or `assistant`.
pub open spec fn roles_valid(ms: Seq<LlmChatMessage>) -> bool {
    forall|i: int|
        0 <= i < ms.len() ==> trim((#[trigger] ms[i]).role@) == "user"@ || trim(ms[i].role@)
            == "assistant"@
}

/// The open note's path is not a valid vault-relative path.
pub open spec fn note_path_invalid(args: ChatStreamStartArgs) -> bool {
    match args.note_context {
        Some(nc) => !valid_rel_path(nc.rel_path@),
        None => false,
    }
}

/// The messages of a turn, before context blocks are inserted.
pub open spec fn assembled(
    ai: AiConfig,
    args: ChatStreamStartArgs,
    skills: Seq<(String, String, Option<String>)>,
) -> Seq<MessageView> {
    note_part(ai, args) + focus_part(args) + depth_part(args) + invite_part(args) + standing_part(
        ai,
        args,
        skills,
    ) + conversation_part(args.messages@)
}

/// The query that `Auto` depth is resolved from.
pub open spec fn auto_query(args: ChatStreamStartArgs) -> Seq<char> {
    match last_user_query(args.messages@) {
        Some(q) => q,
        None => seq![],
    }
}

/// What an assembled turn records beside its messages.
pub open spec fn outcome_matches(
    ai: AiConfig,
    args: ChatStreamStartArgs,
    skills: Seq<(String, String, Option<String>)>,
    o: AssembleFastOutcome,
) -> bool {
    &&& mviews(o.messages@) == assembled(ai, args, skills)
    &&& o.context_insert_pos == note_part(ai, args).len() + focus_part(args).len()
    &&& o.resolved_depth == match args.depth_mode {
        Some(DepthMode::Auto) => Some(auto_depth(auto_query(args)).0),
        _ => None,
    }
    &&& opt_string(o.auto_resolve_reason) == match args.depth_mode {
        Some(DepthMode::Auto) => Some(auto_depth(auto_query(args)).1),
        _ => None,
    }
    &&& match args.note_context {
        Some(nc) => o.reply_context_sources.current_note matches Some(src) && src.rel_path@
            == nc.rel_path@ && src.mode == if note_redacted(ai, nc) {
            ReplyCurrentNoteMode::Redacted
        } else {
            ReplyCurrentNoteMode::Full
        },
        None => o.reply_context_sources.current_note is None,
    }
    &&& if focus_used(args) {
        o.reply_context_sources.thought_focus matches Some(t) && t.thought_id@ == trim(
            args.thought_focus_context->0.thought_id@,
        )
    } else {
        o.reply_context_sources.thought_focus is None
    }
    &&& o.reply_context_sources.vault_keyword is None
    &&& !o.reply_context_sources.semantic.injected
    &&& o.reply_context_sources.semantic.document_paths@.len() == 0
    &&& o.reply_context_sources.semantic.thought_ids@.len() == 0
}

/// Appends a system message.
fn push_system(out: &mut Vec<LlmChatMessage>, content: &str)
    ensures
        mviews(final(out)@) == mviews(old(out)@).push(system_view(content@)),
{
    let ghost before = out@;
    out.push(LlmChatMessage::system(content));
    proof {
        assert(mviews(out@) =~= mviews(before).push(system_view(content@)));
    }
}

/// The content of the last user message, if any.
pub fn find_last_user_query(ms: &Vec<LlmChatMessage>) -> (r: Option<&String>)
    ensures
        match r {
            Some(q) => last_user_query(ms@) == Some(q@),
            None => last_user_query(ms@) is None,
        },
{
    let mut i = ms.len();
    proof {
        assert(ms@.take(i as int) =~= ms@);
    }
    while i > 0
        invariant
            i <= ms.len(),
            last_user_query(ms@) == last_user_query(ms@.take(i as int)),
        decreases i,
    {
        proof {
            assert(ms@.take(i as int).drop_last() =~= ms@.take(i - 1));
            reveal_strlit("user");
        }
        let role = trim_str(ms[i - 1].role.as_str());
        if crate::text::str_eq(role.as_str(), "user") {
            return Some(&ms[i - 1].content);
        }
        i -= 1;
    }
    None
}

/// The system message and the reply source for the open note.
fn note_block(ai: &AiConfig, nc: &NoteContextIn) -> (r: (String, ReplyCurrentNoteSource))
    ensures
        r.0@ == (if note_redacted(*ai, *nc) {
            PRIVATE_NOTE_NOTICE@
        } else {
            note_text(nc.rel_path@, nc.markdown_for_gate@)
        }),
        r.1.rel_path@ == nc.rel_path@,
        r.1.mode == (if note_redacted(*ai, *nc) {
            ReplyCurrentNoteMode::Redacted
        } else {
            ReplyCurrentNoteMode::Full
        }),
{
    let is_private = markdown_treat_as_kf_private(nc.markdown_for_gate.as_str());
    let redact = is_private && ai.should_redact_private();
    let source = ReplyCurrentNoteSource {
        rel_path: to_owned_str(nc.rel_path.as_str()),
        mode: if redact {
            ReplyCurrentNoteMode::Redacted
        } else {
            ReplyCurrentNoteMode::Full
        },
    };
    if redact {
        (to_owned_str(PRIVATE_NOTE_NOTICE), source)
    } else {
        (build_note_system_content(nc.rel_path.as_str(), nc.markdown_for_gate.as_str()), source)
    }
}

/// The focused-thought block and the trimmed thought id, when the focus
/// counts.
fn focus_block(args: &ChatStreamStartArgs) -> (r: Option<(String, String)>)
    ensures
        focus_used(*args) <==> r is Some,
        r matches Some(p) ==> p.0@ == focus_text(
            args.thought_focus_context->0,
            args.note_context is Some,
        ) && p.1@ == trim(args.thought_focus_context->0.thought_id@),
{
    match &args.thought_focus_context {
        Some(tf) => {
            let id = trim_str(tf.thought_id.as_str());
            let body = trim_str(tf.thought_body.as_str());
            if char_count(id.as_str()) > 0 && char_count(body.as_str()) > 0 {
                let block = build_thought_focus_system_block(tf, args.note_context.is_some());
                Some((block, id))
            } else {
                None
            }
        },
        None => None,
    }
}

/// The depth for the prompt, and for `Auto` the resolved depth and reason.
fn depth_choice(args: &ChatStreamStartArgs) -> (r: (
    Option<DepthMode>,
    Option<DepthMode>,
    Option<String>,
))
    ensures
        r.0 == prompt_depth(*args),
        r.1 == match args.depth_mode {
            Some(DepthMode::Auto) => Some(auto_depth(auto_query(*args)).0),
            _ => None,
        },
        opt_string(r.2) == match args.depth_mode {
            Some(DepthMode::Auto) => Some(auto_depth(auto_query(*args)).1),
            _ => None,
        },
{
    match args.depth_mode {
        None => (None, None, None),
        Some(DepthMode::Auto) => {
            let last_query = find_last_user_query(&args.messages);
            let (d, reason) = match last_query {
                Some(q) => resolve_auto_depth_heuristic(q.as_str()),
                None => resolve_auto_depth_heuristic(""),
            };
            proof {
                assert(""@ =~= Seq::<char>::empty()) by {
                    reveal_strlit("");
                }
            }
            (Some(d), Some(d), Some(reason))
        },
        Some(d) => (Some(d), None, None),
    }
}

/// The block for an accepted invitation.
fn build_invite_block(invite: &InviteContextIn) -> (r: String)
    ensures
        r@ == invite_text(*invite),
{
    let mut ctx = to_owned_str("The user accepted a deepening question: \"");
    push_str(&mut ctx, invite.question.as_str());
    push_str(&mut ctx, "\". ");
    match &invite.thought_excerpt {
        Some(excerpt) => {
            push_str(&mut ctx, "Relevant previous thought from their notes: \"");
            push_str(&mut ctx, excerpt.as_str());
            push_str(&mut ctx, "\". ");
        },
        None => {},
    }
    push_str(&mut ctx, INVITE_GUIDANCE);
    proof {
        assert(ctx@ =~= invite_text(*invite));
    }
    ctx
}

/// Appends the standing instructions.
fn push_standing(
    out: &mut Vec<LlmChatMessage>,
    ai: &AiConfig,
    args: &ChatStreamStartArgs,
    skills: &[(String, String, Option<String>)],
)
    ensures
        mviews(final(out)@) == mviews(old(out)@) + standing_part(*ai, *args, skills@),
{
    let ghost before = mviews(out@);
    push_system(out, LANGUAGE_INSTRUCTION);
    push_system(out, CHAT_ANTI_REPETITION_SYSTEM);
    let tools_enabled_eff = match args.tools_enabled {
        Some(b) => b,
        None => ai.tools_enabled,
    };
    if tools_enabled_eff {
        push_system(out, crate::agent::TOOL_USE_DISCOVERY_HINT);
        match build_skills_system_block(skills) {
            Some(block) => push_system(out, block.as_str()),
            None => {},
        }
    }
    proof {
        assert(mviews(out@) =~= before + standing_part(*ai, *args, skills@));
    }
}

/// Appends the conversation with trimmed roles; `false` (and the output in
/// an unspecified state) when a role is not `user` or `assistant`.
fn push_conversation(out: &mut Vec<LlmChatMessage>, ms: &Vec<LlmChatMessage>) -> (ok: bool)
    ensures
        ok == roles_valid(ms@),
        ok ==> mviews(final(out)@) == mviews(old(out)@) + conversation_part(ms@),
{
    let ghost pre = mviews(out@);
    let mut i: usize = 0;
    while i < ms.len()
        invariant
            i <= ms.len(),
            mviews(out@) == pre + conversation_part(ms@.take(i as int)),
            forall|j: int| 0 <= j < i ==> trim((#[trigger] ms@[j]).role@) == "user"@ || trim(
                ms@[j].role@,
            ) == "assistant"@,
        decreases ms.len() - i,
    {
        let m = &ms[i];
        let role = trim_str(m.role.as_str());
        proof {
            reveal_strlit("user");
            reveal_strlit("assistant");
        }
        if !crate::text::str_eq(role.as_str(), "user") && !crate::text::str_eq(
            role.as_str(),
            "assistant",
        ) {
            proof {
                assert(trim(ms@[i as int].role@) != "user"@);
            }
            return false;
        }
        let ghost before = out@;
        out.push(LlmChatMessage::new(role.as_str(), m.content.as_str()));
        proof {
            assert(conversation_part(ms@.take(i + 1)) =~= conversation_part(ms@.take(i as int)).push(
                (trim(ms@[i as int].role@), ms@[i as int].content@, None, None, None),
            ));
            assert(mviews(out@) =~= mviews(before).push(
                (trim(ms@[i as int].role@), ms@[i as int].content@, None, None, None),
            ));
        }
        i += 1;
    }
    proof {
        assert(ms@.take(ms@.len() as int) =~= ms@);
    }
    true
}

/// Assembles the messages of a chat turn: system blocks for the open note
/// (withheld when private and the settings say so), the focused thought, the
/// depth, an accepted invitation, the standing instructions and, with tools,
/// the tool hint and skills; then the conversation. Fails on an invalid note
/// path or a message whose role is not `user` or `assistant`.
pub fn assemble_messages_fast(
    ai: &AiConfig,
    args: &ChatStreamStartArgs,
    auto_invocable_skills: &[(String, String, Option<String>)],
) -> (r: Result<AssembleFastOutcome, String>)
    ensures
        note_path_invalid(*args) ==> (r matches Err(e) && e@ == INVALID_NOTE_PATH@),
        !note_path_invalid(*args) && !roles_valid(args.messages@) ==> (r matches Err(e) && e@
            == INVALID_ROLE@),
        !note_path_invalid(*args) && roles_valid(args.messages@) ==> r is Ok,
        r matches Ok(o) ==> outcome_matches(*ai, *args, auto_invocable_skills@, o),
{
    let mut out: Vec<LlmChatMessage> = Vec::new();
    let mut sources = ReplyContextSources::default();
    match &args.note_context {
        Some(nc) => {
            match validate_workspace_rel_path(nc.rel_path.as_str()) {
                Err(e) => {
                    return Err(e);
                },
                Ok(()) => {},
            }
            let (content, source) = note_block(ai, nc);
            sources.current_note = Some(source);
            push_system(&mut out, content.as_str());
        },
        None => {},
    }
    proof {
        assert(mviews(out@) =~= note_part(*ai, *args));
    }
    match focus_block(args) {
        Some((block, id)) => {
            sources.thought_focus = Some(ReplyThoughtFocusSource { thought_id: id });
            push_system(&mut out, block.as_str());
        },
        None => {},
    }
    proof {
        assert(mviews(out@) =~= note_part(*ai, *args) + focus_part(*args));
    }
    let context_insert_pos = out.len();
    let (depth_for_prompt, resolved_depth, auto_resolve_reason) = depth_choice(args);
    match depth_for_prompt {
        Some(depth) => {
            let instruction = build_depth_system_instruction(depth);
            push_system(&mut out, instruction.as_str());
        },
        None => {},
    }
    match &args.invite_context {
        Some(invite) => {
            let ctx = build_invite_block(invite);
            push_system(&mut out, ctx.as_str());
        },
        None => {},
    }
    proof {
        assert(mviews(out@) =~= note_part(*ai, *args) + focus_part(*args) + depth_part(*args)
            + invite_part(*args));
    }
    push_standing(&mut out, ai, args, auto_invocable_skills);
    if !push_conversation(&mut out, &args.messages) {
        return Err(to_owned_str(INVALID_ROLE));
    }
    proof {
        assert(mviews(out@) =~= assembled(*ai, *args, auto_invocable_skills@));
    }
    Ok(
        AssembleFastOutcome {
            messages: out,
            context_insert_pos,
            resolved_depth,
            auto_resolve_reason,
            reply_context_sources: sources,
        },
    )
}

/// What a semantic source holds, as plain values.
pub open spec fn semantic_view(s: ReplySemanticSource) -> (bool, Seq<Seq<char>>, Seq<Seq<char>>) {
    (s.injected, strs(s.document_paths@), strs(s.thought_ids@))
}

/// What a vault keyword entry holds, as plain values.
pub open spec fn entry_view(e: ReplyVaultKeywordEntry) -> (Seq<char>, Seq<char>) {
    (e.rel_path@, e.kind@)
}

/// The views of a list of vault keyword entries.
pub open spec fn entry_views(es: Seq<ReplyVaultKeywordEntry>) -> Seq<(Seq<char>, Seq<char>)> {
    es.map_values(|e: ReplyVaultKeywordEntry| entry_view(e))
}

/// What a vault keyword source holds, as plain values.
pub open spec fn vault_view(v: ReplyVaultKeywordSource) -> (Seq<(Seq<char>, Seq<char>)>, bool) {
    (entry_views(v.entries@), v.truncated)
}

/// A copy of a list of strings.
fn copy_strings(v: &Vec<String>) -> (r: Vec<String>)
    ensures
        strs(r@) == strs(v@),
{
    let mut out: Vec<String> = Vec::new();
    let mut i: usize = 0;
    while i < v.len()
        invariant
            i <= v.len(),
            strs(out@) == strs(v@.take(i as int)),
        decreases v.len() - i,
    {
        let ghost before = out@;
        out.push(to_owned_str(v[i].as_str()));
        proof {
            assert(strs(out@) =~= strs(before).push(v@[i as int]@));
            assert(strs(v@.take(i + 1)) =~= strs(v@.take(i as int)).push(v@[i as int]@));
        }
        i += 1;
    }
    proof {
        assert(v@.take(v@.len() as int) =~= v@);
    }
    out
}

/// A copy of a semantic source.
fn copy_semantic(s: &ReplySemanticSource) -> (r: ReplySemanticSource)
    ensures
        semantic_view(r) == semantic_view(*s),
{
    ReplySemanticSource {
        injected: s.injected,
        document_paths: copy_strings(&s.document_paths),
        thought_ids: copy_strings(&s.thought_ids),
    }
}

/// A copy of a vault keyword source.
fn copy_vault(v: &ReplyVaultKeywordSource) -> (r: ReplyVaultKeywordSource)
    ensures
        vault_view(r) == vault_view(*v),
{
    let mut entries: Vec<ReplyVaultKeywordEntry> = Vec::new();
    let mut i: usize = 0;
    while i < v.entries.len()
        invariant
            i <= v.entries.len(),
            entry_views(entries@) == entry_views(v.entries@.take(i as int)),
        decreases v.entries.len() - i,
    {
        let e = &v.entries[i];
        let ghost before = entries@;
        let copy = ReplyVaultKeywordEntry {
            rel_path: to_owned_str(e.rel_path.as_str()),
            kind: to_owned_str(e.kind.as_str()),
        };
        entries.push(copy);
        proof {
            assert(entry_view(copy) == entry_view(v.entries@[i as int]));
            assert(entry_views(entries@) =~= entry_views(before).push(entry_view(v.entries@[i as int])));
            assert(entry_views(v.entries@.take(i + 1)) =~= entry_views(v.entries@.take(i as int)).push(
                entry_view(v.entries@[i as int]),
            ));
        }
        i += 1;
    }
    proof {
        assert(v.entries@.take(v.entries@.len() as int) =~= v.entries@);
    }
    ReplyVaultKeywordSource { entries, truncated: v.truncated }
}

/// The context found for a turn: a vault keyword block and a semantic block,
/// each with what it drew on.
pub struct ContextBlocks {
    pub vault_block: Option<String>,
    pub vault_reply_sources: Option<ReplyVaultKeywordSource>,
    pub semantic_block: Option<String>,
    pub semantic_reply_sources: ReplySemanticSource,
}

/// The messages after inserting the context blocks at `pos`: the vault
/// block, then the semantic block.
pub open spec fn with_context_blocks(
    vs: Seq<MessageView>,
    pos: int,
    vault: Option<String>,
    semantic: Option<String>,
) -> Seq<MessageView> {
    let with_semantic = match semantic {
        Some(sb) => vs.insert(pos, system_view(sb@)),
        None => vs,
    };
    match vault {
        Some(vb) => with_semantic.insert(pos, system_view(vb@)),
        None => with_semantic,
    }
}

/// Inserts the context blocks at the outcome's insert position and records
/// their sources.
pub fn inject_context_blocks(outcome: &mut AssembleFastOutcome, blocks: &ContextBlocks)
    requires
        old(outcome).context_insert_pos <= old(outcome).messages@.len(),
    ensures
        mviews(final(outcome).messages@) == with_context_blocks(
            mviews(old(outcome).messages@),
            old(outcome).context_insert_pos as int,
            blocks.vault_block,
            blocks.semantic_block,
        ),
        final(outcome).context_insert_pos == old(outcome).context_insert_pos,
        final(outcome).resolved_depth == old(outcome).resolved_depth,
        final(outcome).auto_resolve_reason == old(outcome).auto_resolve_reason,
        final(outcome).reply_context_sources.current_note == old(
            outcome,
        ).reply_context_sources.current_note,
        final(outcome).reply_context_sources.thought_focus == old(
            outcome,
        ).reply_context_sources.thought_focus,
        semantic_view(final(outcome).reply_context_sources.semantic) == if blocks.semantic_block is Some {
            semantic_view(blocks.semantic_reply_sources)
        } else {
            semantic_view(old(outcome).reply_context_sources.semantic)
        },
        match (blocks.vault_block, blocks.vault_reply_sources) {
            (Some(_), Some(vs)) => final(outcome).reply_context_sources.vault_keyword matches Some(
                k,
            ) && vault_view(k) == vault_view(vs),
            _ => final(outcome).reply_context_sources.vault_keyword == old(
                outcome,
            ).reply_context_sources.vault_keyword,
        },
{
    let pos = outcome.context_insert_pos;
    let ghost m0 = mviews(outcome.messages@);
    match &blocks.semantic_block {
        Some(sb) => {
            let ghost before = outcome.messages@;
            outcome.messages.insert(pos, LlmChatMessage::system(sb.as_str()));
            outcome.reply_context_sources.semantic = copy_semantic(&blocks.semantic_reply_sources);
            proof {
                assert(mviews(outcome.messages@) =~= mviews(before).insert(
                    pos as int,
                    system_view(sb@),
                ));
            }
        },
        None => {},
    }
    match &blocks.vault_block {
        Some(vb) => {
            let ghost before = outcome.messages@;
            outcome.messages.insert(pos, LlmChatMessage::system(vb.as_str()));
            proof {
                assert(mviews(outcome.messages@) =~= mviews(before).insert(
                    pos as int,
                    system_view(vb@),
                ));
            }
            match &blocks.vault_reply_sources {
                Some(vs) => {
                    outcome.reply_context_sources.vault_keyword = Some(copy_vault(vs));
                },
                None => {},
            }
        },
        None => {},
    }
}

/// `x` clamped into `[lo, hi]`.
pub open spec fn clamp_nat(x: int, lo: int, hi: int) -> int {
    if x < lo {
        lo
    } else if x > hi {
        hi
    } else {
        x
    }
}

/// The character budget of the vault keyword block: four characters per
/// context token (32 000 when the limit is unknown), kept within 4 000 and
/// 100 000, less the note and the conversation, then kept within 400 and
/// 12 000.
pub open spec fn vault_cap_spec(max_context_tokens: Option<u64>, note_chars: usize, conversation_chars: usize) -> int {
    let total = clamp_nat(
        match max_context_tokens {
            Some(m) => if (m as usize) * 4 > usize::MAX {
                usize::MAX as int
            } else {
                (m as usize) * 4
            },
            None => 32000,
        },
        4000,
        100000,
    );
    let rest = if total - note_chars - conversation_chars < 0 {
        0
    } else {
        total - note_chars - conversation_chars
    };
    if rest > 12000 {
        12000
    } else if rest < 400 {
        400
    } else {
        rest
    }
}

/// Computes the character budget of the vault keyword block.
pub fn vault_context_cap(max_context_tokens: Option<u64>, note_chars: usize, conversation_chars: usize) -> (r:
    usize)
    ensures
        r == vault_cap_spec(max_context_tokens, note_chars, conversation_chars),
{
    let total0: usize = match max_context_tokens {
        Some(m) => {
            let mu = m as usize;
            if mu > usize::MAX / 4 {
                usize::MAX
            } else {
                mu * 4
            }
        },
        None => 32000,
    };
    let total: usize = if total0 < 4000 {
        4000
    } else if total0 > 100000 {
        100000
    } else {
        total0
    };
    let rest = total.saturating_sub(note_chars).saturating_sub(conversation_chars);
    if rest > 12000 {
        12000
    } else if rest < 400 {
        400
    } else {
        rest
    }
}

/// The sources of the vault block: the rebuilt snippets, as
/// `(path, kind)`, whose path the block used, in order.
pub open spec fn used_entries_spec(snippets: Seq<(String, String)>, used: Seq<Seq<char>>) -> Seq<(Seq<char>, Seq<char>)>
    decreases snippets.len(),
{
    if snippets.len() == 0 {
        seq![]
    } else {
        let rest = used_entries_spec(snippets.drop_last(), used);
        let s = snippets.last();
        if used.contains(s.0@) {
            rest.push((s.0@, s.1@))
        } else {
            rest
        }
    }
}

/// Picks the reply sources of the vault block.
pub fn used_vault_entries(snippets: &Vec<(String, String)>, used_rel_paths: &Vec<String>) -> (r: Vec<
    ReplyVaultKeywordEntry,
>)
    ensures
        r@.map_values(|e: ReplyVaultKeywordEntry| (e.rel_path@, e.kind@)) == used_entries_spec(
            snippets@,
            crate::text::strs(used_rel_paths@),
        ),
{
    let mut out: Vec<ReplyVaultKeywordEntry> = Vec::new();
    let mut i: usize = 0;
    while i < snippets.len()
        invariant
            i <= snippets.len(),
            out@.map_values(|e: ReplyVaultKeywordEntry| (e.rel_path@, e.kind@)) == used_entries_spec(
                snippets@.take(i as int),
                crate::text::strs(used_rel_paths@),
            ),
        decreases snippets.len() - i,
    {
        proof {
            assert(snippets@.take(i + 1).drop_last() =~= snippets@.take(i as int));
            assert(snippets@.take(i + 1).last() == snippets@[i as int]);
        }
        if crate::text::contains_string(used_rel_paths, snippets[i].0.as_str()) {
            let e = ReplyVaultKeywordEntry {
                rel_path: crate::text::to_owned_str(snippets[i].0.as_str()),
                kind: crate::text::to_owned_str(snippets[i].1.as_str()),
            };
            let ghost before = out@;
            out.push(e);
            proof {
                assert(out@.map_values(|e: ReplyVaultKeywordEntry| (e.rel_path@, e.kind@)) =~= before.map_values(
                    |e: ReplyVaultKeywordEntry| (e.rel_path@, e.kind@),
                ).push((e.rel_path@, e.kind@)));
            }
        }
        i += 1;
    }
    proof {
        assert(snippets@.take(snippets@.len() as int) =~= snippets@);
    }
    out
}

/// What to look up for a turn's context: the query, the paths the searches
/// leave out (the open note), and which searches run.
pub struct ContextPlan {
    pub query: String,
    pub exclude_rel_paths: Vec<String>,
    pub search_vault: bool,
    pub search_semantic: bool,
}

/// Plans the context lookup of a turn: a missing or blank query looks up
/// nothing; otherwise the query is searched, leaving out the open note, in
/// the vault when vault context is on and semantically when that is on.
pub fn plan_context(
    last_user_query: Option<String>,
    note_context_rel_path: Option<String>,
    include_vault_context: bool,
    semantic_enabled: bool,
) -> (r: Option<ContextPlan>)
    ensures
        match last_user_query {
            Some(q) => if trim(q@).len() == 0 {
                r is None
            } else {
                r matches Some(p) && {
                    &&& p.query == q
                    &&& p.exclude_rel_paths@ == match note_context_rel_path {
                        Some(n) => seq![n],
                        None => Seq::<String>::empty(),
                    }
                    &&& p.search_vault == include_vault_context
                    &&& p.search_semantic == semantic_enabled
                }
            },
            None => r is None,
        },
{
    let query = match last_user_query {
        Some(q) => q,
        None => return None,
    };
    let t = trim_str(query.as_str());
    if char_count(t.as_str()) == 0 {
        return None;
    }
    let mut exclude_rel_paths: Vec<String> = Vec::new();
    match note_context_rel_path {
        Some(n) => exclude_rel_paths.push(n),
        None => {},
    }
    proof {
        assert(exclude_rel_paths@ =~= match note_context_rel_path {
            Some(n) => seq![n],
            None => Seq::<String>::empty(),
        });
    }
    Some(
        ContextPlan {
            query,
            exclude_rel_paths,
            search_vault: include_vault_context,
            search_semantic: semantic_enabled,
        },
    )
}

/// The paths of the vault snippets found, in order, which the semantic step
/// is told about.
pub fn keyword_paths(snippets: &Vec<(String, String)>) -> (r: Vec<String>)
    ensures
        strs(r@) == snippets@.map_values(|s: (String, String)| s.0@),
{
    let mut out: Vec<String> = Vec::new();
    let mut i: usize = 0;
    while i < snippets.len()
        invariant
            i <= snippets.len(),
            strs(out@) == snippets@.take(i as int).map_values(|s: (String, String)| s.0@),
        decreases snippets.len() - i,
    {
        let ghost before = out@;
        out.push(to_owned_str(snippets[i].0.as_str()));
        proof {
            assert(strs(out@) =~= strs(before).push(snippets@[i as int].0@));
            assert(snippets@.take(i + 1).map_values(|s: (String, String)| s.0@) =~= snippets@.take(
                i as int,
            ).map_values(|s: (String, String)| s.0@).push(snippets@[i as int].0@));
        }
        i += 1;
    }
    proof {
        assert(snippets@.take(snippets@.len() as int) =~= snippets@);
    }
    out
}

/// The vault block and its sources, from the snippets rebuilt for the
/// model and what the block builder made of them (`(block, truncated, used
/// paths)`, or nothing when no snippet fitted): no block and no sources
/// when nothing was rebuilt; the block and the rebuilt snippets it used
/// when one was built; otherwise no block and empty, truncated sources.
pub fn vault_block_outcome(
    rebuilt: &Vec<(String, String)>,
    built: Option<(String, bool, Vec<String>)>,
) -> (r: (Option<String>, Option<ReplyVaultKeywordSource>))
    ensures
        rebuilt@.len() == 0 ==> r.0 is None && r.1 is None,
        rebuilt@.len() > 0 ==> match built {
            Some((block, truncated, used)) => {
                &&& r.0 == Some(block)
                &&& r.1 matches Some(src) && src.truncated == truncated
                    && src.entries@.map_values(|e: ReplyVaultKeywordEntry| (e.rel_path@, e.kind@))
                    == used_entries_spec(rebuilt@, strs(used@))
            },
            None => {
                &&& r.0 is None
                &&& r.1 matches Some(src) && src.truncated && src.entries@.len() == 0
            },
        },
{
    if rebuilt.len() == 0 {
        return (None, None);
    }
    match built {
        Some((block, truncated, used)) => {
            let entries = used_vault_entries(rebuilt, &used);
            (Some(block), Some(ReplyVaultKeywordSource { entries, truncated }))
        },
        None => (None, Some(ReplyVaultKeywordSource { entries: Vec::new(), truncated: true })),
    }
}

// ───────────────────────── starting a chat turn ─────────────────────────

pub const NO_MESSAGES_ERROR: &'static str = "At least one message is required.";

/// A chat turn needs at least one message.
pub fn check_chat_request(messages: &Vec<LlmChatMessage>) -> (r: Result<(), String>)
    ensures
        messages@.len() == 0 ==> (r matches Err(e) && e@ == NO_MESSAGES_ERROR@),
        messages@.len() > 0 ==> r is Ok,
{
    if messages.len() == 0 {
        return Err(crate::text::to_owned_str(NO_MESSAGES_ERROR));
    }
    Ok(())
}

/// The model name reported for a turn: the trimmed override unless blank,
/// else the profile's model (see `resolve_model_name`), else empty.
pub open spec fn response_model_spec(
    model_override: Option<Seq<char>>,
    last_used: Option<Seq<char>>,
    default_model: Seq<char>,
) -> Seq<char> {
    match model_override {
        Some(m) if trim(m).len() > 0 => trim(m),
        _ => match crate::provider::resolved_model(last_used, default_model) {
            Some(n) => n,
            None => seq![],
        },
    }
}

/// Names the model of a turn.
pub fn response_model_name(model_override: Option<&str>, last_used: Option<&str>, default_model: &str) -> (r:
    String)
    ensures
        r@ == response_model_spec(
            crate::text::opt_chars(model_override),
            crate::text::opt_chars(last_used),
            default_model@,
        ),
{
    match model_override {
        Some(m) => {
            let t = crate::text::trim_str(m);
            if t.unicode_len() > 0 {
                return t;
            }
        },
        None => {},
    }
    match crate::provider::resolve_model_name(last_used, default_model) {
        Some(n) => n,
        None => String::new(),
    }
}

/// The conversation a turn belongs to: the trimmed id unless blank, else
/// the session id.
pub fn conversation_id_for(conversation_id: Option<&str>, session_id: &str) -> (r: String)
    ensures
        r@ == match crate::text::opt_chars(conversation_id) {
            Some(c) if trim(c).len() > 0 => trim(c),
            _ => session_id@,
        },
{
    match conversation_id {
        Some(c) => {
            let t = crate::text::trim_str(c);
            if t.unicode_len() > 0 {
                return t;
            }
        },
        None => {},
    }
    crate::text::to_owned_str(session_id)
}

/// The mode of a turn: direct without tools, else as the settings say.
pub fn chat_agent_mode(tools_enabled: bool, ai: &AiConfig) -> (r: AgentMode)
    ensures
        r == (if tools_enabled && ai.planning_enabled {
            AgentMode::Planning
        } else {
            AgentMode::Direct
        }),
{
    if tools_enabled {
        determine_agent_mode(ai)
    } else {
        AgentMode::Direct
    }
}

/// The skills offered to the model: with tools on, each auto-invocable
/// skill as `(id, name, when_to_use)`, in the listed order.
pub open spec fn prompt_skills_spec(tools_enabled: bool, ms: Seq<crate::skills::SkillManifest>) -> Seq<
    (Seq<char>, Seq<char>, Option<Seq<char>>),
>
    decreases ms.len(),
{
    if !tools_enabled || ms.len() == 0 {
        seq![]
    } else {
        let rest = prompt_skills_spec(tools_enabled, ms.drop_last());
        let m = ms.last();
        if m.auto_invocable {
            rest.push((m.id@, m.name@, crate::text::opt_string(m.when_to_use)))
        } else {
            rest
        }
    }
}

/// The view of a skill entry of the prompt.
pub open spec fn skill_entry_view(e: (String, String, Option<String>)) -> (Seq<char>, Seq<char>, Option<Seq<char>>) {
    (e.0@, e.1@, crate::text::opt_string(e.2))
}

/// Lists the skills to describe in the system prompt.
pub fn skills_for_prompt(tools_enabled: bool, manifests: &Vec<crate::skills::SkillManifest>) -> (r: Vec<
    (String, String, Option<String>),
>)
    ensures
        r@.map_values(|e: (String, String, Option<String>)| skill_entry_view(e)) == prompt_skills_spec(
            tools_enabled,
            manifests@,
        ),
{
    let mut out: Vec<(String, String, Option<String>)> = Vec::new();
    if !tools_enabled {
        proof {
            assert(out@.map_values(|e: (String, String, Option<String>)| skill_entry_view(e)) =~= seq![]);
        }
        return out;
    }
    let mut i: usize = 0;
    while i < manifests.len()
        invariant
            tools_enabled,
            i <= manifests.len(),
            out@.map_values(|e: (String, String, Option<String>)| skill_entry_view(e))
                == prompt_skills_spec(tools_enabled, manifests@.take(i as int)),
        decreases manifests.len() - i,
    {
        proof {
            assert(manifests@.take(i + 1).drop_last() =~= manifests@.take(i as int));
            assert(manifests@.take(i + 1).last() == manifests@[i as int]);
        }
        let m = &manifests[i];
        if m.auto_invocable {
            let w = match &m.when_to_use {
                Some(x) => Some(crate::text::to_owned_str(x.as_str())),
                None => None,
            };
            let e = (crate::text::to_owned_str(m.id.as_str()), crate::text::to_owned_str(m.name.as_str()), w);
            let ghost before = out@;
            out.push(e);
            proof {
                assert(out@.map_values(|e: (String, String, Option<String>)| skill_entry_view(e)) =~= before.map_values(
                    |e: (String, String, Option<String>)| skill_entry_view(e),
                ).push(skill_entry_view(e)));
            }
        }
        i += 1;
    }
    proof {
        assert(manifests@.take(manifests@.len() as int) =~= manifests@);
    }
    out
}

/// The characters of the conversation as the context budget counts them:
/// each message's characters plus 8, the total saturating.
pub open spec fn conversation_chars_spec(msgs: Seq<LlmChatMessage>) -> nat
    decreases msgs.len(),
{
    if msgs.len() == 0 {
        0
    } else {
        conversation_chars_spec(msgs.drop_last()) + msgs.last().content@.len() + 8
    }
}

/// Counts the conversation for the context budget.
pub fn conversation_chars(messages: &Vec<LlmChatMessage>) -> (r: usize)
    ensures
        r == if conversation_chars_spec(messages@) > usize::MAX {
            usize::MAX as nat
        } else {
            conversation_chars_spec(messages@)
        },
{
    let mut total: usize = 0;
    let mut i: usize = 0;
    while i < messages.len()
        invariant
            i <= messages.len(),
            total == if conversation_chars_spec(messages@.take(i as int)) > usize::MAX {
                usize::MAX as nat
            } else {
                conversation_chars_spec(messages@.take(i as int))
            },
        decreases messages.len() - i,
    {
        proof {
            assert(messages@.take(i + 1).drop_last() =~= messages@.take(i as int));
            assert(messages@.take(i + 1).last() == messages@[i as int]);
        }
        let n = crate::text::char_count(messages[i].content.as_str());
        let add = n.saturating_add(8);
        total = total.saturating_add(add);
        i += 1;
    }
    proof {
        assert(messages@.take(messages@.len() as int) =~= messages@);
    }
    total
}

/// What happens to the memory after a turn, by reflection mode.
#[derive(Debug, Clone, Copy, PartialEq, Eq, Structural)]
pub enum MemoryPlan {
    /// Merge the extracted update and save.
    MergeAndSave,
    /// Reflect, snapshot, merge, apply every proposal, save.
    ReflectAndApply,
    /// Reflect; proposals wait for the user's confirmation.
    ReflectAndConfirm,
}

/// `off` merges; `auto` and any other mode (`confirm`) reflect when a
/// reflection is due and merge otherwise.
pub fn memory_plan(reflection_mode: &str, reflect_due: bool) -> (r: MemoryPlan)
    ensures
        reflection_mode@ == "off"@ ==> r == MemoryPlan::MergeAndSave,
        reflection_mode@ != "off"@ && !reflect_due ==> r == MemoryPlan::MergeAndSave,
        reflection_mode@ == "auto"@ && reflect_due ==> r == MemoryPlan::ReflectAndApply,
        reflection_mode@ != "off"@ && reflection_mode@ != "auto"@ && reflect_due ==> r
            == MemoryPlan::ReflectAndConfirm,
{
    proof {
        reveal_strlit("off");
        reveal_strlit("auto");
        assert("off"@[1] != "auto"@[1]);
    }
    if crate::text::str_eq(reflection_mode, "off") || !reflect_due {
        MemoryPlan::MergeAndSave
    } else if crate::text::str_eq(reflection_mode, "auto") {
        MemoryPlan::ReflectAndApply
    } else {
        MemoryPlan::ReflectAndConfirm
    }
}

} // verus!
