//! Skills: manifest-defined sub-workflows, their Markdown file format, the
//! built-in manifests and the names a skill takes in the tool surface.
use vstd::prelude::*;

use crate::text::{
    strs,
    chars_of, find_from, join, matches_at, opt_string, push_decimal, push_str, replace,
    replace_str, starts_with, string_of_range, to_owned_str, trim, trim_range, trim_start,
    trim_start_range, decimal, find,
};

verus! {

/// Where a skill is offered in the user interface.
#[derive(Debug, Clone, Copy, PartialEq, Eq, Structural)]
pub enum SkillUiEntry {
    ConversationMode,
    EditorPanel,
    Standalone,
}

/// A skill: system prompt template, tool whitelist and limits.
#[derive(Debug, Clone)]
pub struct SkillManifest {
    pub id: String,
    pub name: String,
    pub version: String,
    pub description: String,
    pub system_prompt_template: String,
    pub allowed_tools: Vec<String>,
    pub max_tool_calls: u8,
    pub timeout_secs: u64,
    pub ui_entry: SkillUiEntry,
    pub tags: Vec<String>,
    pub auto_invocable: bool,
    pub when_to_use: Option<String>,
    pub max_tool_result_chars: u32,
}

/// The template with `{{workspace_name}}` and then `{{workspace_root}}`
/// replaced; other placeholders stay as they are.
pub open spec fn rendered_prompt(template: Seq<char>, name: Seq<char>, root: Seq<char>) -> Seq<
    char,
> {
    replace(replace(template, "{{workspace_name}}"@, name), "{{workspace_root}}"@, root)
}

impl SkillManifest {
    /// Renders the system prompt template with the workspace variables.
    pub fn render_system_prompt(&self, workspace_name: &str, workspace_root: &str) -> (r: String)
        ensures
            r@ == rendered_prompt(self.system_prompt_template@, workspace_name@, workspace_root@),
    {
        let p1 = "{{workspace_name}}";
        let p2 = "{{workspace_root}}";
        proof {
            reveal_strlit("{{workspace_name}}");
            reveal_strlit("{{workspace_root}}");
        }
        let a = replace_str(self.system_prompt_template.as_str(), p1, workspace_name);
        replace_str(a.as_str(), p2, workspace_root)
    }
}

/// The approval and audit scope of a skill sub-turn.
pub open spec fn skill_scope_id(skill_id: Seq<char>, parent: Seq<char>) -> Seq<char> {
    "skill:"@ + skill_id + ":"@ + parent
}

/// `skill:<skill_id>:<parent_conversation_id>`.
pub fn skill_conversation_id(skill_id: &str, parent_conversation_id: &str) -> (r: String)
    ensures
        r@ == skill_scope_id(skill_id@, parent_conversation_id@),
{
    let mut s = to_owned_str("skill:");
    push_str(&mut s, skill_id);
    push_str(&mut s, ":");
    push_str(&mut s, parent_conversation_id);
    s
}

/// The tool name under which a skill is offered: `skill.<id>`.
pub open spec fn skill_tool_name_spec(skill_id: Seq<char>) -> Seq<char> {
    "skill."@ + skill_id
}

/// `skill.<id>`.
pub fn skill_tool_name(skill_id: &str) -> (r: String)
    ensures
        r@ == skill_tool_name_spec(skill_id@),
{
    let mut s = to_owned_str("skill.");
    push_str(&mut s, skill_id);
    s
}

/// The tool description of a skill: its description, followed by its
/// trimmed `when_to_use` text when that is not blank.
pub open spec fn skill_tool_description_spec(
    description: Seq<char>,
    when_to_use: Option<Seq<char>>,
) -> Seq<char> {
    match when_to_use {
        Some(w) if trim(w).len() > 0 => description + "\n\nWhen to use: "@ + trim(w),
        _ => description,
    }
}

/// The description of the `skill.<id>` tool built for a skill.
pub fn skill_tool_description(skill: &SkillManifest) -> (r: String)
    ensures
        r@ == skill_tool_description_spec(skill.description@, opt_string(skill.when_to_use)),
{
    let mut s = to_owned_str(skill.description.as_str());
    match &skill.when_to_use {
        Some(w) => {
            let t = crate::text::trim_str(w.as_str());
            if t.unicode_len() > 0 {
                push_str(&mut s, "\n\nWhen to use: ");
                push_str(&mut s, t.as_str());
            }
        },
        None => {},
    }
    s
}

/// Removes a skill's tool: hands the tool registry's `unregister` the name
/// `skill.<id>` once and returns its result unchanged.
pub fn unregister_skill_tool<F: FnOnce(&str) -> Result<(), String>>(skill_id: &str, unregister: F) -> (r: Result<
    (),
    String,
>)
    requires
        forall|n: &str| #[trigger] call_requires(unregister, (n,)),
    ensures
        exists|n: &str| n@ == skill_tool_name_spec(skill_id@) && #[trigger] call_ensures(unregister, (n,), r),
{
    let name = skill_tool_name(skill_id);
    unregister(name.as_str())
}

// ───────────────────────── built-in skills ─────────────────────────

pub const WRITING_COACH_PROMPT: &'static str = "You are a writing coach helping the user refine notes in their personal knowledge base {{workspace_name}}.

Your job:
1. For a given paragraph or note, raise short follow-up questions about logical chains, terminology definitions, and missing premises (1-3 questions per turn, in the same language as the original text).
2. When needed, call vault.search_keyword or note.read to find potentially related notes in the vault and suggest connections using wikilink syntax (e.g. [[Note Title]]).

Hard constraints:
- Never rewrite the user's original text or suggest specific rewrites.
- Never judge writing quality (do not use phrases like \"unclear\", \"poorly written\", etc.).
- If tool searches return no related material, say so honestly; do not fabricate paths.
- When referencing other notes, the relPath must come from the tool's actual response.";

pub const CHALLENGE_REVIEW_PROMPT: &'static str = "You are a learning review coach helping the user revisit past thoughts and notes in their knowledge base {{workspace_name}}.

Your job:
1. When the user mentions a thought or note, use thought.list / note.list / note.read to retrieve the original content.
2. Choose the most fitting perspective among compare, apply, critique, and transfer, then pose one short review question.
3. After the user responds, give neutral feedback on whether the core was addressed, and optionally invite a next round by transferring to a new context.

Hard constraints:
- Ask only one core question at a time; do not stack multiple questions.
- Do not judge answers as \"good\" or \"bad\"; use descriptive phrases like \"this covers...\" or \"this could extend to...\" instead.
- If no related thoughts or notes are found by the tools, say so honestly; do not fabricate content.";

pub const WEB_RESEARCH_PROMPT: &'static str = "You are a research assistant helping the user conduct web research in their knowledge base {{workspace_name}}.

Your workflow:
1. Analyze the user's research request and break it into 1-3 search keywords (prefer English keywords for broader results).
2. Call web.search to execute the search and obtain a result list.
3. Select 2-4 of the most relevant pages from the results and call web.read_page to read their content in detail.
4. Optionally call vault.search_keyword to check whether related notes already exist in the vault, avoiding duplicates and establishing connections.
5. Synthesize all information into a structured research report.
6. Call note.create to save the report to the vault. Save path format: research/{topic-keyword}.md

Report format requirements:
- Frontmatter tags must include \"research\".
- Include these sections: Overview, Key Findings (bulleted), Sources.
- Annotate each finding with its source URL.
- End with a `## Sources` section listing all referenced URLs with titles.
- If related notes exist in the vault, link them using [[wikilink]] syntax.

Hard constraints:
- All information must come from actual tool results; never fabricate URLs or facts.
- If a search returns no results or a page read fails, report it honestly; do not fake information.
- Every key finding must have at least one supporting source.
- Write the report in the same language the user used.";

fn owned_list2(a: &str, b: &str) -> (r: Vec<String>)
    ensures
        strs(r@) == seq![a@, b@],
{
    let mut v: Vec<String> = Vec::new();
    v.push(to_owned_str(a));
    v.push(to_owned_str(b));
    proof {
        assert(strs(v@) =~= seq![a@, b@]);
    }
    v
}

fn owned_list3(a: &str, b: &str, c: &str) -> (r: Vec<String>)
    ensures
        strs(r@) == seq![a@, b@, c@],
{
    let mut v: Vec<String> = Vec::new();
    v.push(to_owned_str(a));
    v.push(to_owned_str(b));
    v.push(to_owned_str(c));
    proof {
        assert(strs(v@) =~= seq![a@, b@, c@]);
    }
    v
}

fn owned_list5(a: &str, b: &str, c: &str, d: &str, e: &str) -> (r: Vec<String>)
    ensures
        strs(r@) == seq![a@, b@, c@, d@, e@],
{
    let mut v: Vec<String> = Vec::new();
    v.push(to_owned_str(a));
    v.push(to_owned_str(b));
    v.push(to_owned_str(c));
    v.push(to_owned_str(d));
    v.push(to_owned_str(e));
    proof {
        assert(strs(v@) =~= seq![a@, b@, c@, d@, e@]);
    }
    v
}

/// The built-in writing coach skill.
pub fn writing_coach_manifest() -> (m: SkillManifest)
    ensures
        m.id@ == "writing_coach"@,
        m.name@ == "写作教练"@,
        m.version@ == "0.1.0"@,
        m.system_prompt_template@ == WRITING_COACH_PROMPT@,
        strs(m.allowed_tools@) == seq!["note.read"@, "vault.search_keyword"@],
        m.max_tool_calls == 4,
        m.timeout_secs == 30,
        m.ui_entry == SkillUiEntry::EditorPanel,
        strs(m.tags@) == seq!["writing"@, "coach"@],
        m.auto_invocable,
        m.when_to_use is Some,
        m.max_tool_result_chars == 8000,
{
    SkillManifest {
        id: to_owned_str("writing_coach"),
        name: to_owned_str("写作教练"),
        version: to_owned_str("0.1.0"),
        description: to_owned_str("对当前笔记或段落提出逻辑追问,并推荐知识库中可能的关联笔记。"),
        system_prompt_template: to_owned_str(WRITING_COACH_PROMPT),
        allowed_tools: owned_list2("note.read", "vault.search_keyword"),
        max_tool_calls: 4,
        timeout_secs: 30,
        ui_entry: SkillUiEntry::EditorPanel,
        tags: owned_list2("writing", "coach"),
        auto_invocable: true,
        when_to_use: Some(
            to_owned_str(
                "用户在打磨一段笔记/段落,希望就逻辑链条/术语/缺失前提获得追问,或想找到知识库中可能相关的其它笔记。",
            ),
        ),
        max_tool_result_chars: 8000,
    }
}

/// The built-in challenge review skill.
pub fn challenge_review_manifest() -> (m: SkillManifest)
    ensures
        m.id@ == "challenge_review"@,
        m.name@ == "挑战复盘"@,
        m.version@ == "0.1.0"@,
        m.system_prompt_template@ == CHALLENGE_REVIEW_PROMPT@,
        strs(m.allowed_tools@) == seq!["note.read"@, "note.list"@, "thought.list"@],
        m.max_tool_calls == 6,
        m.timeout_secs == 45,
        m.ui_entry == SkillUiEntry::ConversationMode,
        strs(m.tags@) == seq!["review"@, "coach"@],
        m.auto_invocable,
        m.when_to_use is Some,
        m.max_tool_result_chars == 8000,
{
    SkillManifest {
        id: to_owned_str("challenge_review"),
        name: to_owned_str("挑战复盘"),
        version: to_owned_str("0.1.0"),
        description: to_owned_str("围绕对比/应用/质疑/迁移四种视角,陪用户复盘过往想法。"),
        system_prompt_template: to_owned_str(CHALLENGE_REVIEW_PROMPT),
        allowed_tools: owned_list3("note.read", "note.list", "thought.list"),
        max_tool_calls: 6,
        timeout_secs: 45,
        ui_entry: SkillUiEntry::ConversationMode,
        tags: owned_list2("review", "coach"),
        auto_invocable: true,
        when_to_use: Some(
            to_owned_str(
                "用户提到过往的某条想法/某篇笔记并想做学习复盘,需要一个针对性的追问从对比/应用/质疑/迁移视角切入。",
            ),
        ),
        max_tool_result_chars: 8000,
    }
}

/// The built-in web research skill.
pub fn web_research_manifest() -> (m: SkillManifest)
    ensures
        m.id@ == "web_research"@,
        m.name@ == "网络调研"@,
        m.version@ == "0.1.0"@,
        m.system_prompt_template@ == WEB_RESEARCH_PROMPT@,
        strs(m.allowed_tools@) == seq![
            "web.search"@,
            "web.read_page"@,
            "note.create"@,
            "note.append"@,
            "vault.search_keyword"@,
        ],
        m.max_tool_calls == 15,
        m.timeout_secs == 120,
        m.ui_entry == SkillUiEntry::ConversationMode,
        strs(m.tags@) == seq!["research"@, "web"@],
        m.auto_invocable,
        m.when_to_use is Some,
        m.max_tool_result_chars == 20000,
{
    SkillManifest {
        id: to_owned_str("web_research"),
        name: to_owned_str("网络调研"),
        version: to_owned_str("0.1.0"),
        description: to_owned_str("搜索网络信息,精读关键页面,生成调研报告并归档到知识库。"),
        system_prompt_template: to_owned_str(WEB_RESEARCH_PROMPT),
        allowed_tools: owned_list5(
            "web.search",
            "web.read_page",
            "note.create",
            "note.append",
            "vault.search_keyword",
        ),
        max_tool_calls: 15,
        timeout_secs: 120,
        ui_entry: SkillUiEntry::ConversationMode,
        tags: owned_list2("research", "web"),
        auto_invocable: true,
        when_to_use: Some(
            to_owned_str("用户提出调研任务、要求搜索网络信息、或要求就某个主题生成调研报告时"),
        ),
        max_tool_result_chars: 20000,
    }
}


// ───────────────────────── Markdown file format ─────────────────────────

/// Why a skill file could not be loaded.
#[derive(Debug)]
pub enum SkillLoadError {
    MissingFrontmatter,
    InvalidYaml(String),
    EmptyPrompt,
    Io(String),
}

/// The YAML frontmatter fields of a skill file.
#[derive(Debug, Clone)]
pub struct SkillFrontmatter {
    pub id: String,
    pub name: String,
    pub version: String,
    pub description: String,
    pub allowed_tools: Vec<String>,
    pub max_tool_calls: u8,
    pub timeout_secs: u64,
    pub ui_entry: SkillUiEntry,
    pub tags: Vec<String>,
    pub auto_invocable: bool,
    pub when_to_use: Option<String>,
    pub max_tool_result_chars: u32,
}

/// `"  - <item>\n"` for each item.
pub open spec fn list_block(items: Seq<Seq<char>>) -> Seq<char>
    decreases items.len(),
{
    if items.len() == 0 {
        seq![]
    } else {
        list_block(items.drop_last()) + "  - "@ + items.last() + "\n"@
    }
}

/// The snake_case name of a UI entry.
pub open spec fn ui_entry_text(e: SkillUiEntry) -> Seq<char> {
    match e {
        SkillUiEntry::ConversationMode => "conversation_mode"@,
        SkillUiEntry::EditorPanel => "editor_panel"@,
        SkillUiEntry::Standalone => "standalone"@,
    }
}

/// The frontmatter lines of a manifest, up to and including `ui_entry`.
pub open spec fn skill_markdown_head(m: SkillManifest) -> Seq<char> {
    skill_markdown_ids(m) + skill_markdown_limits(m)
}

/// The identifying frontmatter lines of a manifest and its tool list.
pub open spec fn skill_markdown_ids(m: SkillManifest) -> Seq<char> {
    "---\n"@ + "id: "@ + m.id@ + "\n"@ + "name: "@ + m.name@ + "\n"@ + "version: "@ + m.version@
        + "\n"@ + "description: "@ + m.description@ + "\n"@ + "allowed_tools:\n"@ + list_block(
        strs(m.allowed_tools@),
    )
}

/// The limit and UI frontmatter lines of a manifest.
pub open spec fn skill_markdown_limits(m: SkillManifest) -> Seq<char> {
    "max_tool_calls: "@ + decimal(m.max_tool_calls as nat) + "\n"@ + "timeout_secs: "@ + decimal(
        m.timeout_secs as nat,
    ) + "\n"@ + "ui_entry: "@ + ui_entry_text(m.ui_entry) + "\n"@
}

/// The optional frontmatter lines of a manifest.
pub open spec fn skill_markdown_optional(m: SkillManifest) -> Seq<char> {
    (if m.tags@.len() == 0 {
        seq![]
    } else {
        "tags:\n"@ + list_block(strs(m.tags@))
    }) + (if m.auto_invocable {
        "auto_invocable: true\n"@
    } else {
        seq![]
    }) + match m.when_to_use {
        Some(w) => "when_to_use: "@ + w@ + "\n"@,
        None => seq![],
    }
}

/// The Markdown file of a manifest: YAML frontmatter, a blank line, the
/// prompt and a final newline.
pub open spec fn skill_markdown(m: SkillManifest) -> Seq<char> {
    skill_markdown_head(m) + skill_markdown_optional(m) + "---\n\n"@ + m.system_prompt_template@
        + "\n"@
}

fn push_list_block(s: &mut String, items: &Vec<String>)
    ensures
        final(s)@ == old(s)@ + list_block(strs(items@)),
{
    let ghost s0 = s@;
    let mut k: usize = 0;
    while k < items.len()
        invariant
            k <= items.len(),
            s@ == s0 + list_block(strs(items@).take(k as int)),
        decreases items.len() - k,
    {
        proof {
            assert(strs(items@).take(k + 1).drop_last() =~= strs(items@).take(k as int));
            assert(strs(items@).take(k + 1).last() == items@[k as int]@);
        }
        push_str(s, "  - ");
        push_str(s, items[k].as_str());
        push_str(s, "\n");
        k += 1;
    }
    proof {
        assert(strs(items@).take(items.len() as int) =~= strs(items@));
    }
}

/// Appends the frontmatter lines up to `ui_entry`.
fn push_markdown_head(y: &mut String, manifest: &SkillManifest)
    ensures
        final(y)@ == old(y)@ + skill_markdown_head(*manifest),
{
    let ghost s0 = y@;
    push_str(y, "---\n");
    push_str(y, "id: ");
    push_str(y, manifest.id.as_str());
    push_str(y, "\n");
    push_str(y, "name: ");
    push_str(y, manifest.name.as_str());
    push_str(y, "\n");
    push_str(y, "version: ");
    push_str(y, manifest.version.as_str());
    push_str(y, "\n");
    push_str(y, "description: ");
    push_str(y, manifest.description.as_str());
    push_str(y, "\n");
    push_str(y, "allowed_tools:\n");
    push_list_block(y, &manifest.allowed_tools);
    proof {
        assert(y@ =~= s0 + skill_markdown_ids(*manifest));
    }
    let ghost s1 = y@;
    push_str(y, "max_tool_calls: ");
    push_decimal(y, manifest.max_tool_calls as u64);
    push_str(y, "\n");
    push_str(y, "timeout_secs: ");
    push_decimal(y, manifest.timeout_secs);
    push_str(y, "\n");
    push_str(y, "ui_entry: ");
    match manifest.ui_entry {
        SkillUiEntry::ConversationMode => push_str(y, "conversation_mode"),
        SkillUiEntry::EditorPanel => push_str(y, "editor_panel"),
        SkillUiEntry::Standalone => push_str(y, "standalone"),
    }
    push_str(y, "\n");
    proof {
        assert(y@ =~= s1 + skill_markdown_limits(*manifest));
        assert(y@ =~= s0 + skill_markdown_head(*manifest));
    }
}

/// Appends the optional frontmatter lines.
fn push_markdown_optional(y: &mut String, manifest: &SkillManifest)
    ensures
        final(y)@ == old(y)@ + skill_markdown_optional(*manifest),
{
    let ghost s0 = y@;
    if manifest.tags.len() > 0 {
        push_str(y, "tags:\n");
        push_list_block(y, &manifest.tags);
    }
    if manifest.auto_invocable {
        push_str(y, "auto_invocable: true\n");
    }
    match &manifest.when_to_use {
        Some(w) => {
            push_str(y, "when_to_use: ");
            push_str(y, w.as_str());
            push_str(y, "\n");
        },
        None => {},
    }
    proof {
        assert(y@ =~= s0 + skill_markdown_optional(*manifest));
    }
}

/// Serialises a manifest as a Markdown skill file.
pub fn serialize_skill_markdown(manifest: &SkillManifest) -> (r: String)
    ensures
        r@ == skill_markdown(*manifest),
{
    let mut y = String::new();
    push_markdown_head(&mut y, manifest);
    push_markdown_optional(&mut y, manifest);
    push_str(&mut y, "---\n\n");
    push_str(&mut y, manifest.system_prompt_template.as_str());
    push_str(&mut y, "\n");
    proof {
        assert(y@ =~= skill_markdown(*manifest));
    }
    y
}

/// The frontmatter text and the body of a skill file, or `None` when the
/// file has no `---`-delimited frontmatter.
pub open spec fn frontmatter_split(content: Seq<char>) -> Option<(Seq<char>, Seq<char>)> {
    let c = trim_start(content);
    if !starts_with(c, "---"@) {
        None
    } else {
        let a0 = c.skip(3);
        let a = if starts_with(a0, "\n"@) {
            a0.skip(1)
        } else {
            a0
        };
        let e = find(a, "\n---"@);
        if e < 0 {
            None
        } else {
            let r0 = a.skip(e + 4);
            Some(
                (
                    a.take(e),
                    if starts_with(r0, "\n"@) {
                        r0.skip(1)
                    } else {
                        r0
                    },
                ),
            )
        }
    }
}

/// `s` holds no newline.
pub open spec fn single_line(s: Seq<char>) -> bool {
    forall|i: int| 0 <= i < s.len() ==> s[i] != '\n'
}

/// Whole lines none of which starts with `-`: empty, or starting with
/// something else than `-`, ending with a newline, and with no newline
/// followed by `-`.
pub open spec fn dashless_lines(s: Seq<char>) -> bool {
    &&& s.len() > 0 ==> s[0] != '-' && s.last() == '\n'
    &&& forall|i: int| 0 <= i < s.len() - 1 && #[trigger] s[i] == '\n' ==> s[i + 1] != '-'
}

proof fn lemma_dashless_concat(x: Seq<char>, y: Seq<char>)
    requires
        dashless_lines(x),
        dashless_lines(y),
    ensures
        dashless_lines(x + y),
{
    let z = x + y;
    if x.len() > 0 && y.len() > 0 {
        assert(z[0] == x[0]);
        assert(z.last() == y.last());
    } else if x.len() > 0 {
        assert(z =~= x);
    } else {
        assert(z =~= y);
    }
    assert forall|i: int| 0 <= i < z.len() - 1 && #[trigger] z[i] == '\n' implies z[i + 1] != '-' by {
        if i < x.len() - 1 {
            assert(z[i] == x[i] && z[i + 1] == x[i + 1]);
        } else if i == x.len() - 1 {
            assert(z[i + 1] == y[0]);
        } else {
            assert(z[i] == y[i - x.len()] && z[i + 1] == y[i + 1 - x.len()]);
        }
    }
}

/// A line made of `key` and a single-line `value`.
proof fn lemma_key_line(key: Seq<char>, value: Seq<char>)
    requires
        key.len() > 0,
        key[0] != '-',
        single_line(key),
        single_line(value),
    ensures
        dashless_lines(key + value + "\n"@),
{
    reveal_strlit("\n");
    let z = key + value + "\n"@;
    assert(z[0] == key[0]);
    assert(z.last() == '\n');
    assert forall|i: int| 0 <= i < z.len() - 1 && #[trigger] z[i] == '\n' implies z[i + 1] != '-' by {
        if i < key.len() {
            assert(z[i] == key[i]);
        } else {
            assert(z[i] == value[i - key.len()]);
        }
    }
}

proof fn lemma_list_block_dashless(items: Seq<Seq<char>>)
    requires
        forall|i: int| 0 <= i < items.len() ==> single_line(#[trigger] items[i]),
    ensures
        dashless_lines(list_block(items)),
    decreases items.len(),
{
    reveal_strlit("  - ");
    if items.len() > 0 {
        lemma_list_block_dashless(items.drop_last());
        lemma_key_line("  - "@, items.last());
        assert(list_block(items) =~= list_block(items.drop_last()) + ("  - "@ + items.last() + "\n"@));
        lemma_dashless_concat(list_block(items.drop_last()), "  - "@ + items.last() + "\n"@);
    } else {
        assert(list_block(items) =~= Seq::<char>::empty());
    }
}

proof fn lemma_decimal_digits(n: nat)
    ensures
        decimal(n).len() > 0,
        forall|i: int| 0 <= i < decimal(n).len() ==> '0' <= #[trigger] decimal(n)[i] <= '9',
    decreases n,
{
    if n >= 10 {
        lemma_decimal_digits(n / 10);
    }
}

/// The frontmatter lines of a manifest's file, each ending with a newline
/// (what lies between the `---` fences).
pub open spec fn skill_yaml_lines(m: SkillManifest) -> Seq<char> {
    "id: "@ + m.id@ + "\n"@ + ("name: "@ + m.name@ + "\n"@) + ("version: "@ + m.version@ + "\n"@) + (
    "description: "@ + m.description@ + "\n"@) + ("allowed_tools:\n"@ + list_block(
        strs(m.allowed_tools@),
    )) + skill_markdown_limits(m) + skill_markdown_optional(m)
}

/// The manifest's text fields hold no newline (they are written as plain
/// one-line YAML scalars).
pub open spec fn one_line_fields(m: SkillManifest) -> bool {
    &&& single_line(m.id@)
    &&& single_line(m.name@)
    &&& single_line(m.version@)
    &&& single_line(m.description@)
    &&& forall|i: int| 0 <= i < m.allowed_tools@.len() ==> single_line(#[trigger] m.allowed_tools@[i]@)
    &&& forall|i: int| 0 <= i < m.tags@.len() ==> single_line(#[trigger] m.tags@[i]@)
    &&& m.when_to_use matches Some(w) ==> single_line(w@)
}

proof fn lemma_single_line_decimal(n: nat)
    ensures
        single_line(decimal(n)),
{
    lemma_decimal_digits(n);
}

#[verifier::rlimit(50)]
proof fn lemma_yaml_lines_dashless(m: SkillManifest)
    requires
        one_line_fields(m),
    ensures
        dashless_lines(skill_yaml_lines(m)),
        skill_yaml_lines(m).len() > 0,
{
    reveal_strlit("id: ");
    reveal_strlit("name: ");
    reveal_strlit("version: ");
    reveal_strlit("description: ");
    reveal_strlit("allowed_tools:\n");
    reveal_strlit("max_tool_calls: ");
    reveal_strlit("timeout_secs: ");
    reveal_strlit("ui_entry: ");
    reveal_strlit("tags:\n");
    reveal_strlit("auto_invocable: true\n");
    reveal_strlit("when_to_use: ");
    reveal_strlit("conversation_mode");
    reveal_strlit("editor_panel");
    reveal_strlit("standalone");
    reveal_strlit("\n");
    let l1 = "id: "@ + m.id@ + "\n"@;
    let l2 = "name: "@ + m.name@ + "\n"@;
    let l3 = "version: "@ + m.version@ + "\n"@;
    let l4 = "description: "@ + m.description@ + "\n"@;
    let tools = strs(m.allowed_tools@);
    assert forall|i: int| 0 <= i < tools.len() implies single_line(#[trigger] tools[i]) by {
        assert(tools[i] == m.allowed_tools@[i]@);
    }
    let l5 = "allowed_tools:\n"@ + list_block(tools);
    lemma_key_line("id: "@, m.id@);
    lemma_key_line("name: "@, m.name@);
    lemma_key_line("version: "@, m.version@);
    lemma_key_line("description: "@, m.description@);
    lemma_list_block_dashless(tools);
    assert(dashless_lines("allowed_tools:\n"@));
    lemma_dashless_concat("allowed_tools:\n"@, list_block(tools));
    lemma_single_line_decimal(m.max_tool_calls as nat);
    lemma_single_line_decimal(m.timeout_secs as nat);
    lemma_key_line("max_tool_calls: "@, decimal(m.max_tool_calls as nat));
    lemma_key_line("timeout_secs: "@, decimal(m.timeout_secs as nat));
    assert(single_line(ui_entry_text(m.ui_entry)));
    lemma_key_line("ui_entry: "@, ui_entry_text(m.ui_entry));
    let l6 = "max_tool_calls: "@ + decimal(m.max_tool_calls as nat) + "\n"@;
    let l7 = "timeout_secs: "@ + decimal(m.timeout_secs as nat) + "\n"@;
    let l8 = "ui_entry: "@ + ui_entry_text(m.ui_entry) + "\n"@;
    assert(skill_markdown_limits(m) =~= l6 + l7 + l8);
    lemma_dashless_concat(l6, l7);
    lemma_dashless_concat(l6 + l7, l8);
    // optional lines
    let tags = strs(m.tags@);
    let ot = if m.tags@.len() == 0 {
        seq![]
    } else {
        "tags:\n"@ + list_block(tags)
    };
    let oa = if m.auto_invocable {
        "auto_invocable: true\n"@
    } else {
        seq![]
    };
    let ow = match m.when_to_use {
        Some(w) => "when_to_use: "@ + w@ + "\n"@,
        None => seq![],
    };
    assert(dashless_lines(Seq::<char>::empty()));
    if m.tags@.len() > 0 {
        assert forall|i: int| 0 <= i < tags.len() implies single_line(#[trigger] tags[i]) by {
            assert(tags[i] == m.tags@[i]@);
        }
        lemma_list_block_dashless(tags);
        assert(dashless_lines("tags:\n"@));
        lemma_dashless_concat("tags:\n"@, list_block(tags));
    }
    assert(dashless_lines(ot));
    assert(dashless_lines("auto_invocable: true\n"@));
    assert(dashless_lines(oa));
    match m.when_to_use {
        Some(w) => {
            lemma_key_line("when_to_use: "@, w@);
        },
        None => {},
    }
    assert(dashless_lines(ow));
    assert(skill_markdown_optional(m) =~= ot + oa + ow);
    lemma_dashless_concat(ot, oa);
    lemma_dashless_concat(ot + oa, ow);
    lemma_dashless_concat(l1, l2);
    lemma_dashless_concat(l1 + l2, l3);
    lemma_dashless_concat(l1 + l2 + l3, l4);
    lemma_dashless_concat(l1 + l2 + l3 + l4, l5);
    lemma_dashless_concat(l1 + l2 + l3 + l4 + l5, skill_markdown_limits(m));
    lemma_dashless_concat(l1 + l2 + l3 + l4 + l5 + skill_markdown_limits(m), skill_markdown_optional(m));
    assert(skill_yaml_lines(m) =~= l1 + l2 + l3 + l4 + l5 + skill_markdown_limits(m) + skill_markdown_optional(m));
}

proof fn lemma_find_at(s: Seq<char>, p: Seq<char>, k: int)
    requires
        0 <= k,
        k + p.len() <= s.len(),
        starts_with(s.skip(k), p),
        forall|i: int| 0 <= i < k ==> !starts_with(#[trigger] s.skip(i), p),
    ensures
        find(s, p) == k,
    decreases k,
{
    if k == 0 {
        assert(s.skip(0) =~= s);
    } else {
        assert(s.skip(0) =~= s);
        assert(!starts_with(s, p));
        let t = s.drop_first();
        assert forall|i: int| 0 <= i < k - 1 implies !starts_with(#[trigger] t.skip(i), p) by {
            assert(t.skip(i) =~= s.skip(i + 1));
        }
        assert(t.skip(k - 1) =~= s.skip(k));
        lemma_find_at(t, p, k - 1);
    }
}

proof fn lemma_ws_counts(s: Seq<char>)
    ensures
        crate::text::lead_ws(s) <= s.len(),
        crate::text::trail_ws(s) <= s.len(),
    decreases s.len(),
{
    if s.len() > 0 {
        lemma_ws_counts(s.drop_first());
        lemma_ws_counts(s.drop_last());
    }
}

/// A trimmed, non-empty text framed by newlines trims back to itself.
proof fn lemma_trim_framed(p: Seq<char>)
    requires
        p.len() > 0,
        trim(p) == p,
    ensures
        trim("\n"@ + p + "\n"@) == p,
{
    reveal_strlit("\n");
    lemma_ws_counts(p);
    let ps = crate::text::trim_start(p);
    lemma_ws_counts(ps);
    assert(crate::text::lead_ws(p) == 0) by {
        if crate::text::lead_ws(p) > 0 {
            assert(ps.len() < p.len());
            assert(trim(p).len() <= ps.len());
        }
    }
    assert(ps =~= p);
    assert(crate::text::trail_ws(p) == 0);
    assert(!crate::text::is_ws(p[0]));
    assert(!crate::text::is_ws(p.last()));
    let q = "\n"@ + p + "\n"@;
    assert(crate::text::is_ws('\n'));
    assert(q.drop_first() =~= p + "\n"@);
    assert((p + "\n"@)[0] == p[0]);
    assert(crate::text::lead_ws(p + "\n"@) == 0);
    assert(crate::text::lead_ws(q) == 1);
    let qs = crate::text::trim_start(q);
    assert(qs =~= p + "\n"@);
    assert(qs.drop_last() =~= p);
    assert(crate::text::trail_ws(qs) == 1);
    assert(trim(q) =~= p);
}

#[verifier::rlimit(50)]
proof fn lemma_markdown_shape(m: SkillManifest)
    ensures
        skill_markdown(m) == "---\n"@ + skill_yaml_lines(m) + "---\n\n"@ + m.system_prompt_template@ + "\n"@,
{
    assert(skill_markdown(m) =~= "---\n"@ + skill_yaml_lines(m) + "---\n\n"@ + m.system_prompt_template@
        + "\n"@);
}

/// The text after the opening `---` of a manifest's file.
#[verifier::rlimit(50)]
proof fn lemma_after_open(m: SkillManifest)
    ensures
        ({
            let c = trim_start(skill_markdown(m));
            &&& starts_with(c, "---"@)
            &&& starts_with(c.skip(3), "\n"@)
            &&& c.skip(3).skip(1) == skill_yaml_lines(m) + "---\n\n"@ + m.system_prompt_template@ + "\n"@
        }),
{
    reveal_strlit("---\n");
    reveal_strlit("---");
    reveal_strlit("\n");
    lemma_markdown_shape(m);
    let content = skill_markdown(m);
    assert(content[0] == '-');
    assert(!crate::text::is_ws('-'));
    assert(crate::text::lead_ws(content) == 0);
    assert(trim_start(content) =~= content);
    assert(content.take(3) =~= "---"@);
    assert(content.skip(3).take(1) =~= "\n"@);
    assert(content.skip(3).skip(1) =~= skill_yaml_lines(m) + "---\n\n"@ + m.system_prompt_template@ + "\n"@);
}

/// A manifest's Markdown file splits back into its frontmatter lines
/// (without the last newline) and a body that trims to its prompt, when
/// the text fields are one-line and the prompt is trimmed and non-empty:
/// what `split_skill_markdown` and `skill_manifest_from_parts` read back
/// from `serialize_skill_markdown`.
#[verifier::rlimit(40)]
pub proof fn lemma_skill_file_round_trip(m: SkillManifest)
    requires
        one_line_fields(m),
        m.system_prompt_template@.len() > 0,
        trim(m.system_prompt_template@) == m.system_prompt_template@,
    ensures
        frontmatter_split(skill_markdown(m)) == Some(
            (skill_yaml_lines(m).drop_last(), "\n"@ + m.system_prompt_template@ + "\n"@),
        ),
        trim("\n"@ + m.system_prompt_template@ + "\n"@) == m.system_prompt_template@,
{
    reveal_strlit("---\n\n");
    reveal_strlit("\n---");
    reveal_strlit("\n");
    lemma_yaml_lines_dashless(m);
    lemma_trim_framed(m.system_prompt_template@);
    lemma_after_open(m);
    let y = skill_yaml_lines(m);
    let p = m.system_prompt_template@;
    let a = y + "---\n\n"@ + p + "\n"@;
    let k = y.len() - 1;
    assert forall|i: int| 0 <= i < k implies !starts_with(#[trigger] a.skip(i), "\n---"@) by {
        if starts_with(a.skip(i), "\n---"@) {
            assert(a.skip(i).take(4)[0] == a[i]);
            assert(a.skip(i).take(4)[1] == a[i + 1]);
            assert(a[i] == y[i]);
            assert(a[i + 1] == y[i + 1]);
        }
    }
    assert(a[k] == '\n');
    assert(a.skip(k).take(4) =~= "\n---"@);
    lemma_find_at(a, "\n---"@, k);
    assert(a.take(k) =~= y.drop_last());
    let r0 = a.skip(k + 4);
    assert(r0 =~= "\n"@ + ("\n"@ + p + "\n"@));
    assert(r0.take(1) =~= "\n"@);
    assert(r0.skip(1) =~= "\n"@ + p + "\n"@);
}

/// Splits a skill file into its YAML frontmatter and its Markdown body.
pub fn split_skill_markdown(content: &str) -> (r: Result<(String, String), SkillLoadError>)
    ensures
        match r {
            Ok((yaml, body)) => frontmatter_split(content@) == Some((yaml@, body@)),
            Err(e) => frontmatter_split(content@) is None && e is MissingFrontmatter,
        },
{
    let v = chars_of(content);
    let start = trim_start_range(&v, 0, v.len());
    assert(v@.subrange(0, v@.len() as int) =~= v@);
    let ghost c = trim_start(content@);
    assert(c =~= v@.skip(start as int));
    let dashes = chars_of("---");
    let nl = chars_of("\n");
    let marker = chars_of("\n---");
    proof {
        reveal_strlit("---");
        reveal_strlit("\n");
        reveal_strlit("\n---");
    }
    if !matches_at(&v, start, &dashes) {
        return Err(SkillLoadError::MissingFrontmatter);
    }
    let mut a = start + 3;
    proof {
        assert(c.skip(3) =~= v@.skip(a as int));
    }
    if matches_at(&v, a, &nl) {
        proof {
            assert(v@.skip(a as int).skip(1) =~= v@.skip(a + 1));
        }
        a = a + 1;
    }
    match find_from(&v, a, &marker) {
        None => Err(SkillLoadError::MissingFrontmatter),
        Some(e) => {
            let yaml = string_of_range(&v, a, e);
            let mut b = e + 4;
            proof {
                assert(v@.skip(a as int).take(e - a) =~= v@.subrange(a as int, e as int));
                assert(v@.skip(a as int).skip(e - a + 4) =~= v@.skip(b as int));
            }
            if matches_at(&v, b, &nl) {
                proof {
                    assert(v@.skip(b as int).skip(1) =~= v@.skip(b + 1));
                }
                b = b + 1;
            }
            let body = string_of_range(&v, b, v.len());
            proof {
                assert(v@.skip(b as int) =~= v@.subrange(b as int, v@.len() as int));
            }
            Ok((yaml, body))
        },
    }
}

/// The manifest a skill file describes: the frontmatter fields and, as
/// system prompt, the trimmed body, which must not be empty.
pub fn skill_manifest_from_parts(fm: SkillFrontmatter, body: &str) -> (r: Result<
    SkillManifest,
    SkillLoadError,
>)
    ensures
        trim(body@).len() == 0 <==> r is Err,
        r is Err ==> r->Err_0 is EmptyPrompt,
        r is Ok ==> {
            let m = r->Ok_0;
            &&& m.system_prompt_template@ == trim(body@)
            &&& m.id == fm.id
            &&& m.name == fm.name
            &&& m.version == fm.version
            &&& m.description == fm.description
            &&& m.allowed_tools == fm.allowed_tools
            &&& m.max_tool_calls == fm.max_tool_calls
            &&& m.timeout_secs == fm.timeout_secs
            &&& m.ui_entry == fm.ui_entry
            &&& m.tags == fm.tags
            &&& m.auto_invocable == fm.auto_invocable
            &&& m.when_to_use == fm.when_to_use
            &&& m.max_tool_result_chars == fm.max_tool_result_chars
        },
{
    let prompt = crate::text::trim_str(body);
    if prompt.unicode_len() == 0 {
        return Err(SkillLoadError::EmptyPrompt);
    }
    Ok(
        SkillManifest {
            id: fm.id,
            name: fm.name,
            version: fm.version,
            description: fm.description,
            system_prompt_template: prompt,
            allowed_tools: fm.allowed_tools,
            max_tool_calls: fm.max_tool_calls,
            timeout_secs: fm.timeout_secs,
            ui_entry: fm.ui_entry,
            tags: fm.tags,
            auto_invocable: fm.auto_invocable,
            when_to_use: fm.when_to_use,
            max_tool_result_chars: fm.max_tool_result_chars,
        },
    )
}

/// A skill as listed to the user.
pub struct SkillListItem {
    pub manifest: SkillManifest,
    pub is_builtin: bool,
}

/// The skills listed to the user.
pub struct ListSkillsResponse {
    pub skills: Vec<SkillListItem>,
}

/// A request to create a custom skill.
pub struct CreateSkillArgs {
    pub manifest: SkillManifest,
}

/// A request to update a custom skill.
pub struct UpdateSkillArgs {
    pub manifest: SkillManifest,
}

/// A request to delete a custom skill.
pub struct DeleteSkillArgs {
    pub skill_id: String,
}

/// A skill file that could not be loaded, and why.
pub struct SkillLoadFailure {
    pub file: String,
    pub error: String,
}

/// The outcome of reloading the custom skills.
pub struct ReloadSkillsResponse {
    pub loaded: Vec<String>,
    pub failed: Vec<SkillLoadFailure>,
}

/// A tool as listed to the user.
pub struct ToolSummary {
    pub name: String,
    pub description: String,
}

/// A request to run a skill.
pub struct InvokeSkillArgs {
    pub skill_id: String,
    pub input: String,
    pub conversation_id: Option<String>,
    pub model: Option<String>,
}

/// The session started for a skill run.
pub struct InvokeSkillResponse {
    pub session_id: String,
    pub skill_id: String,
}

/// The outcome of loading one custom skill file.
pub enum SkillLoadResult {
    /// The id of the loaded skill.
    Loaded(String),
    /// The file that failed and why.
    Failed { file: String, error: String },
}

pub const SKILL_LANGUAGE_MATCH_SYSTEM: &'static str = "IMPORTANT: Always respond in the same language the user writes in. If the user writes in Chinese, respond entirely in Chinese. If the user writes in English, respond in English. Match the user's language exactly.";

/// The opening messages of a skill's own agent turn: the rendered system
/// prompt, the language rule, the discover-before-read hint, then the
/// user's input.
pub fn build_initial_messages(
    manifest: &SkillManifest,
    workspace_name: &str,
    workspace_root: &str,
    user_input: &str,
) -> (r: Vec<crate::message::LlmChatMessage>)
    ensures
        r@.len() == 4,
        crate::message::plain_message(
            r@[0],
            "system"@,
            rendered_prompt(manifest.system_prompt_template@, workspace_name@, workspace_root@),
        ),
        crate::message::plain_message(r@[1], "system"@, SKILL_LANGUAGE_MATCH_SYSTEM@),
        crate::message::plain_message(r@[2], "system"@, crate::agent::TOOL_USE_DISCOVERY_HINT@),
        crate::message::plain_message(r@[3], "user"@, user_input@),
{
    let prompt = manifest.render_system_prompt(workspace_name, workspace_root);
    let mut v: Vec<crate::message::LlmChatMessage> = Vec::new();
    v.push(crate::message::LlmChatMessage::system(prompt.as_str()));
    v.push(crate::message::LlmChatMessage::system(SKILL_LANGUAGE_MATCH_SYSTEM));
    v.push(crate::message::LlmChatMessage::system(crate::agent::TOOL_USE_DISCOVERY_HINT));
    v.push(crate::message::LlmChatMessage::new("user", user_input));
    v
}

/// The positions, in order, of the listed tools whose name is among the
/// allowed ones (a tool without a name is never allowed).
pub open spec fn allowed_positions(names: Seq<Option<String>>, allowed: Seq<Seq<char>>) -> Seq<usize>
    decreases names.len(),
{
    if names.len() == 0 {
        seq![]
    } else {
        let rest = allowed_positions(names.drop_last(), allowed);
        match names.last() {
            Some(n) => if allowed.contains(n@) {
                rest.push((names.len() - 1) as usize)
            } else {
                rest
            },
            None => rest,
        }
    }
}

/// Narrows the tool list offered to the model down to a skill's whitelist:
/// given the name of each listed tool, the positions of those to keep.
/// Names that the whitelist holds but the list lacks are skipped.
pub fn filter_tools_for_skill(tool_names: &Vec<Option<String>>, manifest: &SkillManifest) -> (r: Vec<
    usize,
>)
    ensures
        r@ == allowed_positions(tool_names@, strs(manifest.allowed_tools@)),
{
    let mut out: Vec<usize> = Vec::new();
    let mut i: usize = 0;
    while i < tool_names.len()
        invariant
            i <= tool_names.len(),
            out@ == allowed_positions(tool_names@.take(i as int), strs(manifest.allowed_tools@)),
        decreases tool_names.len() - i,
    {
        proof {
            assert(tool_names@.take(i + 1).drop_last() =~= tool_names@.take(i as int));
            assert(tool_names@.take(i + 1).last() == tool_names@[i as int]);
        }
        match &tool_names[i] {
            Some(n) => {
                if crate::text::contains_string(&manifest.allowed_tools, n.as_str()) {
                    out.push(i);
                }
            },
            None => {},
        }
        i += 1;
    }
    proof {
        assert(tool_names@.take(tool_names@.len() as int) =~= tool_names@);
    }
    out
}

/// Skills run at most this deep: a skill cannot invoke another skill.
pub const MAX_NESTING_DEPTH: u8 = 1;

/// At most this many auto-invoked skills run at once.
pub const SKILL_CONCURRENCY: usize = 3;

/// Why a skill invocation is refused before it starts.
pub open spec fn invoke_refusal(nesting_depth: u8, input: Option<Seq<char>>) -> Option<(
    crate::agent::ToolErrorCode,
    Seq<char>,
)> {
    if nesting_depth >= MAX_NESTING_DEPTH {
        Some(
            (
                crate::agent::ToolErrorCode::PermissionDenied,
                "skills cannot invoke other skills (nesting depth exceeded)"@,
            ),
        )
    } else {
        match input {
            Some(i) if trim(i).len() > 0 => None,
            _ => Some((crate::agent::ToolErrorCode::InvalidInput, "missing required string field `input`"@)),
        }
    }
}

/// The first checks of a `skill.<id>` call: the nesting depth, then the
/// string field `input` (`None` when absent or not a string), which must
/// not be blank; gives the trimmed input.
pub fn skill_invocation_input(nesting_depth: u8, input: Option<&str>) -> (r: Result<
    String,
    crate::agent::ToolResult,
>)
    ensures
        match invoke_refusal(nesting_depth, crate::text::opt_chars(input)) {
            Some((code, msg)) => r matches Err(crate::agent::ToolResult::Failure { error }) && error.code
                == code && error.message@ == msg && !error.retryable && error.cause is None,
            None => r matches Ok(t) && t@ == trim(input->0@),
        },
{
    if nesting_depth >= MAX_NESTING_DEPTH {
        return Err(
            crate::agent::tool_err(
                crate::agent::ToolErrorCode::PermissionDenied,
                "skills cannot invoke other skills (nesting depth exceeded)",
            ),
        );
    }
    match input {
        Some(i) => {
            let t = crate::text::trim_str(i);
            if t.unicode_len() > 0 {
                return Ok(t);
            }
        },
        None => {},
    }
    Err(crate::agent::tool_err(crate::agent::ToolErrorCode::InvalidInput, "missing required string field `input`"))
}

/// The model a skill runs on: the last used model unless blank, else the
/// default model unless blank (kept as written).
pub open spec fn skill_model_spec(last_used: Option<Seq<char>>, default_model: Seq<char>) -> Option<Seq<char>> {
    match last_used {
        Some(l) if trim(l).len() > 0 => Some(l),
        _ => if trim(default_model).len() > 0 {
            Some(default_model)
        } else {
            None
        },
    }
}

/// Picks the model for a skill run.
pub fn skill_model(last_used: Option<&str>, default_model: &str) -> (r: Option<String>)
    ensures
        crate::text::opt_string(r) == skill_model_spec(crate::text::opt_chars(last_used), default_model@),
{
    match last_used {
        Some(l) => {
            let t = crate::text::trim_str(l);
            if t.unicode_len() > 0 {
                return Some(to_owned_str(l));
            }
        },
        None => {},
    }
    let d = crate::text::trim_str(default_model);
    if d.unicode_len() > 0 {
        Some(to_owned_str(default_model))
    } else {
        None
    }
}

pub const SKILL_ACK_NOTE: &'static str = "Skill output streamed to user. Acknowledge briefly without repeating its content.";

pub const SKILL_SUMMARY_NOTE: &'static str = "Skill output was streamed to the user separately. The 'summary' field above is the skill's full reply — you may reference its recommendations when continuing, but do not repeat it verbatim.";

/// What the parent model is told when a skill finished: the trimmed reply
/// as its summary with a note not to repeat it, or, when the reply is blank
/// (cancelled, failed, out of budget), only a note to acknowledge it.
pub fn skill_reply_summary(reply: &str) -> (r: (Option<String>, &'static str))
    ensures
        trim(reply@).len() == 0 ==> r.0 is None && r.1@ == SKILL_ACK_NOTE@,
        trim(reply@).len() > 0 ==> (r.0 matches Some(s) && s@ == trim(reply@)) && r.1@
            == SKILL_SUMMARY_NOTE@,
{
    let t = crate::text::trim_str(reply);
    if t.unicode_len() == 0 {
        (None, SKILL_ACK_NOTE)
    } else {
        (Some(t), SKILL_SUMMARY_NOTE)
    }
}


/// The JSON object with the given `(key, string)` members (as
/// `serde_json::Map` collects them).
pub uninterp spec fn json_string_object(members: Seq<(Seq<char>, Seq<char>)>) -> serde_json::Value;

/// Collects `(key, string)` pairs into a `serde_json::Map` (its
/// `FromIterator` impl) and wraps it as `serde_json::Value::Object`; the
/// result is named, as a function of the pairs.
#[verifier::external_body]
pub(crate) fn string_object(members: Vec<(String, String)>) -> (r: serde_json::Value)
    ensures
        r == json_string_object(members@.map_values(|m: (String, String)| (m.0@, m.1@))),
{
    serde_json::Value::Object(members.into_iter().map(|(k, v)| (k, serde_json::Value::String(v))).collect())
}

/// The members of a finished skill's result: `status` completed, the skill
/// id, the trimmed reply as `summary` when it is not blank, and the note.
pub open spec fn skill_result_members(skill_id: Seq<char>, reply: Seq<char>) -> Seq<(Seq<char>, Seq<char>)> {
    let head = seq![("status"@, "completed"@), ("skill_id"@, skill_id)];
    if trim(reply).len() == 0 {
        head.push(("note"@, SKILL_ACK_NOTE@))
    } else {
        head.push(("summary"@, trim(reply))).push(("note"@, SKILL_SUMMARY_NOTE@))
    }
}

/// The tool result of a finished skill run, from its final reply.
pub fn skill_tool_result(skill_id: &str, reply: &str) -> (r: crate::agent::ToolResult)
    ensures
        r matches crate::agent::ToolResult::Success { data, redacted_count, warnings }
            && data == json_string_object(skill_result_members(skill_id@, reply@)) && redacted_count == 0
            && warnings@.len() == 0,
{
    let (summary, note) = skill_reply_summary(reply);
    let mut members: Vec<(String, String)> = Vec::new();
    members.push((to_owned_str("status"), to_owned_str("completed")));
    members.push((to_owned_str("skill_id"), to_owned_str(skill_id)));
    match summary {
        Some(t) => members.push((to_owned_str("summary"), t)),
        None => {},
    }
    members.push((to_owned_str("note"), to_owned_str(note)));
    proof {
        assert(members@.map_values(|m: (String, String)| (m.0@, m.1@)) =~= skill_result_members(
            skill_id@,
            reply@,
        ));
    }
    let data = string_object(members);
    crate::agent::ToolResult::Success { data, redacted_count: 0, warnings: Vec::new() }
}


/// The error of a call to a skill that is not (or no longer) registered.
pub fn skill_not_registered(skill_id: &str) -> (r: crate::agent::ToolResult)
    ensures
        r matches crate::agent::ToolResult::Failure { error } && error.code
            == crate::agent::ToolErrorCode::NotFound && error.message@ == "skill not registered: "@
            + skill_id@ && !error.retryable && error.cause is None,
{
    let mut m = to_owned_str("skill not registered: ");
    push_str(&mut m, skill_id);
    crate::agent::tool_err(crate::agent::ToolErrorCode::NotFound, m.as_str())
}

/// The error of a skill call whose AI settings could not be read.
pub fn skill_config_error(reason: &str) -> (r: crate::agent::ToolResult)
    ensures
        r matches crate::agent::ToolResult::Failure { error } && error.code
            == crate::agent::ToolErrorCode::Internal && error.message@ == "ai config: "@ + reason@
            && !error.retryable && error.cause is None,
{
    let mut m = to_owned_str("ai config: ");
    push_str(&mut m, reason);
    crate::agent::tool_err(crate::agent::ToolErrorCode::Internal, m.as_str())
}

pub const OPENAI_SKILLS_UNSUPPORTED: &'static str = "OpenAI provider is not implemented yet.";

pub const NO_SKILL_MODEL: &'static str = "No model selected. Choose a model in settings.";

/// The last checks of a skill call, once its settings are read: skills do
/// not run on the OpenAI provider; otherwise the model is the last used one
/// unless blank, else the default one unless blank, else the call fails.
pub fn skill_run_model(openai_active: bool, last_used: Option<&str>, default_model: &str) -> (r: Result<
    String,
    crate::agent::ToolResult,
>)
    ensures
        openai_active ==> (r matches Err(crate::agent::ToolResult::Failure { error }) && error.code
            == crate::agent::ToolErrorCode::Internal && error.message@ == OPENAI_SKILLS_UNSUPPORTED@
            && !error.retryable && error.cause is None),
        !openai_active ==> match skill_model_spec(crate::text::opt_chars(last_used), default_model@) {
            Some(m) => r matches Ok(s) && s@ == m,
            None => r matches Err(crate::agent::ToolResult::Failure { error }) && error.code
                == crate::agent::ToolErrorCode::Internal && error.message@ == NO_SKILL_MODEL@
                && !error.retryable && error.cause is None,
        },
{
    if openai_active {
        return Err(crate::agent::tool_err(crate::agent::ToolErrorCode::Internal, OPENAI_SKILLS_UNSUPPORTED));
    }
    match skill_model(last_used, default_model) {
        Some(m) => Ok(m),
        None => Err(crate::agent::tool_err(crate::agent::ToolErrorCode::Internal, NO_SKILL_MODEL)),
    }
}

} // verus!
