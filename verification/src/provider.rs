//! Model selection and the tool-name mapping used at the chat API boundary.
use vstd::prelude::*;

use crate::text::{
    find, join, opt_chars, opt_string, replace, replace_str, split, starts_with, trim, trim_str,
};

verus! {

/// The model a provider profile resolves to: the trimmed last-used model if
/// it is not blank, else the trimmed default model if that is not blank.
pub open spec fn resolved_model(last_used: Option<Seq<char>>, default_model: Seq<char>) -> Option<
    Seq<char>,
> {
    match last_used {
        Some(l) if trim(l).len() > 0 => Some(trim(l)),
        _ => if trim(default_model).len() > 0 {
            Some(trim(default_model))
        } else {
            None
        },
    }
}

/// Picks the model name: the last used one when set, else the default.
pub fn resolve_model_name(last_used: Option<&str>, default_model: &str) -> (r: Option<String>)
    ensures
        opt_string(r) == resolved_model(opt_chars(last_used), default_model@),
{
    if let Some(l) = last_used {
        let t = trim_str(l);
        if t.unicode_len() > 0 {
            return Some(t);
        }
    }
    let d = trim_str(default_model);
    if d.unicode_len() > 0 {
        Some(d)
    } else {
        None
    }
}

/// The API-side name of an internal tool name: `'.'` becomes `'-'`.
pub open spec fn api_tool_name(internal: Seq<char>) -> Seq<char> {
    replace(internal, seq!['.'], seq!['-'])
}

/// The internal name of an API-side tool name: `'-'` becomes `'.'`.
pub open spec fn internal_tool_name(api: Seq<char>) -> Seq<char> {
    replace(api, seq!['-'], seq!['.'])
}

/// Maps an internal tool name (`note.read`) to the API form (`note-read`).
pub fn to_api_tool_name(internal: &str) -> (r: String)
    ensures
        r@ == api_tool_name(internal@),
{
    let dot = ".";
    let dash = "-";
    proof {
        reveal_strlit(".");
        reveal_strlit("-");
        assert(dot@ =~= seq!['.']);
        assert(dash@ =~= seq!['-']);
    }
    replace_str(internal, dot, dash)
}

/// Maps an API-side tool name (`note-read`) back to the internal form.
pub fn from_api_tool_name(api: &str) -> (r: String)
    ensures
        r@ == internal_tool_name(api@),
{
    let dot = ".";
    let dash = "-";
    proof {
        reveal_strlit(".");
        reveal_strlit("-");
        assert(dot@ =~= seq!['.']);
        assert(dash@ =~= seq!['-']);
    }
    replace_str(api, dash, dot)
}

/// `s` with every `a` replaced by `b`, character by character.
pub open spec fn swap_char(s: Seq<char>, a: char, b: char) -> Seq<char> {
    s.map_values(|c: char| if c == a {
        b
    } else {
        c
    })
}

proof fn lemma_find_char(s: Seq<char>, a: char)
    ensures
        find(s, seq![a]) < 0 ==> forall|j: int| 0 <= j < s.len() ==> s[j] != a,
        find(s, seq![a]) >= 0 ==> find(s, seq![a]) < s.len() && s[find(s, seq![a])] == a
            && forall|j: int| 0 <= j < find(s, seq![a]) ==> s[j] != a,
    decreases s.len(),
{
    if s.len() >= 1 {
        if starts_with(s, seq![a]) {
            assert(s.take(1)[0] == s[0]);
        } else {
            assert(s.take(1) =~= seq![s[0]]);
            lemma_find_char(s.drop_first(), a);
            assert forall|j: int| 1 <= j < s.len() implies s[j] == s.drop_first()[j - 1] by {}
        }
    }
}

proof fn lemma_join_cons(x: Seq<char>, rest: Seq<Seq<char>>, sep: Seq<char>)
    requires
        rest.len() > 0,
    ensures
        join(seq![x] + rest, sep) == x + sep + join(rest, sep),
    decreases rest.len(),
{
    let all = seq![x] + rest;
    assert(all.drop_last() =~= seq![x] + rest.drop_last());
    assert(all.last() == rest.last());
    if rest.len() == 1 {
        assert(seq![x] + rest.drop_last() =~= seq![x]);
        assert(join(seq![x], sep) == x);
        assert(join(rest, sep) == rest[0]);
        assert(join(all, sep) == join(all.drop_last(), sep) + sep + all.last());
    } else {
        lemma_join_cons(x, rest.drop_last(), sep);
        assert(join(all, sep) == join(all.drop_last(), sep) + sep + all.last());
        assert(join(rest, sep) == join(rest.drop_last(), sep) + sep + rest.last());
        assert(join(all, sep) =~= x + sep + join(rest, sep));
    }
}

/// Replacing a single character by another is a character-wise swap.
proof fn lemma_replace_char(s: Seq<char>, a: char, b: char)
    ensures
        replace(s, seq![a], seq![b]) == swap_char(s, a, b),
    decreases s.len(),
{
    lemma_find_char(s, a);
    let i = find(s, seq![a]);
    if i < 0 {
        assert(swap_char(s, a, b) =~= s);
    } else {
        let rest = s.skip(i + 1);
        lemma_replace_char(rest, a, b);
        let tail = split(rest, seq![a]);
        assert(split(s, seq![a]) == seq![s.take(i)] + tail);
        assert(tail.len() > 0);
        lemma_join_cons(s.take(i), tail, seq![b]);
        assert(swap_char(s.take(i), a, b) =~= s.take(i));
        assert(swap_char(s, a, b) =~= swap_char(s.take(i), a, b) + seq![b] + swap_char(rest, a, b));
    }
}

/// Internal names without `'-'` survive the round trip to the API form and
/// back.
pub proof fn lemma_tool_name_round_trip(name: Seq<char>)
    requires
        forall|j: int| 0 <= j < name.len() ==> name[j] != '-',
    ensures
        internal_tool_name(api_tool_name(name)) == name,
{
    lemma_replace_char(name, '.', '-');
    lemma_replace_char(swap_char(name, '.', '-'), '-', '.');
    assert(swap_char(swap_char(name, '.', '-'), '-', '.') =~= name);
}

/// The API form of a tool name holds no `'.'` (API tool names may not).
pub proof fn lemma_api_tool_name_has_no_dot(name: Seq<char>)
    ensures
        api_tool_name(name).len() == name.len(),
        forall|j: int| 0 <= j < api_tool_name(name).len() ==> api_tool_name(name)[j] != '.',
{
    lemma_replace_char(name, '.', '-');
}

/// The kinds of chat providers, by how they label a tool result.
#[derive(Debug, Clone, Copy, PartialEq, Eq, Structural)]
pub enum ProviderKind {
    /// OpenAI-compatible APIs: a tool result names the call it answers.
    OpenAiCompatible,
    /// Ollama: a tool result names the tool.
    Ollama,
}

/// The `role=tool` message that carries a tool result back to the model.
pub fn build_tool_result_message(kind: ProviderKind, call_id: &str, tool_name: &str, content: &str) -> (r:
    crate::message::LlmChatMessage)
    ensures
        r.role@ == "tool"@,
        r.content@ == content@,
        r.tool_calls is None,
        kind == ProviderKind::OpenAiCompatible ==> r.tool_name is None && (r.tool_call_id matches Some(
            c,
        ) && c@ == call_id@),
        kind == ProviderKind::Ollama ==> r.tool_call_id is None && (r.tool_name matches Some(t) && t@
            == tool_name@),
{
    match kind {
        ProviderKind::OpenAiCompatible => crate::message::LlmChatMessage {
            role: crate::text::to_owned_str("tool"),
            content: crate::text::to_owned_str(content),
            tool_calls: None,
            tool_name: None,
            tool_call_id: Some(crate::text::to_owned_str(call_id)),
        },
        ProviderKind::Ollama => crate::message::LlmChatMessage {
            role: crate::text::to_owned_str("tool"),
            content: crate::text::to_owned_str(content),
            tool_calls: None,
            tool_name: Some(crate::text::to_owned_str(tool_name)),
            tool_call_id: None,
        },
    }
}

/// A tool call as an OpenAI-compatible request carries it.
pub struct WireToolCall {
    pub id: String,
    /// The API-side tool name.
    pub name: String,
    /// The JSON text of the arguments.
    pub arguments: String,
}

/// A message as an OpenAI-compatible request carries it; a `content` of
/// `None` is sent as `null`.
pub struct WireMessage {
    pub role: String,
    pub content: Option<String>,
    pub tool_call_id: Option<String>,
    pub tool_calls: Option<Vec<WireToolCall>>,
}

/// The wire content of a message: a tool message's content as it is;
/// otherwise the content, or, when it is empty, `""` without tool calls and
/// `null` with some.
pub open spec fn wire_content(m: crate::message::LlmChatMessage) -> Option<Seq<char>> {
    if m.role@ == "tool"@ || m.content@.len() > 0 {
        Some(m.content@)
    } else {
        match m.tool_calls {
            Some(v) if v@.len() > 0 => None,
            _ => Some(seq![]),
        }
    }
}

/// Puts a message in the OpenAI-compatible request shape. `argument_texts`
/// holds the JSON text of each tool call's arguments (the arguments
/// themselves when they are a string).
pub fn to_wire_message(m: &crate::message::LlmChatMessage, argument_texts: &Vec<String>) -> (r: WireMessage)
    requires
        m.tool_calls matches Some(v) ==> argument_texts@.len() == v@.len(),
    ensures
        r.role@ == m.role@,
        opt_string(r.content) == wire_content(*m),
        m.role@ == "tool"@ ==> opt_string(r.tool_call_id) == opt_string(m.tool_call_id) && r.tool_calls is None,
        m.role@ != "tool"@ ==> r.tool_call_id is None && (r.tool_calls is Some <==> m.tool_calls is Some),
        m.role@ != "tool"@ ==> (r.tool_calls matches Some(w) ==> (m.tool_calls matches Some(v) && w@.len()
            == v@.len() && forall|i: int|
            0 <= i < w@.len() ==> (#[trigger] w@[i]).id@ == v@[i].id@ && w@[i].name@ == api_tool_name(
                v@[i].function.name@,
            ) && w@[i].arguments@ == argument_texts@[i]@)),
{
    let role = crate::text::to_owned_str(m.role.as_str());
    if crate::text::str_eq(m.role.as_str(), "tool") {
        let id = match &m.tool_call_id {
            Some(c) => Some(crate::text::to_owned_str(c.as_str())),
            None => None,
        };
        return WireMessage {
            role,
            content: Some(crate::text::to_owned_str(m.content.as_str())),
            tool_call_id: id,
            tool_calls: None,
        };
    }
    let content = if m.content.unicode_len() > 0 {
        Some(crate::text::to_owned_str(m.content.as_str()))
    } else {
        match &m.tool_calls {
            Some(v) => {
                if v.len() > 0 {
                    None
                } else {
                    Some(String::new())
                }
            },
            None => Some(String::new()),
        }
    };
    let calls = match &m.tool_calls {
        Some(v) => {
            let mut out: Vec<WireToolCall> = Vec::new();
            let mut i: usize = 0;
            while i < v.len()
                invariant
                    i <= v.len(),
                    argument_texts@.len() == v@.len(),
                    out@.len() == i,
                    forall|j: int|
                        0 <= j < i ==> (#[trigger] out@[j]).id@ == v@[j].id@ && out@[j].name@
                            == api_tool_name(v@[j].function.name@) && out@[j].arguments@
                            == argument_texts@[j]@,
                decreases v.len() - i,
            {
                out.push(
                    WireToolCall {
                        id: crate::text::to_owned_str(v[i].id.as_str()),
                        name: to_api_tool_name(v[i].function.name.as_str()),
                        arguments: crate::text::to_owned_str(argument_texts[i].as_str()),
                    },
                );
                i += 1;
            }
            Some(out)
        },
        None => None,
    };
    WireMessage { role, content, tool_call_id: None, tool_calls: calls }
}

/// The shortest timeout of a one-shot Ollama completion, in milliseconds.
pub const MIN_COMPLETION_TIMEOUT_MS: u64 = 3000;

/// The longest timeout of a one-shot Ollama completion, in milliseconds.
pub const MAX_COMPLETION_TIMEOUT_MS: u64 = 45000;

/// The timeout of a one-shot Ollama completion: the configured one, kept
/// between `MIN_COMPLETION_TIMEOUT_MS` and `MAX_COMPLETION_TIMEOUT_MS`.
pub fn completion_timeout_ms(timeout_ms: u64) -> (r: u64)
    ensures
        r == if timeout_ms < MIN_COMPLETION_TIMEOUT_MS {
            MIN_COMPLETION_TIMEOUT_MS
        } else if timeout_ms > MAX_COMPLETION_TIMEOUT_MS {
            MAX_COMPLETION_TIMEOUT_MS
        } else {
            timeout_ms
        },
{
    if timeout_ms < MIN_COMPLETION_TIMEOUT_MS {
        MIN_COMPLETION_TIMEOUT_MS
    } else if timeout_ms > MAX_COMPLETION_TIMEOUT_MS {
        MAX_COMPLETION_TIMEOUT_MS
    } else {
        timeout_ms
    }
}

/// The timeout of an Ollama HTTP client: the configured one, at least one
/// second.
pub fn client_timeout_ms(timeout_ms: u64) -> (r: u64)
    ensures
        r == if timeout_ms < 1000 {
            1000
        } else {
            timeout_ms
        },
{
    if timeout_ms < 1000 {
        1000
    } else {
        timeout_ms
    }
}

} // verus!
