//! Chat messages exchanged with the language model.
use vstd::prelude::*;

use crate::text::{opt_string, push_str, starts_with, str_eq, str_starts_with, to_owned_str};

verus! {

#[verifier::external_type_specification]
#[verifier::external_body]
pub struct ExJsonValue(serde_json::Value);

/// `serde_json::Value::clone` (derived): the copy equals the original.
pub assume_specification[ <serde_json::Value as Clone>::clone ](v: &serde_json::Value) -> (r:
    serde_json::Value)
    ensures
        r == *v,
;

/// The function part of a tool call: tool name and JSON arguments.
#[derive(Debug, Clone)]
pub struct LlmToolCallFunction {
    pub name: String,
    pub arguments: serde_json::Value,
}

/// A tool call requested by the model.
#[derive(Debug, Clone)]
pub struct LlmToolCall {
    pub id: String,
    pub function: LlmToolCallFunction,
}

/// One message of a conversation.
#[derive(Debug, Clone)]
pub struct LlmChatMessage {
    pub role: String,
    pub content: String,
    pub tool_calls: Option<Vec<LlmToolCall>>,
    pub tool_name: Option<String>,
    pub tool_call_id: Option<String>,
}

/// A message with the given role and content and no tool fields.
pub open spec fn plain_message(m: LlmChatMessage, role: Seq<char>, content: Seq<char>) -> bool {
    &&& m.role@ == role
    &&& m.content@ == content
    &&& m.tool_calls is None
    &&& m.tool_name is None
    &&& m.tool_call_id is None
}

impl LlmChatMessage {
    /// A message with the given role and content.
    pub fn new(role: &str, content: &str) -> (m: Self)
        ensures
            plain_message(m, role@, content@),
    {
        LlmChatMessage {
            role: to_owned_str(role),
            content: to_owned_str(content),
            tool_calls: None,
            tool_name: None,
            tool_call_id: None,
        }
    }

    /// A `system` message.
    pub fn system(content: &str) -> (m: Self)
        ensures
            plain_message(m, "system"@, content@),
    {
        Self::new("system", content)
    }
}

impl Default for LlmChatMessage {
    fn default() -> (m: Self)
        ensures
            plain_message(m, seq![], seq![]),
    {
        LlmChatMessage {
            role: String::new(),
            content: String::new(),
            tool_calls: None,
            tool_name: None,
            tool_call_id: None,
        }
    }
}

/// What a tool call holds: id, tool name and arguments.
pub open spec fn call_view(c: LlmToolCall) -> (Seq<char>, Seq<char>, serde_json::Value) {
    (c.id@, c.function.name@, c.function.arguments)
}

/// What the tool calls of a message hold.
pub open spec fn calls_view(o: Option<Vec<LlmToolCall>>) -> Option<
    Seq<(Seq<char>, Seq<char>, serde_json::Value)>,
> {
    match o {
        Some(v) => Some(v@.map_values(|c: LlmToolCall| call_view(c))),
        None => None,
    }
}

/// What a message holds: role, content, tool calls, tool name and call id.
pub type MessageView = (
    Seq<char>,
    Seq<char>,
    Option<Seq<(Seq<char>, Seq<char>, serde_json::Value)>>,
    Option<Seq<char>>,
    Option<Seq<char>>,
);

/// The view of a message.
pub open spec fn mview(m: LlmChatMessage) -> MessageView {
    (m.role@, m.content@, calls_view(m.tool_calls), opt_string(m.tool_name), opt_string(m.tool_call_id))
}

/// The views of a list of messages.
pub open spec fn mviews(s: Seq<LlmChatMessage>) -> Seq<MessageView> {
    s.map_values(|m: LlmChatMessage| mview(m))
}

/// A message view with its content replaced.
pub open spec fn with_content(v: MessageView, c: Seq<char>) -> MessageView {
    (v.0, c, v.2, v.3, v.4)
}

/// The view of a plain system message.
pub open spec fn system_view(c: Seq<char>) -> MessageView {
    ("system"@, c, None, None, None)
}

/// `m` has role `role`.
pub open spec fn has_role(m: LlmChatMessage, role: Seq<char>) -> bool {
    m.role@ == role
}

/// `m` is a system message whose content starts with `header`.
pub open spec fn is_headed_system(m: LlmChatMessage, header: Seq<char>) -> bool {
    m.role@ == "system"@ && starts_with(m.content@, header)
}

/// Whether a message has the given role.
pub fn role_is(m: &LlmChatMessage, role: &str) -> (r: bool)
    ensures
        r == (m.role@ == role@),
{
    str_eq(m.role.as_str(), role)
}

/// Whether a message is a system message whose content starts with `header`.
pub fn headed_system(m: &LlmChatMessage, header: &str) -> (r: bool)
    ensures
        r == is_headed_system(*m, header@),
{
    proof {
        reveal_strlit("system");
    }
    role_is(m, "system") && str_starts_with(m.content.as_str(), header)
}

/// Index of the first message satisfying `is_headed_system(_, header)`,
/// or -1.
pub open spec fn first_headed(msgs: Seq<LlmChatMessage>, header: Seq<char>) -> int
    decreases msgs.len(),
{
    if msgs.len() == 0 {
        -1
    } else if is_headed_system(msgs[0], header) {
        0
    } else {
        let r = first_headed(msgs.drop_first(), header);
        if r < 0 {
            -1
        } else {
            r + 1
        }
    }
}

pub proof fn lemma_first_headed(msgs: Seq<LlmChatMessage>, header: Seq<char>, i: int)
    requires
        0 <= i <= msgs.len(),
        forall|j: int| 0 <= j < i ==> !is_headed_system(#[trigger] msgs[j], header),
    ensures
        i < msgs.len() && is_headed_system(msgs[i], header) ==> first_headed(msgs, header) == i,
        i == msgs.len() ==> first_headed(msgs, header) == -1,
    decreases i,
{
    if i > 0 {
        lemma_first_headed(msgs.drop_first(), header, i - 1);
        assert(forall|j: int| 0 <= j < i - 1 ==> msgs.drop_first()[j] == msgs[j + 1]);
    } else if msgs.len() > 0 {
    }
}

pub proof fn lemma_first_headed_props(msgs: Seq<LlmChatMessage>, header: Seq<char>)
    ensures
        -1 <= first_headed(msgs, header) < msgs.len(),
        first_headed(msgs, header) >= 0 ==> is_headed_system(
            msgs[first_headed(msgs, header)],
            header,
        ),
        forall|j: int|
            0 <= j < first_headed(msgs, header) ==> !is_headed_system(#[trigger] msgs[j], header),
        first_headed(msgs, header) < 0 ==> forall|j: int|
            0 <= j < msgs.len() ==> !is_headed_system(#[trigger] msgs[j], header),
    decreases msgs.len(),
{
    if msgs.len() > 0 && !is_headed_system(msgs[0], header) {
        let t = msgs.drop_first();
        lemma_first_headed_props(t, header);
        assert forall|j: int|
            0 <= j < first_headed(msgs, header) implies !is_headed_system(
            #[trigger] msgs[j],
            header,
        ) by {
            if j > 0 {
                assert(msgs[j] == t[j - 1]);
            }
        }
        assert forall|j: int|
            first_headed(msgs, header) < 0 && 0 <= j < msgs.len() implies !is_headed_system(
            #[trigger] msgs[j],
            header,
        ) by {
            if j > 0 {
                assert(msgs[j] == t[j - 1]);
            }
        }
    }
}

/// The index of the first system message starting with `header`.
pub fn find_headed(msgs: &Vec<LlmChatMessage>, header: &str) -> (r: Option<usize>)
    ensures
        match r {
            Some(i) => first_headed(msgs@, header@) == i,
            None => first_headed(msgs@, header@) == -1,
        },
{
    let mut i: usize = 0;
    while i < msgs.len()
        invariant
            i <= msgs.len(),
            forall|j: int| 0 <= j < i ==> !is_headed_system(#[trigger] msgs@[j], header@),
        decreases msgs.len() - i,
    {
        if headed_system(&msgs[i], header) {
            proof {
                lemma_first_headed(msgs@, header@, i as int);
            }
            return Some(i);
        }
        i += 1;
    }
    proof {
        lemma_first_headed(msgs@, header@, i as int);
    }
    None
}

/// Replaces the content of message `i`, keeping its other fields.
pub fn set_content(msgs: &mut Vec<LlmChatMessage>, i: usize, content: String)
    requires
        i < old(msgs).len(),
    ensures
        final(msgs)@.len() == old(msgs)@.len(),
        final(msgs)@[i as int].content == content,
        final(msgs)@[i as int].role == old(msgs)@[i as int].role,
        final(msgs)@[i as int].tool_calls == old(msgs)@[i as int].tool_calls,
        final(msgs)@[i as int].tool_name == old(msgs)@[i as int].tool_name,
        final(msgs)@[i as int].tool_call_id == old(msgs)@[i as int].tool_call_id,
        forall|j: int| 0 <= j < final(msgs)@.len() && j != i ==> final(msgs)@[j] == old(msgs)@[j],
        mviews(final(msgs)@) == mviews(old(msgs)@).update(
            i as int,
            with_content(mview(old(msgs)@[i as int]), content@),
        ),
{
    let ghost before = msgs@;
    let mut m = msgs.remove(i);
    m.content = content;
    msgs.insert(i, m);
    proof {
        assert(mviews(msgs@) =~= mviews(before).update(
            i as int,
            with_content(mview(before[i as int]), content@),
        ));
    }
}

/// A copy of a tool call.
fn copy_tool_call(c: &LlmToolCall) -> (r: LlmToolCall)
    ensures
        call_view(r) == call_view(*c),
{
    LlmToolCall {
        id: to_owned_str(c.id.as_str()),
        function: LlmToolCallFunction {
            name: to_owned_str(c.function.name.as_str()),
            arguments: c.function.arguments.clone(),
        },
    }
}

/// A copy of an optional string.
fn copy_opt_string(o: &Option<String>) -> (r: Option<String>)
    ensures
        opt_string(r) == opt_string(*o),
{
    match o {
        Some(s) => Some(to_owned_str(s.as_str())),
        None => None,
    }
}

/// A copy of a message.
pub fn copy_message(m: &LlmChatMessage) -> (r: LlmChatMessage)
    ensures
        mview(r) == mview(*m),
{
    let tool_calls = match &m.tool_calls {
        Some(v) => {
            let mut out: Vec<LlmToolCall> = Vec::new();
            let mut i: usize = 0;
            while i < v.len()
                invariant
                    i <= v.len(),
                    out@.map_values(|c: LlmToolCall| call_view(c)) == v@.take(i as int).map_values(
                        |c: LlmToolCall| call_view(c),
                    ),
                decreases v.len() - i,
            {
                let ghost before = out@;
                let c = copy_tool_call(&v[i]);
                out.push(c);
                proof {
                    assert(out@.map_values(|c: LlmToolCall| call_view(c)) =~= before.map_values(
                        |c: LlmToolCall| call_view(c),
                    ).push(call_view(v@[i as int])));
                    assert(v@.take(i + 1).map_values(|c: LlmToolCall| call_view(c)) =~= v@.take(
                        i as int,
                    ).map_values(|c: LlmToolCall| call_view(c)).push(call_view(v@[i as int])));
                }
                i += 1;
            }
            proof {
                assert(v@.take(v@.len() as int) =~= v@);
            }
            Some(out)
        },
        None => None,
    };
    LlmChatMessage {
        role: to_owned_str(m.role.as_str()),
        content: to_owned_str(m.content.as_str()),
        tool_calls,
        tool_name: copy_opt_string(&m.tool_name),
        tool_call_id: copy_opt_string(&m.tool_call_id),
    }
}

} // verus!
