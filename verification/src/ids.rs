//! Fresh identifiers: random UUIDs for sessions, approvals and rebuilds,
//! time-ordered ones for tool calls the model sent without an id, and the
//! ids of seeded thoughts.
use vstd::prelude::*;

use crate::text::{chars_of, push_char, push_str, to_owned_str};

verus! {

/// A lower-case hexadecimal digit.
pub open spec fn is_lower_hex(c: char) -> bool {
    ('0' <= c && c <= '9') || ('a' <= c && c <= 'f')
}

/// The positions of the hyphens in the `8-4-4-4-12` form.
pub open spec fn is_uuid_hyphen_pos(i: int) -> bool {
    i == 8 || i == 13 || i == 18 || i == 23
}

/// The hyphenated lower-case form of a UUID with version digit `version`:
/// 36 characters, hyphens at 8, 13, 18 and 23, hexadecimal digits
/// elsewhere, the version at 14.
pub open spec fn is_uuid_text(s: Seq<char>, version: char) -> bool {
    &&& s.len() == 36
    &&& forall|i: int|
        0 <= i < 36 ==> if is_uuid_hyphen_pos(i) {
            #[trigger] s[i] == '-'
        } else {
            is_lower_hex(s[i])
        }
    &&& s[14] == version
}

/// `uuid::Uuid::new_v4`, written with `to_string`: a random version-4
/// UUID in its hyphenated lower-case form. Only the form is stated; the
/// value is random.
#[verifier::external_body]
fn uuid_v4_text() -> (r: String)
    ensures
        is_uuid_text(r@, '4'),
{
    uuid::Uuid::new_v4().to_string()
}

/// `uuid::Uuid::now_v7`, written with `to_string`: a version-7 UUID from the
/// current time, in its hyphenated lower-case form. Only the form is
/// stated; the value depends on the clock and on chance.
#[verifier::external_body]
fn uuid_v7_text() -> (r: String)
    ensures
        is_uuid_text(r@, '7'),
{
    uuid::Uuid::now_v7().to_string()
}

/// A new random id for a session, an approval or a rebuild.
pub fn new_random_id() -> (r: String)
    ensures
        is_uuid_text(r@, '4'),
{
    uuid_v4_text()
}

/// The id of a streamed tool call: the one the model sent, or a new
/// time-ordered id when it sent none.
pub fn call_id_or_new(id: Option<String>) -> (r: String)
    ensures
        match id {
            Some(s) => r == s,
            None => is_uuid_text(r@, '7'),
        },
{
    match id {
        Some(s) => s,
        None => uuid_v7_text(),
    }
}

/// The text without its `-` characters.
pub open spec fn without_hyphens(s: Seq<char>) -> Seq<char>
    decreases s.len(),
{
    if s.len() == 0 {
        seq![]
    } else {
        without_hyphens(s.drop_last()) + if s.last() == '-' {
            seq![]
        } else {
            seq![s.last()]
        }
    }
}

/// Removes the hyphens of a UUID's text (its simple form).
pub fn simple_form(uuid_text: &str) -> (r: String)
    ensures
        r@ == without_hyphens(uuid_text@),
{
    let v = chars_of(uuid_text);
    let mut out = String::new();
    let mut i: usize = 0;
    while i < v.len()
        invariant
            i <= v.len(),
            v@ == uuid_text@,
            out@ == without_hyphens(v@.take(i as int)),
        decreases v.len() - i,
    {
        proof {
            assert(v@.take(i + 1).drop_last() =~= v@.take(i as int));
        }
        if v[i] != '-' {
            push_char(&mut out, v[i]);
        }
        proof {
            assert(out@ =~= without_hyphens(v@.take(i + 1)));
        }
        i += 1;
    }
    proof {
        assert(v@.take(v@.len() as int) =~= v@);
    }
    out
}

/// The id of a seeded thought for the simple form `simple` of a UUID.
pub open spec fn seed_thought_id_text(simple: Seq<char>) -> Seq<char> {
    "thought-"@ + simple
}

/// The id of a seeded thought: `thought-` and the simple form of a new
/// random UUID.
pub fn new_seed_thought_id() -> (r: String)
    ensures
        exists|u: Seq<char>| is_uuid_text(u, '4') && r@ == seed_thought_id_text(without_hyphens(u)),
{
    let u = uuid_v4_text();
    let s = simple_form(u.as_str());
    let mut r = to_owned_str("thought-");
    push_str(&mut r, s.as_str());
    r
}

/// The path of a standalone thought under the workspace.
pub fn standalone_rel_path(thought_id: &str) -> (r: String)
    ensures
        r@ == ".knowforge/standalone/"@ + thought_id@,
{
    let mut r = to_owned_str(".knowforge/standalone/");
    push_str(&mut r, thought_id);
    r
}

/// The session id of a planning request: `plan-` and a new random id.
pub fn new_planning_session_id() -> (r: String)
    ensures
        exists|u: Seq<char>| is_uuid_text(u, '4') && r@ == "plan-"@ + u,
{
    let u = uuid_v4_text();
    let mut r = to_owned_str("plan-");
    push_str(&mut r, u.as_str());
    r
}

} // verus!
