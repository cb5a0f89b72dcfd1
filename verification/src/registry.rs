//! The skill registry: validated skill manifests by id, held in a
//! `dashmap::DashMap`.
use vstd::prelude::*;

use std::sync::Arc;

use crate::skills::{SkillManifest, SkillUiEntry};
use crate::text::{chars_of, opt_string, strs, to_owned_str, utf8_len};

verus! {

#[verifier::external_type_specification]
#[verifier::external_body]
#[verifier::reject_recursive_types(K)]
#[verifier::reject_recursive_types(V)]
#[verifier::reject_recursive_types(S)]
pub struct ExDashMap<K, V, S>(dashmap::DashMap<K, V, S>);

/// The map that holds the registered skills.
pub type SkillMap = dashmap::DashMap<String, Arc<SkillManifest>>;

/// The manifests a skill map holds, by id.
pub uninterp spec fn dash_contents(m: SkillMap) -> Map<Seq<char>, SkillManifest>;

/// `DashMap::new`: an empty map.
#[verifier::external_body]
fn dash_new() -> (r: SkillMap)
    ensures
        dash_contents(r).dom() == Set::<Seq<char>>::empty(),
{
    dashmap::DashMap::new()
}

/// `DashMap::contains_key`: whether the map holds `key`.
#[verifier::external_body]
fn dash_contains_key(m: &SkillMap, key: &str) -> (r: bool)
    ensures
        r == dash_contents(*m).dom().contains(key@),
{
    m.contains_key(key)
}

/// `DashMap::insert`: maps `key` to `value` (in an `Arc`), replacing any
/// earlier value.
#[verifier::external_body]
fn dash_insert(m: &mut SkillMap, key: String, value: SkillManifest)
    ensures
        dash_contents(*final(m)) == dash_contents(*old(m)).insert(key@, value),
{
    m.insert(key, Arc::new(value));
}

/// `DashMap::get`, with the `Arc` cloned out of the guard.
#[verifier::external_body]
fn dash_get(m: &SkillMap, key: &str) -> (r: Option<
    Arc<SkillManifest>,
>)
    ensures
        r is Some <==> dash_contents(*m).dom().contains(key@),
        r matches Some(a) ==> *a == dash_contents(*m)[key@],
{
    m.get(key).map(|e| e.value().clone())
}

/// `DashMap::iter`: every value once, in an order the map does not fix.
#[verifier::external_body]
fn dash_values(m: &SkillMap) -> (r: Vec<Arc<SkillManifest>>)
    ensures
        r@.len() == dash_contents(*m).dom().len(),
        forall|i: int|
            #![trigger r@[i]]
            0 <= i < r@.len() ==> exists|k: Seq<char>|
                #![trigger dash_contents(*m)[k]]
                dash_contents(*m).dom().contains(k) && *r@[i] == dash_contents(*m)[k],
        forall|k: Seq<char>|
            #![trigger dash_contents(*m)[k]]
            dash_contents(*m).dom().contains(k) ==> exists|i: int|
                #![trigger r@[i]]
                0 <= i < r@.len() && *r@[i] == dash_contents(*m)[k],
{
    m.iter().map(|e| e.value().clone()).collect()
}

/// Whether `version` parses as a semantic version (`semver::Version::parse`).
pub uninterp spec fn semver_parses(version: Seq<char>) -> bool;

/// `semver::Version::parse(version).is_ok()`.
#[verifier::external_body]
fn is_semver(version: &str) -> (r: bool)
    ensures
        r == semver_parses(version@),
{
    semver::Version::parse(version).is_ok()
}

/// `c` is an ASCII lower-case letter.
pub open spec fn is_lower(c: char) -> bool {
    'a' <= c && c <= 'z'
}

/// A valid skill id: 1 to 64 bytes, a lower-case ASCII letter followed by
/// lower-case letters, digits and `_`.
pub open spec fn valid_skill_id(id: Seq<char>) -> bool {
    &&& 0 < id.len()
    &&& utf8_len(id) <= 64
    &&& is_lower(id[0])
    &&& forall|j: int|
        1 <= j < id.len() ==> is_lower(#[trigger] id[j]) || ('0' <= id[j] && id[j] <= '9')
            || id[j] == '_'
}

/// Checks the skill id format.
pub fn is_valid_skill_id(id: &str) -> (r: bool)
    ensures
        r == valid_skill_id(id@),
{
    let n = crate::text::utf8_length(id);
    if n == 0 || n > 64 {
        proof {
            crate::text::lemma_utf8_len_ge_len(id@);
        }
        return false;
    }
    let v = chars_of(id);
    proof {
        crate::text::lemma_utf8_len_ge_len(id@);
    }
    if !('a' <= v[0] && v[0] <= 'z') {
        return false;
    }
    let mut i: usize = 1;
    while i < v.len()
        invariant
            1 <= i <= v.len(),
            v@ == id@,
            forall|j: int|
                1 <= j < i ==> is_lower(#[trigger] v@[j]) || ('0' <= v@[j] && v@[j] <= '9')
                    || v@[j] == '_',
        decreases v.len() - i,
    {
        let c = v[i];
        if !(('a' <= c && c <= 'z') || ('0' <= c && c <= '9') || c == '_') {
            return false;
        }
        i += 1;
    }
    true
}

/// Why a skill was not registered.
#[derive(Debug)]
pub enum SkillRegistryError {
    DuplicateId(String),
    InvalidId(String),
    EmptyAllowedTools(String),
    UnknownTool { skill_id: String, tool: String },
    InvalidVersion(String),
}

impl SkillRegistryError {
    /// The message of the error.
    pub fn message(&self) -> (r: String)
        ensures
            r@ == registry_error_text(*self),
    {
        let mut s = String::new();
        match self {
            SkillRegistryError::DuplicateId(id) => {
                crate::text::push_str(&mut s, "duplicate skill id: ");
                crate::text::push_str(&mut s, id.as_str());
            },
            SkillRegistryError::InvalidId(id) => {
                crate::text::push_str(&mut s, "invalid skill id: ");
                crate::text::push_str(&mut s, id.as_str());
            },
            SkillRegistryError::EmptyAllowedTools(id) => {
                crate::text::push_str(&mut s, "skill '");
                crate::text::push_str(&mut s, id.as_str());
                crate::text::push_str(&mut s, "' has empty allowed_tools");
            },
            SkillRegistryError::UnknownTool { skill_id, tool } => {
                crate::text::push_str(&mut s, "skill '");
                crate::text::push_str(&mut s, skill_id.as_str());
                crate::text::push_str(&mut s, "' references unknown tool '");
                crate::text::push_str(&mut s, tool.as_str());
                crate::text::push_str(&mut s, "'");
            },
            SkillRegistryError::InvalidVersion(id) => {
                crate::text::push_str(&mut s, "skill '");
                crate::text::push_str(&mut s, id.as_str());
                crate::text::push_str(&mut s, "' has invalid semver version");
            },
        }
        proof {
            assert(s@ =~= registry_error_text(*self));
        }
        s
    }
}

/// The message of a registry error.
pub open spec fn registry_error_text(e: SkillRegistryError) -> Seq<char> {
    match e {
        SkillRegistryError::DuplicateId(id) => "duplicate skill id: "@ + id@,
        SkillRegistryError::InvalidId(id) => "invalid skill id: "@ + id@,
        SkillRegistryError::EmptyAllowedTools(id) => "skill '"@ + id@
            + "' has empty allowed_tools"@,
        SkillRegistryError::UnknownTool { skill_id, tool } => "skill '"@ + skill_id@
            + "' references unknown tool '"@ + tool@ + "'"@,
        SkillRegistryError::InvalidVersion(id) => "skill '"@ + id@
            + "' has invalid semver version"@,
    }
}

/// Index of the first allowed tool that is not among `known`, or -1.
pub open spec fn first_unknown_tool(allowed: Seq<Seq<char>>, known: Seq<Seq<char>>) -> int
    decreases allowed.len(),
{
    if allowed.len() == 0 {
        -1
    } else if !known.contains(allowed[0]) {
        0
    } else {
        let r = first_unknown_tool(allowed.drop_first(), known);
        if r < 0 {
            -1
        } else {
            r + 1
        }
    }
}

/// An error as plain values: a tag for the variant (duplicate 0, invalid id
/// 1, empty tools 2, unknown tool 3, invalid version 4), the skill id, and
/// the unknown tool.
pub open spec fn error_view(e: SkillRegistryError) -> (nat, Seq<char>, Seq<char>) {
    match e {
        SkillRegistryError::DuplicateId(id) => (0, id@, seq![]),
        SkillRegistryError::InvalidId(id) => (1, id@, seq![]),
        SkillRegistryError::EmptyAllowedTools(id) => (2, id@, seq![]),
        SkillRegistryError::UnknownTool { skill_id, tool } => (3, skill_id@, tool@),
        SkillRegistryError::InvalidVersion(id) => (4, id@, seq![]),
    }
}

/// The error `register` gives for `m` (see `error_view`), given the
/// registered ids and the known tools; `None` when it registers.
pub open spec fn register_error(
    m: SkillManifest,
    registered: Set<Seq<char>>,
    known: Seq<Seq<char>>,
) -> Option<(nat, Seq<char>, Seq<char>)> {
    let allowed = strs(m.allowed_tools@);
    if !valid_skill_id(m.id@) {
        Some((1, m.id@, seq![]))
    } else if !semver_parses(m.version@) {
        Some((4, m.id@, seq![]))
    } else if allowed.len() == 0 {
        Some((2, m.id@, seq![]))
    } else if first_unknown_tool(allowed, known) >= 0 {
        Some((3, m.id@, allowed[first_unknown_tool(allowed, known)]))
    } else if registered.contains(m.id@) {
        Some((0, m.id@, seq![]))
    } else {
        None
    }
}

/// The views of the fields of a manifest.
pub open spec fn manifest_view(m: SkillManifest) -> (
    (Seq<char>, Seq<char>, Seq<char>, Seq<char>, Seq<char>),
    (Seq<Seq<char>>, u8, u64, SkillUiEntry, Seq<Seq<char>>),
    (bool, Option<Seq<char>>, u32),
) {
    (
        (m.id@, m.name@, m.version@, m.description@, m.system_prompt_template@),
        (strs(m.allowed_tools@), m.max_tool_calls, m.timeout_secs, m.ui_entry, strs(m.tags@)),
        (m.auto_invocable, opt_string(m.when_to_use), m.max_tool_result_chars),
    )
}

/// A copy of a list of strings.
fn copy_strings(v: &Vec<String>) -> (r: Vec<String>)
    ensures
        strs(r@) == strs(v@),
{
    let mut out: Vec<String> = Vec::new();
    let mut i: usize = 0;
    while i < v.len()
        invariant
            i <= v.len(),
            strs(out@) == strs(v@.take(i as int)),
        decreases v.len() - i,
    {
        let ghost before = out@;
        out.push(to_owned_str(v[i].as_str()));
        proof {
            assert(strs(out@) =~= strs(before).push(v@[i as int]@));
            assert(strs(v@.take(i + 1)) =~= strs(v@.take(i as int)).push(v@[i as int]@));
        }
        i += 1;
    }
    proof {
        assert(v@.take(v@.len() as int) =~= v@);
    }
    out
}

/// A copy of a manifest.
pub fn copy_manifest(m: &SkillManifest) -> (r: SkillManifest)
    ensures
        manifest_view(r) == manifest_view(*m),
{
    SkillManifest {
        id: to_owned_str(m.id.as_str()),
        name: to_owned_str(m.name.as_str()),
        version: to_owned_str(m.version.as_str()),
        description: to_owned_str(m.description.as_str()),
        system_prompt_template: to_owned_str(m.system_prompt_template.as_str()),
        allowed_tools: copy_strings(&m.allowed_tools),
        max_tool_calls: m.max_tool_calls,
        timeout_secs: m.timeout_secs,
        ui_entry: m.ui_entry,
        tags: copy_strings(&m.tags),
        auto_invocable: m.auto_invocable,
        when_to_use: match &m.when_to_use {
            Some(w) => Some(to_owned_str(w.as_str())),
            None => None,
        },
        max_tool_result_chars: m.max_tool_result_chars,
    }
}

/// The registered skills, by id.
pub struct SkillRegistry {
    skills: SkillMap,
}

impl SkillRegistry {
    /// Every manifest is registered under its own id, and there are finitely
    /// many.
    #[verifier::type_invariant]
    spec fn inv(&self) -> bool {
        &&& self@.dom().finite()
        &&& forall|k: Seq<char>| #[trigger] self@.dom().contains(k) ==> self@[k].id@ == k
    }

    /// An empty registry.
    pub fn new() -> (r: Self)
        ensures
            r@.dom().len() == 0,
    {
        let r = SkillRegistry { skills: dash_new() };
        proof {
            assert(r@.dom() =~= Set::<Seq<char>>::empty());
        }
        r
    }

    /// Registers a manifest after checking its id, version, tool list
    /// (non-empty, every tool among `known_tools`) and that the id is not
    /// taken; the first failing check gives the error and nothing changes.
    pub fn register(&mut self, manifest: SkillManifest, known_tools: &Vec<String>) -> (r: Result<
        (),
        SkillRegistryError,
    >)
        ensures
            match register_error(manifest, old(self)@.dom(), strs(known_tools@)) {
                Some(e) => r matches Err(err) && error_view(err) == e && final(self)@ == old(self)@,
                None => r is Ok && final(self)@ == old(self)@.insert(manifest.id@, manifest),
            },
    {
        proof {
            use_type_invariant(&*self);
        }
        if !is_valid_skill_id(manifest.id.as_str()) {
            return Err(SkillRegistryError::InvalidId(manifest.id));
        }
        if !is_semver(manifest.version.as_str()) {
            return Err(SkillRegistryError::InvalidVersion(manifest.id));
        }
        if manifest.allowed_tools.len() == 0 {
            return Err(SkillRegistryError::EmptyAllowedTools(manifest.id));
        }
        let ghost allowed = strs(manifest.allowed_tools@);
        let ghost known = strs(known_tools@);
        let mut i: usize = 0;
        proof {
            assert(allowed.skip(0) =~= allowed);
        }
        while i < manifest.allowed_tools.len()
            invariant
                i <= manifest.allowed_tools.len(),
                self@ == old(self)@,
                valid_skill_id(manifest.id@),
                semver_parses(manifest.version@),
                manifest.allowed_tools@.len() > 0,
                allowed == strs(manifest.allowed_tools@),
                known == strs(known_tools@),
                first_unknown_tool(allowed, known) == if first_unknown_tool(allowed.skip(i as int), known) < 0 {
                    -1
                } else {
                    first_unknown_tool(allowed.skip(i as int), known) + i
                },
            decreases manifest.allowed_tools.len() - i,
        {
            proof {
                assert(allowed.skip(i as int).drop_first() =~= allowed.skip(i + 1));
                assert(allowed.skip(i as int)[0] == manifest.allowed_tools@[i as int]@);
            }
            if !crate::text::contains_string(known_tools, manifest.allowed_tools[i].as_str()) {
                let tool = to_owned_str(manifest.allowed_tools[i].as_str());
                proof {
                    assert(first_unknown_tool(allowed, known) == i);
                    assert(allowed[i as int] == tool@);
                }
                return Err(SkillRegistryError::UnknownTool { skill_id: manifest.id, tool });
            }
            i += 1;
        }
        proof {
            assert(allowed.skip(i as int) =~= Seq::<Seq<char>>::empty());
        }
        if dash_contains_key(&self.skills, manifest.id.as_str()) {
            return Err(SkillRegistryError::DuplicateId(manifest.id));
        }
        let key = to_owned_str(manifest.id.as_str());
        let ghost m = manifest;
        let mut skills = dash_new();
        std::mem::swap(&mut self.skills, &mut skills);
        dash_insert(&mut skills, key, manifest);
        proof {
            let c = dash_contents(skills);
            assert(c == old(self)@.insert(m.id@, m));
            assert forall|k: Seq<char>| #[trigger] c.dom().contains(k) implies c[k].id@ == k by {
                if k != m.id@ {
                    assert(old(self)@.dom().contains(k));
                }
            }
        }
        self.skills = skills;
        Ok(())
    }

    /// The manifest registered under `id`.
    pub fn get(&self, id: &str) -> (r: Option<Arc<SkillManifest>>)
        ensures
            r is Some <==> self@.dom().contains(id@),
            r matches Some(a) ==> *a == self@[id@],
    {
        dash_get(&self.skills, id)
    }

    /// Copies of all registered manifests, each once, in no fixed order.
    pub fn list(&self) -> (r: Vec<SkillManifest>)
        ensures
            r@.len() == self@.dom().len(),
            forall|i: int|
                0 <= i < r@.len() ==> self@.dom().contains((#[trigger] r@[i]).id@)
                    && manifest_view(r@[i]) == manifest_view(self@[r@[i].id@]),
            forall|k: Seq<char>|
                #[trigger] self@.dom().contains(k) ==> exists|i: int|
                    0 <= i < r@.len() && (#[trigger] r@[i]).id@ == k,
    {
        proof {
            use_type_invariant(self);
        }
        let values = dash_values(&self.skills);
        let mut out: Vec<SkillManifest> = Vec::new();
        let mut i: usize = 0;
        while i < values.len()
            invariant
                i <= values.len(),
                out@.len() == i,
                forall|j: int|
                    0 <= j < i ==> manifest_view(#[trigger] out@[j]) == manifest_view(
                        *values@[j],
                    ),
            decreases values.len() - i,
        {
            let m = copy_manifest(&*values[i]);
            out.push(m);
            i += 1;
        }
        proof {
            assert forall|j: int| 0 <= j < out@.len() implies self@.dom().contains(
                (#[trigger] out@[j]).id@,
            ) && manifest_view(out@[j]) == manifest_view(self@[out@[j].id@]) by {
                let k = choose|k: Seq<char>|
                    #![trigger dash_contents(self.skills)[k]]
                    dash_contents(self.skills).dom().contains(k) && *values@[j]
                        == dash_contents(self.skills)[k];
                assert(self@.dom().contains(k));
                assert(self@[k].id@ == k);
            }
            assert forall|k: Seq<char>| #[trigger] self@.dom().contains(k) implies exists|i: int|
                0 <= i < out@.len() && (#[trigger] out@[i]).id@ == k by {
                assert(dash_contents(self.skills)[k] == self@[k]);
                let i = choose|i: int|
                    #![trigger values@[i]]
                    0 <= i < values@.len() && *values@[i] == dash_contents(self.skills)[k];
                assert(manifest_view(out@[i]) == manifest_view(*values@[i]));
                assert(out@[i].id@ == k);
            }
        }
        out
    }
}


impl View for SkillRegistry {
    type V = Map<Seq<char>, SkillManifest>;

    closed spec fn view(&self) -> Map<Seq<char>, SkillManifest> {
        dash_contents(self.skills)
    }
}

/// A skill id that is already registered is never registered again: the
/// registration fails (with `DuplicateId`, or an earlier error), so an
/// existing skill is never replaced.
pub proof fn lemma_register_never_overwrites(
    m: SkillManifest,
    registered: Set<Seq<char>>,
    known: Seq<Seq<char>>,
)
    requires
        registered.contains(m.id@),
    ensures
        register_error(m, registered, known) is Some,
{
}

/// The ids of the built-in skills, in the order they are registered.
pub open spec fn builtin_ids() -> Seq<Seq<char>> {
    seq!["writing_coach"@, "challenge_review"@, "web_research"@]
}

/// The tools the `i`-th built-in skill may use.
pub open spec fn builtin_tools(i: int) -> Seq<Seq<char>> {
    if i == 0 {
        seq!["note.read"@, "vault.search_keyword"@]
    } else if i == 1 {
        seq!["note.read"@, "note.list"@, "thought.list"@]
    } else {
        seq!["web.search"@, "web.read_page"@, "note.create"@, "note.append"@, "vault.search_keyword"@]
    }
}

/// The error registering the `i`-th built-in skill gives (see
/// `register_error`), given the registered ids and the known tools.
pub open spec fn builtin_step_error(
    i: int,
    registered: Set<Seq<char>>,
    known: Seq<Seq<char>>,
) -> Option<(nat, Seq<char>, Seq<char>)> {
    let id = builtin_ids()[i];
    let allowed = builtin_tools(i);
    if !valid_skill_id(id) {
        Some((1, id, seq![]))
    } else if !semver_parses("0.1.0"@) {
        Some((4, id, seq![]))
    } else if allowed.len() == 0 {
        Some((2, id, seq![]))
    } else if first_unknown_tool(allowed, known) >= 0 {
        Some((3, id, allowed[first_unknown_tool(allowed, known)]))
    } else if registered.contains(id) {
        Some((0, id, seq![]))
    } else {
        None
    }
}

/// `registered` with the ids of the first `n` built-in skills.
pub open spec fn with_builtins(registered: Set<Seq<char>>, n: nat) -> Set<Seq<char>>
    decreases n,
{
    if n == 0 {
        registered
    } else {
        with_builtins(registered, (n - 1) as nat).insert(builtin_ids()[n - 1])
    }
}

/// How many built-in skills register before the first error (3 when none
/// fails).
pub open spec fn builtins_registered(registered: Set<Seq<char>>, known: Seq<Seq<char>>) -> nat {
    if builtin_step_error(0, registered, known) is Some {
        0
    } else if builtin_step_error(1, with_builtins(registered, 1), known) is Some {
        1
    } else if builtin_step_error(2, with_builtins(registered, 2), known) is Some {
        2
    } else {
        3
    }
}

/// `m` is the `i`-th built-in manifest (see `writing_coach_manifest`,
/// `challenge_review_manifest`, `web_research_manifest`).
pub open spec fn is_builtin_manifest(m: SkillManifest, i: int) -> bool {
    &&& m.id@ == builtin_ids()[i]
    &&& m.version@ == "0.1.0"@
    &&& strs(m.allowed_tools@) == builtin_tools(i)
    &&& m.auto_invocable
    &&& m.when_to_use is Some
    &&& if i == 0 {
        &&& m.name@ == "写作教练"@
        &&& m.system_prompt_template@ == crate::skills::WRITING_COACH_PROMPT@
        &&& m.max_tool_calls == 4 && m.timeout_secs == 30
        &&& m.ui_entry == SkillUiEntry::EditorPanel
        &&& strs(m.tags@) == seq!["writing"@, "coach"@]
        &&& m.max_tool_result_chars == 8000
    } else if i == 1 {
        &&& m.name@ == "挑战复盘"@
        &&& m.system_prompt_template@ == crate::skills::CHALLENGE_REVIEW_PROMPT@
        &&& m.max_tool_calls == 6 && m.timeout_secs == 45
        &&& m.ui_entry == SkillUiEntry::ConversationMode
        &&& strs(m.tags@) == seq!["review"@, "coach"@]
        &&& m.max_tool_result_chars == 8000
    } else {
        &&& m.name@ == "网络调研"@
        &&& m.system_prompt_template@ == crate::skills::WEB_RESEARCH_PROMPT@
        &&& m.max_tool_calls == 15 && m.timeout_secs == 120
        &&& m.ui_entry == SkillUiEntry::ConversationMode
        &&& strs(m.tags@) == seq!["research"@, "web"@]
        &&& m.max_tool_result_chars == 20000
    }
}

/// What registering the built-in skills did to the registry `before`:
/// the first `n` of them were added under their ids, and nothing else
/// changed.
pub open spec fn builtins_added(before: Map<Seq<char>, SkillManifest>, after: Map<Seq<char>, SkillManifest>, n: nat) -> bool {
    &&& after.dom() == with_builtins(before.dom(), n)
    &&& forall|k: Seq<char>| #[trigger] before.dom().contains(k) ==> after[k] == before[k]
    &&& forall|j: int| 0 <= j < n ==> is_builtin_manifest(#[trigger] after[builtin_ids()[j]], j)
}

proof fn lemma_with_builtins(s: Set<Seq<char>>, n: nat)
    ensures
        forall|k: Seq<char>| s.contains(k) ==> #[trigger] with_builtins(s, n).contains(k),
        forall|j: int| 0 <= j < n ==> with_builtins(s, n).contains(#[trigger] builtin_ids()[j]),
    decreases n,
{
    if n > 0 {
        lemma_with_builtins(s, (n - 1) as nat);
    }
}

proof fn lemma_builtin_ids_distinct()
    ensures
        builtin_ids()[0] != builtin_ids()[1],
        builtin_ids()[0] != builtin_ids()[2],
        builtin_ids()[1] != builtin_ids()[2],
{
    reveal_strlit("writing_coach");
    reveal_strlit("challenge_review");
    reveal_strlit("web_research");
    assert(builtin_ids()[0].len() == 13);
    assert(builtin_ids()[1].len() == 16);
    assert(builtin_ids()[2].len() == 12);
}

/// Registers the built-in skill `m`, the `i`-th one, on top of the first
/// `i` ones.
fn register_builtin_step(
    skills: &mut SkillRegistry,
    m: SkillManifest,
    i: usize,
    known_tools: &Vec<String>,
    Ghost(before): Ghost<Map<Seq<char>, SkillManifest>>,
) -> (r: Result<(), SkillRegistryError>)
    requires
        i < 3,
        is_builtin_manifest(m, i as int),
        builtins_added(before, old(skills)@, i as nat),
    ensures
        match builtin_step_error(i as int, with_builtins(before.dom(), i as nat), strs(known_tools@)) {
            Some(e) => r matches Err(err) && error_view(err) == e && final(skills)@ == old(skills)@,
            None => r is Ok && builtins_added(before, final(skills)@, (i + 1) as nat),
        },
{
    proof {
        lemma_builtin_ids_distinct();
        lemma_with_builtins(before.dom(), i as nat);
    }
    let ghost reg = old(skills)@;
    let res = skills.register(m, known_tools);
    proof {
        assert(register_error(m, reg.dom(), strs(known_tools@)) == builtin_step_error(
            i as int,
            with_builtins(before.dom(), i as nat),
            strs(known_tools@),
        ));
        if res is Ok {
            let after = skills@;
            assert(after == reg.insert(builtin_ids()[i as int], m));
            assert(after.dom() =~= with_builtins(before.dom(), (i + 1) as nat));
            assert forall|k: Seq<char>| #[trigger] before.dom().contains(k) implies after[k] == before[k] by {
                assert(reg.dom().contains(k));
                assert(k != builtin_ids()[i as int]);
            }
            assert forall|j: int| 0 <= j < i + 1 implies is_builtin_manifest(
                #[trigger] after[builtin_ids()[j]],
                j,
            ) by {
                if j < i {
                    assert(builtin_ids()[j] != builtin_ids()[i as int]);
                    assert(after[builtin_ids()[j]] == reg[builtin_ids()[j]]);
                }
            }
        }
    }
    res
}

/// Registers the three built-in skills, stopping at the first error: each
/// is checked as `register` checks it, in the order of `builtin_ids`; the
/// ones before the first error stay registered.
pub fn register_builtin_skills(skills: &mut SkillRegistry, known_tools: &Vec<String>) -> (r: Result<
    (),
    SkillRegistryError,
>)
    ensures
        ({
            let n = builtins_registered(old(skills)@.dom(), strs(known_tools@));
            &&& (r is Ok <==> n == 3)
            &&& (r matches Err(e) ==> Some(error_view(e)) == builtin_step_error(
                n as int,
                with_builtins(old(skills)@.dom(), n),
                strs(known_tools@),
            ))
            &&& builtins_added(old(skills)@, final(skills)@, n)
        }),
        r is Ok ==> final(skills)@.dom().contains("writing_coach"@),
        r is Ok ==> final(skills)@.dom().contains("challenge_review"@),
        r is Ok ==> final(skills)@.dom().contains("web_research"@),
{
    let ghost before = skills@;
    proof {
        assert(before.dom() =~= with_builtins(before.dom(), 0));
    }
    let w = crate::skills::writing_coach_manifest();
    match register_builtin_step(skills, w, 0, known_tools, Ghost(before)) {
        Ok(()) => {},
        Err(e) => {
            return Err(e);
        },
    }
    let c = crate::skills::challenge_review_manifest();
    match register_builtin_step(skills, c, 1, known_tools, Ghost(before)) {
        Ok(()) => {},
        Err(e) => {
            return Err(e);
        },
    }
    let web = crate::skills::web_research_manifest();
    match register_builtin_step(skills, web, 2, known_tools, Ghost(before)) {
        Ok(()) => {},
        Err(e) => {
            return Err(e);
        },
    }
    proof {
        assert(with_builtins(before.dom(), 3).contains(builtin_ids()[0]));
        assert(with_builtins(before.dom(), 3).contains(builtin_ids()[1]));
        assert(with_builtins(before.dom(), 3).contains(builtin_ids()[2]));
    }
    Ok(())
}

} // verus!
