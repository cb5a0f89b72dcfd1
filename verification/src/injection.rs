//! The user-model block injected into the system prompt: knowledge domains,
//! style, workspace, rules and recent sessions, shortened step by step until
//! it fits its token budget.
use vstd::prelude::*;

use crate::memory::{
    estimate_tokens, token_estimate, FrequentPath, MemoryCorrection, MemorySession,
};
use crate::text::{
    contains, find, fit_prefix, fit_prefix_len, join, join_strings, push_str, starts_with, strs,
    to_owned_str, utf8_len,
};

verus! {

pub const INJECTION_RECENT_SESSIONS: usize = 3;

pub const MAX_INJECTION_TOKENS: usize = 800;

pub const INJECTION_HEADER: &'static str = "# User Model (accumulated across sessions)";

pub const INJECTION_FOOTER: &'static str = "Adapt your responses to this user's knowledge level and style.\nDo NOT mention this model unless asked.\nCurrent request overrides any remembered preference.";

/// How sure the model is of a knowledge domain: confidence of at least 0.8,
/// at least 0.5, or below.
#[derive(Debug, Clone, Copy, PartialEq, Eq, Structural)]
pub enum DomainQualifier {
    Confident,
    Likely,
    Possibly,
}

/// A knowledge domain as it is shown.
pub struct DomainEntry {
    pub domain: String,
    pub qualifier: DomainQualifier,
    pub depth: String,
    pub current_focus: Option<String>,
    pub motivation: Option<String>,
}

/// What the user-model block is built from: the domains to show by
/// confidence, the interaction style with its language pairs, the formatted
/// language distribution of the notes, the workspace lists, the corrections
/// and the sessions.
pub struct InjectionInput {
    /// Domains of confidence at least 0.5, not archived.
    pub high_domains: Vec<DomainEntry>,
    /// Names of domains of confidence in [0.3, 0.5), not archived.
    pub low_domains: Vec<String>,
    pub detail_preference: Option<String>,
    pub explanation_style: Option<String>,
    pub challenge_tolerance: Option<String>,
    pub format: Option<String>,
    /// `(key, value)` pairs of the language preferences.
    pub language: Vec<(String, String)>,
    /// `"<percent>% <LANGUAGE>"` for each language of the notes.
    pub language_distribution: Vec<String>,
    pub frequent_paths: Vec<FrequentPath>,
    pub topics: Vec<String>,
    pub tag_vocabulary: Vec<String>,
    pub corrections: Vec<MemoryCorrection>,
    pub sessions: Vec<MemorySession>,
}

/// The qualifier before a domain's depth.
pub open spec fn qualifier_text(q: DomainQualifier) -> Seq<char> {
    match q {
        DomainQualifier::Confident => seq![],
        DomainQualifier::Likely => "likely "@,
        DomainQualifier::Possibly => "possibly "@,
    }
}

/// `domain (qualifier depth, focused on focus — motivation)`.
pub open spec fn domain_text(d: DomainEntry) -> Seq<char> {
    d.domain@ + " ("@ + qualifier_text(d.qualifier) + d.depth@ + match d.current_focus {
        Some(f) => ", focused on "@ + f@,
        None => seq![],
    } + match d.motivation {
        Some(m) => " — "@ + m@,
        None => seq![],
    } + ")"@
}

/// The shown form of each domain.
pub open spec fn domain_texts(ds: Seq<DomainEntry>) -> Seq<Seq<char>> {
    ds.map_values(|d: DomainEntry| domain_text(d))
}

/// `[f(x)]` when the option holds `x`.
pub open spec fn opt_part(o: Option<String>, pre: Seq<char>, post: Seq<char>) -> Seq<Seq<char>> {
    match o {
        Some(x) => seq![pre + x@ + post],
        None => seq![],
    }
}

/// The style phrases: the detail preference as is, `prefers <style>`,
/// `<tolerance> challenge tolerance`, `format: <format>`.
pub open spec fn style_parts(inp: InjectionInput) -> Seq<Seq<char>> {
    opt_part(inp.detail_preference, seq![], seq![]) + opt_part(
        inp.explanation_style,
        "prefers "@,
        seq![],
    ) + opt_part(inp.challenge_tolerance, seq![], " challenge tolerance"@) + opt_part(
        inp.format,
        "format: "@,
        seq![],
    )
}

/// `key in value` for each language preference.
pub open spec fn language_parts(inp: InjectionInput) -> Seq<Seq<char>> {
    inp.language@.map_values(|p: (String, String)| p.0@ + " in "@ + p.1@)
}

/// Some style is known.
pub open spec fn has_style(inp: InjectionInput) -> bool {
    inp.detail_preference is Some || inp.explanation_style is Some || inp.challenge_tolerance is Some
        || inp.format is Some || inp.language@.len() > 0
}

/// The style lines of the "You" section.
pub open spec fn style_lines(inp: InjectionInput) -> Seq<char> {
    if has_style(inp) {
        (if style_parts(inp).len() > 0 {
            "\n- Style: "@ + join(style_parts(inp), ", "@)
        } else {
            seq![]
        }) + if inp.language@.len() > 0 {
            "\n- Language: "@ + join(language_parts(inp), ", "@)
        } else {
            seq![]
        }
    } else {
        seq![]
    }
}

/// The "You" section; `with_low` includes the low-confidence domains.
pub open spec fn you_text(inp: InjectionInput, with_low: bool) -> Option<Seq<char>> {
    let high = inp.high_domains@.len() > 0;
    let low = with_low && inp.low_domains@.len() > 0;
    if high || low || has_style(inp) {
        Some(
            "## You"@ + (if high {
                "\n- Knowledge: "@ + join(domain_texts(inp.high_domains@), "; "@)
            } else {
                seq![]
            }) + (if low {
                "\n- Also some interest in: "@ + join(strs(inp.low_domains@), ", "@)
            } else {
                seq![]
            }) + style_lines(inp),
        )
    } else {
        None
    }
}

/// `path (description)`.
pub open spec fn path_text(p: FrequentPath) -> Seq<char> {
    p.path@ + " ("@ + p.description@ + ")"@
}

/// The shown frequent paths: at most 5.
pub open spec fn shown_paths(inp: InjectionInput) -> Seq<Seq<char>> {
    let paths = inp.frequent_paths@;
    paths.take(
        if paths.len() < 5 {
            paths.len() as int
        } else {
            5
        },
    ).map_values(|p: FrequentPath| path_text(p))
}

/// The shown tags: at most 20.
pub open spec fn shown_tags(inp: InjectionInput) -> Seq<Seq<char>> {
    let tags = strs(inp.tag_vocabulary@);
    tags.take(
        if tags.len() < 20 {
            tags.len() as int
        } else {
            20
        },
    )
}

/// `prefix + join(items, sep)` when `on`.
pub open spec fn line_if(on: bool, prefix: Seq<char>, items: Seq<Seq<char>>, sep: Seq<char>) -> Seq<
    char,
> {
    if on {
        prefix + join(items, sep)
    } else {
        seq![]
    }
}

/// The "Workspace" section: shown when there are frequent paths, a language
/// distribution or tags; at most 5 paths and 20 tags.
pub open spec fn workspace_text(inp: InjectionInput) -> Option<Seq<char>> {
    let np = inp.frequent_paths@.len();
    let nd = inp.language_distribution@.len();
    let nt = inp.tag_vocabulary@.len();
    if np > 0 || nd > 0 || nt > 0 {
        Some(
            "## Workspace"@ + line_if(
                nd > 0,
                "\n- Notes: "@,
                strs(inp.language_distribution@),
                " / "@,
            ) + line_if(np > 0, "\n- Active areas: "@, shown_paths(inp), ", "@) + line_if(
                inp.topics@.len() > 0,
                "\n- Topics: "@,
                strs(inp.topics@),
                ", "@,
            ) + line_if(nt > 0, "\n- Tags: "@, shown_tags(inp), ", "@),
        )
    } else {
        None
    }
}

/// A text holding `p` at position `k` contains `p`.
proof fn lemma_contains_at(s: Seq<char>, p: Seq<char>, k: int)
    requires
        0 <= k,
        k + p.len() <= s.len(),
        s.subrange(k, k + p.len()) == p,
    ensures
        contains(s, p),
    decreases k,
{
    if k == 0 {
        assert(s.take(p.len() as int) =~= s.subrange(0, p.len() as int));
        assert(starts_with(s, p));
    } else if !starts_with(s, p) {
        let t = s.drop_first();
        assert(t.subrange(k - 1, k - 1 + p.len()) =~= s.subrange(k, k + p.len()));
        lemma_contains_at(t, p, k - 1);
    }
}

/// When there are topics, a Workspace section lists them all: it contains
/// `\n- Topics: ` followed by the topics joined with `, `.
pub proof fn lemma_workspace_lists_topics(inp: InjectionInput)
    requires
        inp.topics@.len() > 0,
    ensures
        workspace_text(inp) matches Some(w) ==> contains(
            w,
            "\n- Topics: "@ + join(strs(inp.topics@), ", "@),
        ),
{
    if let Some(w) = workspace_text(inp) {
        let np = inp.frequent_paths@.len();
        let nd = inp.language_distribution@.len();
        let nt = inp.tag_vocabulary@.len();
        let a = "## Workspace"@ + line_if(nd > 0, "\n- Notes: "@, strs(inp.language_distribution@), " / "@)
            + line_if(np > 0, "\n- Active areas: "@, shown_paths(inp), ", "@);
        let p = "\n- Topics: "@ + join(strs(inp.topics@), ", "@);
        let b = line_if(nt > 0, "\n- Tags: "@, shown_tags(inp), ", "@);
        assert(w == a + p + b);
        assert((a + p + b).subrange(a.len() as int, (a.len() + p.len()) as int) =~= p);
        lemma_contains_at(w, p, a.len() as int);
    }
}

/// A Workspace section starts with its heading and lists every part it
/// has: the note languages, the active areas (at most five) and the tags (at
/// most twenty), each joined into its line.
pub proof fn lemma_workspace_lists_parts(inp: InjectionInput)
    ensures
        workspace_text(inp) matches Some(w) ==> {
            &&& starts_with(w, "## Workspace"@)
            &&& inp.language_distribution@.len() > 0 ==> contains(
                w,
                "\n- Notes: "@ + join(strs(inp.language_distribution@), " / "@),
            )
            &&& inp.frequent_paths@.len() > 0 ==> contains(
                w,
                "\n- Active areas: "@ + join(shown_paths(inp), ", "@),
            )
            &&& inp.tag_vocabulary@.len() > 0 ==> contains(
                w,
                "\n- Tags: "@ + join(shown_tags(inp), ", "@),
            )
        },
{
    if let Some(w) = workspace_text(inp) {
        let np = inp.frequent_paths@.len();
        let nd = inp.language_distribution@.len();
        let nt = inp.tag_vocabulary@.len();
        let h = "## Workspace"@;
        let n = line_if(nd > 0, "\n- Notes: "@, strs(inp.language_distribution@), " / "@);
        let a = line_if(np > 0, "\n- Active areas: "@, shown_paths(inp), ", "@);
        let t = line_if(inp.topics@.len() > 0, "\n- Topics: "@, strs(inp.topics@), ", "@);
        let g = line_if(nt > 0, "\n- Tags: "@, shown_tags(inp), ", "@);
        assert(w == h + n + a + t + g);
        assert(w.take(h.len() as int) =~= h);
        if nd > 0 {
            assert(w.subrange(h.len() as int, (h.len() + n.len()) as int) =~= n);
            lemma_contains_at(w, n, h.len() as int);
        }
        if np > 0 {
            assert(w.subrange((h.len() + n.len()) as int, (h.len() + n.len() + a.len()) as int) =~= a);
            lemma_contains_at(w, a, (h.len() + n.len()) as int);
        }
        if nt > 0 {
            let k = h.len() + n.len() + a.len() + t.len();
            assert(w.subrange(k as int, (k + g.len()) as int) =~= g);
            lemma_contains_at(w, g, k as int);
        }
    }
}

/// The lines of the active corrections.
pub open spec fn rule_lines(cs: Seq<MemoryCorrection>) -> Seq<char>
    decreases cs.len(),
{
    if cs.len() == 0 {
        seq![]
    } else {
        rule_lines(cs.drop_last()) + if cs.last().superseded_by is None {
            "\n- "@ + cs.last().rule@ + " — "@ + cs.last().reason@
        } else {
            seq![]
        }
    }
}

/// Some correction is active.
pub open spec fn has_active(cs: Seq<MemoryCorrection>) -> bool {
    exists|i: int| 0 <= i < cs.len() && (#[trigger] cs[i]).superseded_by is None
}

/// The "Rules" section of the active corrections.
pub open spec fn rules_text(inp: InjectionInput) -> Option<Seq<char>> {
    if has_active(inp.corrections@) {
        Some("## Rules"@ + rule_lines(inp.corrections@))
    } else {
        None
    }
}

/// The first 10 bytes of a session date when that is a character boundary,
/// else the whole date.
pub open spec fn date_short(d: Seq<char>) -> Seq<char> {
    let k = fit_prefix_len(d, 10);
    if utf8_len(d.take(k as int)) == 10 {
        d.take(k as int)
    } else {
        d
    }
}

/// The line of one session.
pub open spec fn session_line(s: MemorySession) -> Seq<char> {
    "\n- ["@ + date_short(s.date@) + "] "@ + s.summary@ + match s.follow_up {
        Some(f) => " → next: "@ + f@,
        None => seq![],
    }
}

/// The lines of a list of sessions.
pub open spec fn session_lines(ss: Seq<MemorySession>) -> Seq<char>
    decreases ss.len(),
{
    if ss.len() == 0 {
        seq![]
    } else {
        session_lines(ss.drop_last()) + session_line(ss.last())
    }
}

/// The "Recent" section of the last `limit` sessions.
pub open spec fn sessions_text(inp: InjectionInput, limit: nat) -> Option<Seq<char>> {
    let ss = inp.sessions@;
    if ss.len() == 0 || limit == 0 {
        None
    } else {
        Some(
            "## Recent"@ + session_lines(
                ss.skip(
                    if ss.len() < limit {
                        0
                    } else {
                        ss.len() - limit
                    },
                ),
            ),
        )
    }
}

/// `[x]` when the option holds `x`.
pub open spec fn opt_seq(o: Option<Seq<char>>) -> Seq<Seq<char>> {
    match o {
        Some(x) => seq![x],
        None => seq![],
    }
}

/// The block from the chosen "You" and "Recent" sections: header, the
/// sections present, footer, separated by blank lines.
pub open spec fn assembled_text(
    inp: InjectionInput,
    you: Option<Seq<char>>,
    sessions: Option<Seq<char>>,
) -> Seq<char> {
    join(
        seq![INJECTION_HEADER@] + opt_seq(you) + opt_seq(workspace_text(inp)) + opt_seq(
            rules_text(inp),
        ) + opt_seq(sessions) + seq![INJECTION_FOOTER@],
        "\n\n"@,
    )
}

/// There is something to inject.
pub open spec fn has_content(inp: InjectionInput) -> bool {
    inp.high_domains@.len() > 0 || inp.low_domains@.len() > 0 || has_style(inp) || has_active(
        inp.corrections@,
    ) || inp.frequent_paths@.len() > 0 || inp.sessions@.len() > 0
}

/// The user-model block: the full block if it fits `MAX_INJECTION_TOKENS`,
/// else with one recent session, else also without the low-confidence
/// domains, else also without sessions; `None` with nothing to say.
pub open spec fn injection_text(inp: InjectionInput) -> Option<Seq<char>> {
    if !has_content(inp) {
        None
    } else {
        let t1 = assembled_text(inp, you_text(inp, true), sessions_text(inp, 3));
        let t2 = assembled_text(inp, you_text(inp, true), sessions_text(inp, 1));
        let t3 = assembled_text(inp, you_text(inp, false), sessions_text(inp, 1));
        let t4 = assembled_text(inp, you_text(inp, false), None);
        if token_estimate(t1) <= MAX_INJECTION_TOKENS {
            Some(t1)
        } else if token_estimate(t2) <= MAX_INJECTION_TOKENS {
            Some(t2)
        } else if token_estimate(t3) <= MAX_INJECTION_TOKENS {
            Some(t3)
        } else {
            Some(t4)
        }
    }
}

/// Formats one knowledge domain.
pub fn format_domain_entry(d: &DomainEntry) -> (r: String)
    ensures
        r@ == domain_text(*d),
{
    let mut s = to_owned_str(d.domain.as_str());
    push_str(&mut s, " (");
    match d.qualifier {
        DomainQualifier::Confident => {},
        DomainQualifier::Likely => push_str(&mut s, "likely "),
        DomainQualifier::Possibly => push_str(&mut s, "possibly "),
    }
    push_str(&mut s, d.depth.as_str());
    match &d.current_focus {
        Some(f) => {
            push_str(&mut s, ", focused on ");
            push_str(&mut s, f.as_str());
        },
        None => {},
    }
    match &d.motivation {
        Some(m) => {
            push_str(&mut s, " — ");
            push_str(&mut s, m.as_str());
        },
        None => {},
    }
    push_str(&mut s, ")");
    proof {
        assert(s@ =~= domain_text(*d));
    }
    s
}

/// Appends `pre + x + post` when the option holds `x`.
fn push_opt_part(parts: &mut Vec<String>, o: &Option<String>, pre: &str, post: &str)
    ensures
        strs(final(parts)@) == strs(old(parts)@) + opt_part(*o, pre@, post@),
{
    let ghost before = parts@;
    match o {
        Some(x) => {
            let mut s = to_owned_str(pre);
            push_str(&mut s, x.as_str());
            push_str(&mut s, post);
            parts.push(s);
            proof {
                assert(strs(parts@) =~= strs(before) + opt_part(*o, pre@, post@));
            }
        },
        None => {
            proof {
                assert(strs(parts@) =~= strs(before) + opt_part(*o, pre@, post@));
            }
        },
    }
}

/// The style phrases.
fn style_part_strings(inp: &InjectionInput) -> (r: Vec<String>)
    ensures
        strs(r@) == style_parts(*inp),
{
    let mut parts: Vec<String> = Vec::new();
    proof {
        reveal_strlit("");
        assert(strs(parts@) =~= Seq::<Seq<char>>::empty());
    }
    push_opt_part(&mut parts, &inp.detail_preference, "", "");
    push_opt_part(&mut parts, &inp.explanation_style, "prefers ", "");
    push_opt_part(&mut parts, &inp.challenge_tolerance, "", " challenge tolerance");
    push_opt_part(&mut parts, &inp.format, "format: ", "");
    proof {
        assert(""@ =~= Seq::<char>::empty());
        assert(strs(parts@) =~= style_parts(*inp));
    }
    parts
}

/// The language phrases.
fn language_part_strings(inp: &InjectionInput) -> (r: Vec<String>)
    ensures
        strs(r@) == language_parts(*inp),
{
    let mut out: Vec<String> = Vec::new();
    let mut i: usize = 0;
    while i < inp.language.len()
        invariant
            i <= inp.language.len(),
            strs(out@) == inp.language@.take(i as int).map_values(
                |p: (String, String)| p.0@ + " in "@ + p.1@,
            ),
        decreases inp.language.len() - i,
    {
        let ghost before = out@;
        let mut s = to_owned_str(inp.language[i].0.as_str());
        push_str(&mut s, " in ");
        push_str(&mut s, inp.language[i].1.as_str());
        let ghost item = s@;
        out.push(s);
        proof {
            let f = |p: (String, String)| p.0@ + " in "@ + p.1@;
            assert(item == f(inp.language@[i as int]));
            assert(strs(out@) =~= strs(before).push(item));
            assert(inp.language@.take(i + 1).map_values(f) =~= inp.language@.take(i as int).map_values(f).push(f(inp.language@[i as int])));
        }
        i += 1;
    }
    proof {
        assert(inp.language@.take(inp.language@.len() as int) =~= inp.language@);
    }
    out
}

/// The formatted domains.
fn domain_strings(ds: &Vec<DomainEntry>) -> (r: Vec<String>)
    ensures
        strs(r@) == domain_texts(ds@),
{
    let mut out: Vec<String> = Vec::new();
    let mut i: usize = 0;
    while i < ds.len()
        invariant
            i <= ds.len(),
            strs(out@) == domain_texts(ds@.take(i as int)),
        decreases ds.len() - i,
    {
        let ghost before = out@;
        let e = format_domain_entry(&ds[i]);
        let ghost item = e@;
        out.push(e);
        proof {
            assert(strs(out@) =~= strs(before).push(item));
            assert(domain_texts(ds@.take(i + 1)) =~= domain_texts(ds@.take(i as int)).push(domain_text(ds@[i as int])));
        }
        i += 1;
    }
    proof {
        assert(ds@.take(ds@.len() as int) =~= ds@);
    }
    out
}

/// The style lines of the "You" section.
fn style_lines_string(inp: &InjectionInput) -> (r: String)
    ensures
        r@ == style_lines(*inp),
{
    let mut s = String::new();
    let style = inp.detail_preference.is_some() || inp.explanation_style.is_some()
        || inp.challenge_tolerance.is_some() || inp.format.is_some() || inp.language.len() > 0;
    if style {
        let parts = style_part_strings(inp);
        if parts.len() > 0 {
            push_str(&mut s, "\n- Style: ");
            let joined = join_strings(&parts, ", ");
            push_str(&mut s, joined.as_str());
        }
        let ghost s1 = s@;
        if inp.language.len() > 0 {
            push_str(&mut s, "\n- Language: ");
            let lp = language_part_strings(inp);
            let joined = join_strings(&lp, ", ");
            push_str(&mut s, joined.as_str());
        }
        proof {
            assert(s@ =~= style_lines(*inp));
        }
    } else {
        proof {
            assert(s@ =~= style_lines(*inp));
        }
    }
    s
}

/// `prefix + join(items, sep)` when `on`, else nothing.
fn joined_line(on: bool, prefix: &str, items: &Vec<String>, sep: &str) -> (r: String)
    ensures
        r@ == (if on {
            prefix@ + join(strs(items@), sep@)
        } else {
            seq![]
        }),
{
    if on {
        let mut s = to_owned_str(prefix);
        let joined = join_strings(items, sep);
        push_str(&mut s, joined.as_str());
        s
    } else {
        String::new()
    }
}

/// The "You" section.
fn you_section(inp: &InjectionInput, with_low: bool) -> (r: Option<String>)
    ensures
        crate::text::opt_string(r) == you_text(*inp, with_low),
{
    let high = inp.high_domains.len() > 0;
    let low = with_low && inp.low_domains.len() > 0;
    let style = inp.detail_preference.is_some() || inp.explanation_style.is_some()
        || inp.challenge_tolerance.is_some() || inp.format.is_some() || inp.language.len() > 0;
    if !(high || low || style) {
        return None;
    }
    let ds = domain_strings(&inp.high_domains);
    let knowledge = joined_line(high, "\n- Knowledge: ", &ds, "; ");
    let interest = joined_line(low, "\n- Also some interest in: ", &inp.low_domains, ", ");
    let style_text = style_lines_string(inp);
    let mut s = to_owned_str("## You");
    push_str(&mut s, knowledge.as_str());
    push_str(&mut s, interest.as_str());
    push_str(&mut s, style_text.as_str());
    proof {
        assert(s@ =~= you_text(*inp, with_low)->0);
    }
    Some(s)
}

/// The formatted frequent paths, at most `n`.
fn path_strings(ps: &Vec<FrequentPath>, n: usize) -> (r: Vec<String>)
    requires
        n <= ps.len(),
    ensures
        strs(r@) == ps@.take(n as int).map_values(|p: FrequentPath| path_text(p)),
{
    let mut out: Vec<String> = Vec::new();
    let mut i: usize = 0;
    while i < n
        invariant
            i <= n <= ps.len(),
            strs(out@) == ps@.take(i as int).map_values(|p: FrequentPath| path_text(p)),
        decreases n - i,
    {
        let mut s = to_owned_str(ps[i].path.as_str());
        push_str(&mut s, " (");
        push_str(&mut s, ps[i].description.as_str());
        push_str(&mut s, ")");
        let ghost before = out@;
        let ghost item = s@;
        out.push(s);
        proof {
            assert(item == path_text(ps@[i as int]));
            assert(strs(out@) =~= strs(before).push(item));
            assert(ps@.take(i + 1).map_values(|p: FrequentPath| path_text(p)) =~= ps@.take(i as int).map_values(|p: FrequentPath| path_text(p)).push(path_text(ps@[i as int])));
        }
        i += 1;
    }
    out
}

/// The first `n` strings of a list.
fn first_strings(v: &Vec<String>, n: usize) -> (r: Vec<String>)
    requires
        n <= v.len(),
    ensures
        strs(r@) == strs(v@).take(n as int),
{
    let mut out: Vec<String> = Vec::new();
    let mut i: usize = 0;
    while i < n
        invariant
            i <= n <= v.len(),
            strs(out@) == strs(v@).take(i as int),
        decreases n - i,
    {
        let ghost before = out@;
        out.push(to_owned_str(v[i].as_str()));
        proof {
            assert(strs(out@) =~= strs(before).push(v@[i as int]@));
            assert(strs(v@).take(i + 1) =~= strs(v@).take(i as int).push(v@[i as int]@));
        }
        i += 1;
    }
    out
}

/// The "Workspace" section.
fn workspace_section(inp: &InjectionInput) -> (r: Option<String>)
    ensures
        crate::text::opt_string(r) == workspace_text(*inp),
        inp.topics@.len() > 0 && r is Some ==> contains(
            r->0@,
            "\n- Topics: "@ + join(strs(inp.topics@), ", "@),
        ),
{
    proof {
        if inp.topics@.len() > 0 {
            lemma_workspace_lists_topics(*inp);
        }
    }
    let np = inp.frequent_paths.len();
    let nd = inp.language_distribution.len();
    let nt = inp.tag_vocabulary.len();
    if !(np > 0 || nd > 0 || nt > 0) {
        return None;
    }
    let kp = if np < 5 {
        np
    } else {
        5
    };
    let paths = path_strings(&inp.frequent_paths, kp);
    let kt = if nt < 20 {
        nt
    } else {
        20
    };
    let tags = first_strings(&inp.tag_vocabulary, kt);
    let notes = joined_line(nd > 0, "\n- Notes: ", &inp.language_distribution, " / ");
    let areas = joined_line(np > 0, "\n- Active areas: ", &paths, ", ");
    let topics = joined_line(inp.topics.len() > 0, "\n- Topics: ", &inp.topics, ", ");
    let tag_line = joined_line(nt > 0, "\n- Tags: ", &tags, ", ");
    let mut s = to_owned_str("## Workspace");
    push_str(&mut s, notes.as_str());
    push_str(&mut s, areas.as_str());
    push_str(&mut s, topics.as_str());
    push_str(&mut s, tag_line.as_str());
    proof {
        assert(s@ =~= workspace_text(*inp)->0);
    }
    Some(s)
}

/// The "Rules" section.
fn rules_section(inp: &InjectionInput) -> (r: Option<String>)
    ensures
        crate::text::opt_string(r) == rules_text(*inp),
{
    let cs = &inp.corrections;
    let mut s = to_owned_str("## Rules");
    let mut any = false;
    let mut i: usize = 0;
    while i < cs.len()
        invariant
            i <= cs.len(),
            s@ == "## Rules"@ + rule_lines(cs@.take(i as int)),
            any == has_active(cs@.take(i as int)),
        decreases cs.len() - i,
    {
        let ghost t = cs@.take(i + 1);
        proof {
            assert(t.drop_last() =~= cs@.take(i as int));
        }
        if cs[i].is_active() {
            push_str(&mut s, "\n- ");
            push_str(&mut s, cs[i].rule.as_str());
            push_str(&mut s, " — ");
            push_str(&mut s, cs[i].reason.as_str());
            any = true;
            proof {
                assert(t[i as int].superseded_by is None);
            }
        } else {
            proof {
                assert forall|j: int| 0 <= j < t.len() && (#[trigger] t[j]).superseded_by is None implies j < i by {}
            }
        }
        proof {
            assert(s@ =~= "## Rules"@ + rule_lines(t));
            if any && !has_active(cs@.take(i as int)) {
                assert(t[i as int].superseded_by is None);
            }
            if has_active(cs@.take(i as int)) {
                let j = choose|j: int| 0 <= j < i && (#[trigger] cs@.take(i as int)[j]).superseded_by is None;
                assert(t[j] == cs@.take(i as int)[j]);
            }
        }
        i += 1;
    }
    proof {
        assert(cs@.take(cs@.len() as int) =~= cs@);
    }
    if any {
        Some(s)
    } else {
        None
    }
}

/// The shortened session date.
fn short_date(d: &str) -> (r: String)
    ensures
        r@ == date_short(d@),
{
    let v = crate::text::chars_of(d);
    let k = fit_prefix(&v, 10);
    let mut bytes: usize = 0;
    let mut i: usize = 0;
    proof {
        assert(v@.take(0) =~= Seq::<char>::empty());
    }
    while i < k
        invariant
            i <= k <= v.len(),
            bytes == utf8_len(v@.take(i as int)),
            utf8_len(v@.take(k as int)) <= 10,
        decreases k - i,
    {
        proof {
            crate::text::lemma_utf8_len_take_step(v@, i as int);
            crate::text::lemma_utf8_len_mono(v@, i + 1, k as int);
        }
        bytes = bytes + crate::text::char_len_utf8(v[i]);
        i += 1;
    }
    if bytes == 10 {
        proof {
            assert(v@.subrange(0, k as int) =~= v@.take(k as int));
        }
        crate::text::string_of_range(&v, 0, k)
    } else {
        to_owned_str(d)
    }
}

/// The "Recent" section of the last `limit` sessions.
fn sessions_section(inp: &InjectionInput, limit: usize) -> (r: Option<String>)
    ensures
        crate::text::opt_string(r) == sessions_text(*inp, limit as nat),
{
    let ss = &inp.sessions;
    if ss.len() == 0 || limit == 0 {
        return None;
    }
    let start = if ss.len() < limit {
        0
    } else {
        ss.len() - limit
    };
    let ghost tail = ss@.skip(start as int);
    let mut s = to_owned_str("## Recent");
    let mut i = start;
    while i < ss.len()
        invariant
            start <= i <= ss.len(),
            tail == ss@.skip(start as int),
            s@ == "## Recent"@ + session_lines(ss@.subrange(start as int, i as int)),
        decreases ss.len() - i,
    {
        proof {
            assert(ss@.subrange(start as int, i + 1).drop_last() =~= ss@.subrange(
                start as int,
                i as int,
            ));
        }
        push_str(&mut s, "\n- [");
        let d = short_date(ss[i].date.as_str());
        push_str(&mut s, d.as_str());
        push_str(&mut s, "] ");
        push_str(&mut s, ss[i].summary.as_str());
        match &ss[i].follow_up {
            Some(f) => {
                push_str(&mut s, " → next: ");
                push_str(&mut s, f.as_str());
            },
            None => {},
        }
        proof {
            assert(s@ =~= "## Recent"@ + session_lines(ss@.subrange(start as int, i + 1)));
        }
        i += 1;
    }
    proof {
        assert(ss@.subrange(start as int, ss@.len() as int) =~= tail);
    }
    Some(s)
}

/// Appends the section when there is one.
fn push_section(parts: &mut Vec<String>, sec: &Option<String>)
    ensures
        strs(final(parts)@) == strs(old(parts)@) + opt_seq(crate::text::opt_string(*sec)),
{
    let ghost before = parts@;
    match sec {
        Some(x) => {
            parts.push(to_owned_str(x.as_str()));
        },
        None => {},
    }
    proof {
        assert(strs(parts@) =~= strs(before) + opt_seq(crate::text::opt_string(*sec)));
    }
}

/// Joins header, the present sections and footer with blank lines.
fn assemble(
    inp: &InjectionInput,
    you: &Option<String>,
    workspace: &Option<String>,
    rules: &Option<String>,
    sessions: &Option<String>,
) -> (r: String)
    requires
        crate::text::opt_string(*workspace) == workspace_text(*inp),
        crate::text::opt_string(*rules) == rules_text(*inp),
    ensures
        r@ == assembled_text(
            *inp,
            crate::text::opt_string(*you),
            crate::text::opt_string(*sessions),
        ),
{
    let mut parts: Vec<String> = Vec::new();
    parts.push(to_owned_str(INJECTION_HEADER));
    proof {
        assert(strs(parts@) =~= seq![INJECTION_HEADER@]);
    }
    push_section(&mut parts, you);
    push_section(&mut parts, workspace);
    push_section(&mut parts, rules);
    push_section(&mut parts, sessions);
    let ghost before = parts@;
    parts.push(to_owned_str(INJECTION_FOOTER));
    proof {
        assert(strs(parts@) =~= strs(before) + seq![INJECTION_FOOTER@]);
    }
    join_strings(&parts, "\n\n")
}

/// Builds the user-model block for the system prompt, shortening it until
/// it fits `MAX_INJECTION_TOKENS`; `None` when there is nothing to say.
pub fn format_for_injection(inp: &InjectionInput) -> (r: Option<String>)
    ensures
        crate::text::opt_string(r) == injection_text(*inp),
{
    let mut active = false;
    let mut i: usize = 0;
    while i < inp.corrections.len()
        invariant
            i <= inp.corrections.len(),
            active == has_active(inp.corrections@.take(i as int)),
        decreases inp.corrections.len() - i,
    {
        proof {
            let t = inp.corrections@.take(i + 1);
            if has_active(inp.corrections@.take(i as int)) {
                let j = choose|j: int| 0 <= j < i && (#[trigger] inp.corrections@.take(i as int)[j]).superseded_by is None;
                assert(t[j] == inp.corrections@.take(i as int)[j]);
            }
            assert(t[i as int] == inp.corrections@[i as int]);
        }
        if inp.corrections[i].is_active() {
            active = true;
        }
        i += 1;
    }
    proof {
        assert(inp.corrections@.take(inp.corrections@.len() as int) =~= inp.corrections@);
    }
    let style = inp.detail_preference.is_some() || inp.explanation_style.is_some()
        || inp.challenge_tolerance.is_some() || inp.format.is_some() || inp.language.len() > 0;
    if !(inp.high_domains.len() > 0 || inp.low_domains.len() > 0 || style || active
        || inp.frequent_paths.len() > 0 || inp.sessions.len() > 0) {
        return None;
    }
    let you_full = you_section(inp, true);
    let you_trimmed = you_section(inp, false);
    let workspace = workspace_section(inp);
    let rules = rules_section(inp);
    let sessions_full = sessions_section(inp, INJECTION_RECENT_SESSIONS);
    let text = assemble(inp, &you_full, &workspace, &rules, &sessions_full);
    if estimate_tokens(text.as_str()) <= MAX_INJECTION_TOKENS {
        return Some(text);
    }
    let sessions_short = sessions_section(inp, 1);
    let text = assemble(inp, &you_full, &workspace, &rules, &sessions_short);
    if estimate_tokens(text.as_str()) <= MAX_INJECTION_TOKENS {
        return Some(text);
    }
    let text = assemble(inp, &you_trimmed, &workspace, &rules, &sessions_short);
    if estimate_tokens(text.as_str()) <= MAX_INJECTION_TOKENS {
        return Some(text);
    }
    Some(assemble(inp, &you_trimmed, &workspace, &rules, &None))
}

/// Shortening never drops the rules or the workspace: every form of the
/// block is assembled from them with some "You" form and some sessions
/// section, and every "You" form ends with the style lines.
pub proof fn lemma_injection_keeps_core(inp: InjectionInput)
    ensures
        injection_text(inp) matches Some(t) ==> exists|with_low: bool, sessions: Option<Seq<char>>|
            t == assembled_text(inp, you_text(inp, with_low), sessions),
        has_style(inp) ==> (you_text(inp, true) matches Some(y) && crate::text::ends_with(
            y,
            style_lines(inp),
        )),
        has_style(inp) ==> (you_text(inp, false) matches Some(y) && crate::text::ends_with(
            y,
            style_lines(inp),
        )),
{
    if has_content(inp) {
        let t1 = assembled_text(inp, you_text(inp, true), sessions_text(inp, 3));
        let t2 = assembled_text(inp, you_text(inp, true), sessions_text(inp, 1));
        let t3 = assembled_text(inp, you_text(inp, false), sessions_text(inp, 1));
        let t4 = assembled_text(inp, you_text(inp, false), None);
        if token_estimate(t1) <= MAX_INJECTION_TOKENS {
            assert(injection_text(inp) == Some(t1));
        } else if token_estimate(t2) <= MAX_INJECTION_TOKENS {
            assert(injection_text(inp) == Some(t2));
        } else if token_estimate(t3) <= MAX_INJECTION_TOKENS {
            assert(injection_text(inp) == Some(t3));
        } else {
            assert(injection_text(inp) == Some(t4));
        }
    }
    if has_style(inp) {
        let y1 = you_text(inp, true)->0;
        let y2 = you_text(inp, false)->0;
        let st = style_lines(inp);
        assert(y1.skip(y1.len() - st.len()) =~= st);
        assert(y2.skip(y2.len() - st.len()) =~= st);
    }
}

} // verus!
