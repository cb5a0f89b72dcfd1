//! Passive highlights: deciding whether a user message is sent to the local
//! model for a "worth saving" check, and reading the model's verdict.
use vstd::prelude::*;

use crate::text::{
    char_count, chars_of, fit_prefix, fit_prefix_len, push_str, str_eq, string_of_range,
    to_owned_str, trim, trim_str, utf8_len, utf8_length,
};

verus! {

pub const SYSTEM_PASSIVE: &'static str = "You analyze a single user message from a knowledge-work app. Decide whether it expresses a valuable thought worth saving as a structured note: integrating ideas, correcting a prior misunderstanding, or making a non-trivial cross-domain connection.\n\nRespond with ONE JSON object only (no markdown fences, no prose). Use exactly these camelCase keys:\n- \"detected\": boolean\n- \"kind\": one of \"integrate\" | \"correct\" | \"cross_domain\"\n- \"confidence\": number from 0 to 1 (how sure you are)\n- \"summary\": short plain-text summary suitable as note seed (1-3 sentences); MUST use the same language and script as the user message — do not translate to English if the user wrote in another language\n- \"useRawFallback\": boolean — set true only if a good summary cannot be produced but the message should still be offered for raw capture\n\nIf nothing qualifies, return {\"detected\":false,\"kind\":\"integrate\",\"confidence\":0,\"summary\":\"\",\"useRawFallback\":false}.";

/// Messages shorter than this many characters (trimmed) are not checked.
pub const MIN_PASSIVE_CHARS: usize = 20;

/// A summary longer than this many bytes is cut.
pub const MAX_SUMMARY_BYTES: usize = 4000;

/// Each reported inaccuracy raises the confidence bar by one step; at most
/// this many steps count.
pub const MAX_INACCURACY_STEPS: u32 = 5;

pub const NO_JSON_OBJECT: &'static str = "model output did not contain JSON object";

pub const INVALID_JSON_SLICE: &'static str = "invalid JSON slice";

pub const NO_MODEL_SELECTED: &'static str = "No model selected. Choose a model in settings.";

/// The trimmed message when it has at least `MIN_PASSIVE_CHARS`
/// characters; shorter ones are not checked.
pub fn passive_candidate(text: &str) -> (r: Option<String>)
    ensures
        trim(text@).len() < MIN_PASSIVE_CHARS ==> r is None,
        trim(text@).len() >= MIN_PASSIVE_CHARS ==> (r matches Some(t) && t@ == trim(text@)),
{
    let t = trim_str(text);
    if char_count(t.as_str()) < MIN_PASSIVE_CHARS {
        None
    } else {
        Some(t)
    }
}

/// The user message of the check.
pub fn passive_user_content(trimmed: &str) -> (r: String)
    ensures
        r@ == "Analyze the following user message.\n\n---\n"@ + trimmed@ + "\n---"@,
{
    let mut s = to_owned_str("Analyze the following user message.\n\n---\n");
    push_str(&mut s, trimmed);
    push_str(&mut s, "\n---");
    s
}

/// The model of the check: the trimmed last used model unless blank, else
/// the default model (as written) unless blank.
pub fn passive_model(last_used: Option<&str>, default_model: &str) -> (r: Result<String, String>)
    ensures
        match crate::text::opt_chars(last_used) {
            Some(l) if trim(l).len() > 0 => r matches Ok(m) && m@ == trim(l),
            _ => if trim(default_model@).len() > 0 {
                r matches Ok(m) && m@ == default_model@
            } else {
                r matches Err(e) && e@ == NO_MODEL_SELECTED@
            },
        },
{
    match last_used {
        Some(l) => {
            let t = trim_str(l);
            if t.unicode_len() > 0 {
                return Ok(t);
            }
        },
        None => {},
    }
    let d = trim_str(default_model);
    if d.unicode_len() > 0 {
        Ok(to_owned_str(default_model))
    } else {
        Err(to_owned_str(NO_MODEL_SELECTED))
    }
}

/// Index of the first `c` in `s`, or -1.
pub open spec fn first_index(s: Seq<char>, c: char) -> int
    decreases s.len(),
{
    if s.len() == 0 {
        -1
    } else if s[0] == c {
        0
    } else {
        let r = first_index(s.drop_first(), c);
        if r < 0 {
            -1
        } else {
            r + 1
        }
    }
}

/// Index of the last `c` in `s`, or -1.
pub open spec fn last_index(s: Seq<char>, c: char) -> int
    decreases s.len(),
{
    if s.len() == 0 {
        -1
    } else if s.last() == c {
        s.len() - 1
    } else {
        last_index(s.drop_last(), c)
    }
}

proof fn lemma_first_index(s: Seq<char>, c: char)
    ensures
        -1 <= first_index(s, c) < s.len(),
        first_index(s, c) >= 0 ==> s[first_index(s, c)] == c,
        forall|j: int| 0 <= j < s.len() && (first_index(s, c) < 0 || j < first_index(s, c)) ==> s[j] != c,
    decreases s.len(),
{
    if s.len() > 0 && s[0] != c {
        lemma_first_index(s.drop_first(), c);
        assert forall|j: int| 0 <= j < s.len() && (first_index(s, c) < 0 || j < first_index(s, c))
            implies s[j] != c by {
            if j > 0 {
                assert(s[j] == s.drop_first()[j - 1]);
            }
        }
    }
}

proof fn lemma_last_index(s: Seq<char>, c: char)
    ensures
        -1 <= last_index(s, c) < s.len(),
        last_index(s, c) >= 0 ==> s[last_index(s, c)] == c,
        forall|j: int| last_index(s, c) < j < s.len() ==> s[j] != c,
    decreases s.len(),
{
    if s.len() > 0 && s.last() != c {
        lemma_last_index(s.drop_last(), c);
        assert forall|j: int| last_index(s, c) < j < s.len() implies s[j] != c by {
            if j < s.len() - 1 {
                assert(s[j] == s.drop_last()[j]);
            }
        }
    }
}

/// The JSON object in the model's reply: from the first `{` to the last `}`
/// of the trimmed reply.
pub open spec fn json_slice(raw: Seq<char>) -> Result<Seq<char>, Seq<char>> {
    let s = trim(raw);
    let a = first_index(s, '{');
    let b = last_index(s, '}');
    if a < 0 || b < 0 {
        Err(NO_JSON_OBJECT@)
    } else if b < a {
        Err(INVALID_JSON_SLICE@)
    } else {
        Ok(s.subrange(a, b + 1))
    }
}

/// Cuts the JSON object out of the model's reply (see `json_slice`).
pub fn detect_json_slice(raw: &str) -> (r: Result<String, String>)
    ensures
        match json_slice(raw@) {
            Ok(j) => r matches Ok(t) && t@ == j,
            Err(e) => r matches Err(t) && t@ == e,
        },
{
    let s = trim_str(raw);
    let v = chars_of(s.as_str());
    let mut a: usize = 0;
    while a < v.len() && v[a] != '{'
        invariant
            a <= v.len(),
            forall|j: int| 0 <= j < a ==> v@[j] != '{',
        decreases v.len() - a,
    {
        a += 1;
    }
    let mut b: usize = v.len();
    while b > 0 && v[b - 1] != '}'
        invariant
            b <= v.len(),
            forall|j: int| b <= j < v.len() ==> v@[j] != '}',
        decreases b,
    {
        b -= 1;
    }
    proof {
        lemma_first_index(v@, '{');
        lemma_last_index(v@, '}');
        let fi = first_index(v@, '{');
        let li = last_index(v@, '}');
        if a < v.len() {
            assert(fi == a) by {
                if fi < 0 || fi > a {
                } else if fi < a {
                    assert(v@[fi] != '{');
                }
            }
        } else {
            assert(fi < 0) by {
                if fi >= 0 {
                    assert(v@[fi] != '{');
                }
            }
        }
        if b > 0 {
            assert(li == b - 1) by {
                if li > b - 1 {
                    assert(v@[li] != '}');
                } else if li < b - 1 {
                }
            }
        } else {
            assert(li < 0) by {
                if li >= 0 {
                    assert(v@[li] != '}');
                }
            }
        }
    }
    if a == v.len() || b == 0 {
        return Err(to_owned_str(NO_JSON_OBJECT));
    }
    if b - 1 < a {
        return Err(to_owned_str(INVALID_JSON_SLICE));
    }
    Ok(string_of_range(&v, a, b))
}

/// The kinds of highlight, as the model names them.
pub open spec fn kind_name(k: Seq<char>) -> Option<Seq<char>> {
    let t = trim(k);
    if t == "integrate"@ || t == "correct"@ || t == "cross_domain"@ {
        Some(t)
    } else {
        None
    }
}

/// Every kind the system prompt allows is accepted as it is (once
/// trimmed), and nothing else is: an accepted kind is always the trimmed
/// input and one of the three.
pub proof fn lemma_allowed_kinds_accepted(k: Seq<char>)
    ensures
        trim(k) == "integrate"@ ==> kind_name(k) == Some("integrate"@),
        trim(k) == "correct"@ ==> kind_name(k) == Some("correct"@),
        trim(k) == "cross_domain"@ ==> kind_name(k) == Some("cross_domain"@),
        kind_name(k) matches Some(x) ==> x == trim(k) && (x == "integrate"@ || x == "correct"@ || x
            == "cross_domain"@),
{
}

/// The normalized kind of a highlight, or `None` for an unknown one.
pub fn normalize_kind(k: &str) -> (r: Option<&'static str>)
    ensures
        crate::text::opt_chars(r) == kind_name(k@),
        trim(k@) == "integrate"@ || trim(k@) == "correct"@ || trim(k@) == "cross_domain"@ ==> (r matches Some(
            x,
        ) && x@ == trim(k@)),
        r matches Some(x) ==> x@ == trim(k@),
{
    let t = trim_str(k);
    if str_eq(t.as_str(), "integrate") {
        Some("integrate")
    } else if str_eq(t.as_str(), "correct") {
        Some("correct")
    } else if str_eq(t.as_str(), "cross_domain") {
        Some("cross_domain")
    } else {
        None
    }
}

/// The kind reported, `integrate` when the model gave none.
pub fn reported_kind(kind: Option<&str>) -> (r: Option<&'static str>)
    ensures
        crate::text::opt_chars(r) == kind_name(
            match crate::text::opt_chars(kind) {
                Some(k) => k,
                None => "integrate"@,
            },
        ),
{
    match kind {
        Some(k) => normalize_kind(k),
        None => normalize_kind("integrate"),
    }
}

/// How many confidence steps the inaccuracy reports for a kind add:
/// `(integrate, correct, cross_domain)` counts, at most
/// `MAX_INACCURACY_STEPS`, none for another kind.
pub fn inaccuracy_steps(counts: (u32, u32, u32), kind: &str) -> (r: u32)
    ensures
        r == ({
            let n = if kind@ == "integrate"@ {
                counts.0
            } else if kind@ == "correct"@ {
                counts.1
            } else if kind@ == "cross_domain"@ {
                counts.2
            } else {
                0
            };
            if n < MAX_INACCURACY_STEPS {
                n
            } else {
                MAX_INACCURACY_STEPS
            }
        }),
{
    let n = if str_eq(kind, "integrate") {
        counts.0
    } else if str_eq(kind, "correct") {
        counts.1
    } else if str_eq(kind, "cross_domain") {
        counts.2
    } else {
        0
    };
    if n < MAX_INACCURACY_STEPS {
        n
    } else {
        MAX_INACCURACY_STEPS
    }
}

/// The summary offered: the model's summary, or the message itself when
/// the model asked for the raw fallback or gave a blank summary.
pub open spec fn chosen_summary(summary: Option<Seq<char>>, raw_fallback: Option<bool>, trimmed: Seq<char>) -> (
    Seq<char>,
    bool,
) {
    let s = match summary {
        Some(x) => x,
        None => seq![],
    };
    let fallback = (match raw_fallback {
        Some(b) => b,
        None => false,
    }) || trim(s).len() == 0;
    (if fallback {
        trimmed
    } else {
        s
    }, fallback)
}

/// `MAX_SUMMARY_BYTES` falls on a character boundary of `s`, or `s` is not
/// longer (`String::truncate` panics otherwise).
pub open spec fn cut_ok(s: Seq<char>) -> bool {
    utf8_len(s) <= MAX_SUMMARY_BYTES || utf8_len(
        s.take(fit_prefix_len(s, MAX_SUMMARY_BYTES as nat) as int),
    ) == MAX_SUMMARY_BYTES
}

/// Picks the summary (see `chosen_summary`), cut to `MAX_SUMMARY_BYTES`;
/// tells whether the raw fallback was used.
pub fn passive_summary(summary: Option<&str>, raw_fallback: Option<bool>, trimmed: &str) -> (r: (
    String,
    bool,
))
    requires
        cut_ok(chosen_summary(crate::text::opt_chars(summary), raw_fallback, trimmed@).0),
    ensures
        ({
            let (s, f) = chosen_summary(crate::text::opt_chars(summary), raw_fallback, trimmed@);
            &&& r.1 == f
            &&& r.0@ == if utf8_len(s) <= MAX_SUMMARY_BYTES {
                s
            } else {
                s.take(fit_prefix_len(s, MAX_SUMMARY_BYTES as nat) as int)
            }
        }),
{
    let s: &str = match summary {
        Some(x) => x,
        None => "",
    };
    proof {
        reveal_strlit("");
    }
    let st = trim_str(s);
    let fallback = (match raw_fallback {
        Some(b) => b,
        None => false,
    }) || st.unicode_len() == 0;
    let chosen: &str = if fallback {
        trimmed
    } else {
        s
    };
    if utf8_length(chosen) <= MAX_SUMMARY_BYTES {
        (to_owned_str(chosen), fallback)
    } else {
        let v = chars_of(chosen);
        let k = fit_prefix(&v, MAX_SUMMARY_BYTES);
        (string_of_range(&v, 0, k), fallback)
    }
}

} // verus!
