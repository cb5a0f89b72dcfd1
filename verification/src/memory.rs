//! The agent's long-term user model: trigger detection, token estimates,
//! and the merge rules for corrections and sessions.
use vstd::prelude::*;

use std::collections::HashMap;

use crate::text::{
    chars_of, contains, find_from, str_contains, str_eq, to_owned_str, utf8_len, utf8_length,
};

verus! {

/// The format version of a fresh memory file.
pub fn default_version() -> (r: u32)
    ensures
        r == 2,
{
    2
}

/// The source of a correction when none is recorded.
pub fn default_explicit() -> (r: String)
    ensures
        r@ == "explicit"@,
{
    to_owned_str("explicit")
}

/// A part of the workspace the user works in often.
pub struct FrequentPath {
    pub path: String,
    pub description: String,
}

/// A style value seen once, waiting for a second consistent observation.
pub struct PendingStyleEntry {
    pub value: String,
    pub observed_at: String,
}

/// `c` is an ASCII digit.
pub open spec fn is_digit(c: char) -> bool {
    '0' <= c && c <= '9'
}

/// A UTC time as chrono writes it in RFC 3339: `YYYY-MM-DDTHH:MM:SS`, a
/// fraction of 3, 6 or 9 digits or none, then `+00:00`.
pub open spec fn is_rfc3339_utc_text(s: Seq<char>) -> bool {
    let n = s.len();
    &&& n == 25 || n == 29 || n == 32 || n == 35
    &&& s[4] == '-' && s[7] == '-' && s[10] == 'T' && s[13] == ':' && s[16] == ':'
    &&& forall|i: int|
        0 <= i < 19 && i != 4 && i != 7 && i != 10 && i != 13 && i != 16 ==> is_digit(#[trigger] s[i])
    &&& n > 25 ==> s[19] == '.'
    &&& forall|i: int| 20 <= i < n - 6 ==> is_digit(#[trigger] s[i])
    &&& s.skip(n - 6) == "+00:00"@
}

/// The current time as an RFC 3339 string (`chrono::Utc::now().to_rfc3339()`).
/// Which time depends on the clock; what is stated is the form chrono's
/// `write_rfc3339` gives a UTC time: four year digits, a fraction of 0, 3,
/// 6 or 9 digits, the offset `+00:00`. chrono writes four year digits for
/// years 0 to 9999 only (a later year gets a sign and more digits); the
/// clock is taken to read such a year.
#[verifier::external_body]
pub(crate) fn now_rfc3339() -> (r: String)
    ensures
        is_rfc3339_utc_text(r@),
{
    chrono::Utc::now().to_rfc3339()
}

/// A pending style value is forgotten after this many days.
pub const PENDING_TTL_DAYS: i64 = 30;

/// An instant as seconds and nanoseconds since the Unix epoch.
pub type Instant = (i64, u32);

/// `a` is later than `b`.
pub open spec fn instant_after(a: Instant, b: Instant) -> bool {
    a.0 > b.0 || (a.0 == b.0 && a.1 > b.1)
}

/// The instant an RFC 3339 time stands for, if it parses.
pub uninterp spec fn rfc3339_instant(text: Seq<char>) -> Option<Instant>;

/// `chrono::DateTime::parse_from_rfc3339`, then `timestamp` and
/// `timestamp_subsec_nanos`; `None` when the text does not parse. A
/// function of the text, named `rfc3339_instant`.
#[verifier::external_body]
fn parse_rfc3339_instant(text: &str) -> (r: Option<Instant>)
    ensures
        r == rfc3339_instant(text@),
{
    chrono::DateTime::parse_from_rfc3339(text).ok().map(|dt| (dt.timestamp(), dt.timestamp_subsec_nanos()))
}

/// The current instant (`chrono::Utc::now()`, as `timestamp` and
/// `timestamp_subsec_nanos`). It depends on the clock, so nothing is stated
/// of it.
#[verifier::external_body]
fn now_instant() -> Instant {
    let n = chrono::Utc::now();
    (n.timestamp(), n.timestamp_subsec_nanos())
}

/// `PENDING_TTL_DAYS` before `now` (at the earliest `i64::MIN` seconds).
pub open spec fn pending_cutoff_of(now: Instant) -> Instant {
    let secs = now.0 - PENDING_TTL_DAYS * 86400;
    (if secs < i64::MIN { i64::MIN } else { secs as i64 }, now.1)
}

/// The instant before which pending style values are forgotten: now minus
/// `PENDING_TTL_DAYS`.
pub fn pending_cutoff_now() -> (r: Instant)
    ensures
        exists|now: Instant| r == pending_cutoff_of(now),
{
    let now = now_instant();
    let secs = if now.0 < i64::MIN + PENDING_TTL_DAYS * 86400 {
        i64::MIN
    } else {
        now.0 - PENDING_TTL_DAYS * 86400
    };
    proof {
        assert((secs, now.1) == pending_cutoff_of(now));
    }
    (secs, now.1)
}

/// A pending value observed at `observed_at` is kept when that time is
/// after `cutoff`, or when it does not parse.
pub fn pending_kept(observed_at: &str, cutoff: Instant) -> (r: bool)
    ensures
        r == match rfc3339_instant(observed_at@) {
            Some(t) => instant_after(t, cutoff),
            None => true,
        },
{
    match parse_rfc3339_instant(observed_at) {
        Some(t) => t.0 > cutoff.0 || (t.0 == cutoff.0 && t.1 > cutoff.1),
        None => true,
    }
}

impl PendingStyleEntry {
    /// A pending value observed now.
    pub fn new(value: String) -> (r: Self)
        ensures
            r.value == value,
            is_rfc3339_utc_text(r.observed_at@),
    {
        PendingStyleEntry { value, observed_at: now_rfc3339() }
    }
}

/// How the user likes to be answered, with values still pending
/// confirmation.
pub struct InteractionStyle {
    pub detail_preference: Option<String>,
    pub explanation_style: Option<String>,
    pub challenge_tolerance: Option<String>,
    pub language: HashMap<String, String>,
    pub format: Option<String>,
    pub pending: HashMap<String, PendingStyleEntry>,
}

impl Default for InteractionStyle {
    fn default() -> (r: Self)
        ensures
            r.detail_preference is None,
            r.explanation_style is None,
            r.challenge_tolerance is None,
            r.format is None,
            r.language@ == Map::<String, String>::empty(),
            r.pending@ == Map::<String, PendingStyleEntry>::empty(),
    {
        InteractionStyle {
            detail_preference: None,
            explanation_style: None,
            challenge_tolerance: None,
            language: HashMap::new(),
            format: None,
            pending: HashMap::new(),
        }
    }
}

/// A rule the user asked the assistant to follow, possibly superseded.
pub struct MemoryCorrection {
    pub rule: String,
    pub reason: String,
    pub date: String,
    pub source: String,
    pub superseded_by: Option<String>,
    pub superseded_at: Option<String>,
}

impl MemoryCorrection {
    /// A correction is active until it is superseded.
    pub fn is_active(&self) -> (r: bool)
        ensures
            r == self.superseded_by.is_none(),
    {
        self.superseded_by.is_none()
    }
}

/// A summary of one past session.
pub struct MemorySession {
    pub date: String,
    pub summary: String,
    pub domains_touched: Vec<String>,
    pub follow_up: Option<String>,
}

/// A correction extracted from a conversation.
pub struct NewCorrection {
    pub rule: String,
    pub reason: String,
}

/// What a reflection proposal asks to do.
pub enum ProposalAction {
    Add,
    Update,
    Archive,
    Merge,
    Skip,
}

/// Unicode lower-casing of a string, as `str::to_lowercase` computes it.
pub uninterp spec fn lowercase(s: Seq<char>) -> Seq<char>;

/// `str::to_lowercase`: the Unicode lower case of `s`.
#[verifier::external_body]
pub(crate) fn to_lowercase(s: &str) -> (r: String)
    ensures
        r@ == lowercase(s@),
{
    s.to_lowercase()
}

/// The phrases that mark an explicit memory instruction.
pub open spec fn trigger_phrases() -> Seq<Seq<char>> {
    seq![
        "记住"@,
        "忘记"@,
        "以后都"@,
        "以后每次"@,
        "不要再"@,
        "remember "@,
        "forget "@,
        "from now on"@,
        "always "@,
        "never "@,
    ]
}

/// Whether the lower-cased message contains one of the trigger phrases.
pub open spec fn has_trigger(message: Seq<char>) -> bool {
    exists|i: int| 0 <= i < trigger_phrases().len() && contains(lowercase(message), #[trigger] trigger_phrases()[i])
}

/// Detects an explicit memory instruction ("remember …", "以后都 …").
pub fn contains_trigger(message: &str) -> (r: bool)
    ensures
        r == has_trigger(message@),
{
    let lower = to_lowercase(message);
    let l = lower.as_str();
    let ts: [&str; 10] = [
        "记住",
        "忘记",
        "以后都",
        "以后每次",
        "不要再",
        "remember ",
        "forget ",
        "from now on",
        "always ",
        "never ",
    ];
    let ghost phrases = trigger_phrases();
    assert(forall|i: int| 0 <= i < 10 ==> ts@[i]@ == phrases[i]);
    let mut i: usize = 0;
    while i < 10
        invariant
            i <= 10,
            l@ == lowercase(message@),
            phrases == trigger_phrases(),
            forall|k: int| 0 <= k < 10 ==> ts@[k]@ == phrases[k],
            forall|k: int| 0 <= k < i ==> !contains(lowercase(message@), #[trigger] phrases[k]),
        decreases 10 - i,
    {
        if str_contains(l, ts[i]) {
            assert(contains(lowercase(message@), phrases[i as int]));
            return true;
        }
        i += 1;
    }
    false
}

/// A message cut to its first `max_chars` characters when its UTF-8 length
/// exceeds `max_chars`.
pub open spec fn truncated_message(content: Seq<char>, max_chars: nat) -> Seq<char> {
    if utf8_len(content) <= max_chars || content.len() <= max_chars {
        content
    } else {
        content.take(max_chars as int)
    }
}

/// Keeps at most `max_chars` characters of a message.
pub fn truncate_message(content: &str, max_chars: usize) -> (r: &str)
    ensures
        r@ == truncated_message(content@, max_chars as nat),
{
    if utf8_length(content) <= max_chars {
        return content;
    }
    let n = content.unicode_len();
    if n <= max_chars {
        content
    } else {
        content.substring_char(0, max_chars)
    }
}

/// CJK ideographs, kana, hangul and CJK punctuation.
pub open spec fn is_cjk_char(c: char) -> bool {
    let u = c as u32;
    (0x4E00 <= u <= 0x9FFF) || (0x3400 <= u <= 0x4DBF) || (0xF900 <= u <= 0xFAFF) || (0x3000
        <= u <= 0x303F) || (0x3040 <= u <= 0x309F) || (0x30A0 <= u <= 0x30FF) || (0xAC00 <= u
        <= 0xD7AF)
}

/// Whether `c` is a CJK character.
pub fn is_cjk(c: char) -> (r: bool)
    ensures
        r == is_cjk_char(c),
{
    let u = c as u32;
    (0x4E00 <= u && u <= 0x9FFF) || (0x3400 <= u && u <= 0x4DBF) || (0xF900 <= u && u <= 0xFAFF)
        || (0x3000 <= u && u <= 0x303F) || (0x3040 <= u && u <= 0x309F) || (0x30A0 <= u && u
        <= 0x30FF) || (0xAC00 <= u && u <= 0xD7AF)
}

/// Number of CJK characters in `s`.
pub open spec fn cjk_count(s: Seq<char>) -> nat
    decreases s.len(),
{
    if s.len() == 0 {
        0
    } else {
        cjk_count(s.drop_last()) + if is_cjk_char(s.last()) {
            1nat
        } else {
            0nat
        }
    }
}

/// Token estimate: one per CJK character, one per three other characters.
pub open spec fn token_estimate(s: Seq<char>) -> nat {
    cjk_count(s) + (s.len() - cjk_count(s)) as nat / 3
}

proof fn lemma_cjk_count_le(s: Seq<char>)
    ensures
        cjk_count(s) <= s.len(),
    decreases s.len(),
{
    if s.len() > 0 {
        lemma_cjk_count_le(s.drop_last());
    }
}

/// Estimates the tokens of a text.
pub fn estimate_tokens(text: &str) -> (r: usize)
    ensures
        r == token_estimate(text@),
{
    let v = chars_of(text);
    let mut cjk: usize = 0;
    let mut other: usize = 0;
    let mut i: usize = 0;
    while i < v.len()
        invariant
            i <= v.len(),
            cjk == cjk_count(v@.take(i as int)),
            cjk + other == i,
        decreases v.len() - i,
    {
        proof {
            assert(v@.take(i + 1).drop_last() =~= v@.take(i as int));
        }
        if is_cjk(v[i]) {
            cjk += 1;
        } else {
            other += 1;
        }
        i += 1;
    }
    proof {
        assert(v@.take(v@.len() as int) =~= v@);
    }
    cjk + other / 3
}

/// The rank of a knowledge depth: curious < learning < practitioner <
/// expert; anything else ranks 0.
pub open spec fn depth_rank_spec(depth: Seq<char>) -> u32 {
    if depth == "curious"@ {
        1
    } else if depth == "learning"@ {
        2
    } else if depth == "practitioner"@ {
        3
    } else if depth == "expert"@ {
        4
    } else {
        0
    }
}

/// Ranks a knowledge depth.
pub fn depth_rank(depth: &str) -> (r: u32)
    ensures
        r == depth_rank_spec(depth@),
{
    if str_eq(depth, "curious") {
        1
    } else if str_eq(depth, "learning") {
        2
    } else if str_eq(depth, "practitioner") {
        3
    } else if str_eq(depth, "expert") {
        4
    } else {
        0
    }
}

/// Two style values agree when, lower-cased, they are equal or one
/// contains the other.
pub open spec fn pending_match(pending: Seq<char>, new: Seq<char>) -> bool {
    let a = lowercase(pending);
    let b = lowercase(new);
    a == b || contains(a, b) || contains(b, a)
}

/// Whether a newly observed style value confirms the pending one.
pub fn pending_values_match(pending: &str, new: &str) -> (r: bool)
    ensures
        r == pending_match(pending@, new@),
{
    let a = to_lowercase(pending);
    let b = to_lowercase(new);
    str_eq(a.as_str(), b.as_str()) || str_contains(a.as_str(), b.as_str()) || str_contains(
        b.as_str(),
        a.as_str(),
    )
}

} // verus!
