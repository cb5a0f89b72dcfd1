//! Merging extracted corrections and sessions into the user's memory.
use vstd::prelude::*;

use crate::memory::{MemoryCorrection, MemorySession, NewCorrection};
use crate::text::{opt_string, str_eq, strs, to_owned_str};

verus! {

pub const MAX_CORRECTIONS: usize = 20;

pub const MAX_SESSIONS: usize = 10;

/// What a correction holds: rule, reason, date, source, superseded by,
/// superseded at.
pub type CorrectionView = (
    Seq<char>,
    Seq<char>,
    Seq<char>,
    Seq<char>,
    Option<Seq<char>>,
    Option<Seq<char>>,
);

/// The view of a correction.
pub open spec fn cview(c: MemoryCorrection) -> CorrectionView {
    (c.rule@, c.reason@, c.date@, c.source@, opt_string(c.superseded_by), opt_string(c.superseded_at))
}

/// The views of a list of corrections.
pub open spec fn cviews(cs: Seq<MemoryCorrection>) -> Seq<CorrectionView> {
    cs.map_values(|c: MemoryCorrection| cview(c))
}

/// A correction is active until superseded.
pub open spec fn active(c: CorrectionView) -> bool {
    c.4 is None
}

/// `c` superseded for `why` on `today`.
pub open spec fn superseded(c: CorrectionView, why: Seq<char>, today: Seq<char>) -> CorrectionView {
    (c.0, c.1, c.2, c.3, Some(why), Some(today))
}

/// Forgetting `rule`: every active correction with that rule is superseded
/// by the user.
pub open spec fn forget_rule(cs: Seq<CorrectionView>, rule: Seq<char>, today: Seq<char>) -> Seq<
    CorrectionView,
> {
    cs.map_values(
        |c: CorrectionView|
            if active(c) && c.0 == rule {
                superseded(c, "user_forget"@, today)
            } else {
                c
            },
    )
}

/// Forgetting each of `rules` in turn.
pub open spec fn forget_rules(cs: Seq<CorrectionView>, rules: Seq<Seq<char>>, today: Seq<char>) -> Seq<
    CorrectionView,
>
    decreases rules.len(),
{
    if rules.len() == 0 {
        cs
    } else {
        forget_rule(forget_rules(cs, rules.drop_last(), today), rules.last(), today)
    }
}

/// Index of the first active correction with `rule`, or -1.
pub open spec fn find_active(cs: Seq<CorrectionView>, rule: Seq<char>, i: int) -> int
    decreases cs.len() - i,
{
    if i < 0 || i >= cs.len() {
        -1
    } else if active(cs[i]) && cs[i].0 == rule {
        i
    } else {
        find_active(cs, rule, i + 1)
    }
}

/// Adding one correction: an active one with the same rule is refreshed
/// (date and reason), otherwise a new explicit correction is appended.
pub open spec fn add_correction(
    cs: Seq<CorrectionView>,
    rule: Seq<char>,
    reason: Seq<char>,
    today: Seq<char>,
) -> Seq<CorrectionView> {
    let i = find_active(cs, rule, 0);
    if i >= 0 {
        cs.update(i, (cs[i].0, reason, today, cs[i].3, cs[i].4, cs[i].5))
    } else {
        cs.push((rule, reason, today, "explicit"@, None, None))
    }
}

/// Adding each new correction in turn.
pub open spec fn add_corrections(
    cs: Seq<CorrectionView>,
    new: Seq<(Seq<char>, Seq<char>)>,
    today: Seq<char>,
) -> Seq<CorrectionView>
    decreases new.len(),
{
    if new.len() == 0 {
        cs
    } else {
        let before = add_corrections(cs, new.drop_last(), today);
        add_correction(before, new.last().0, new.last().1, today)
    }
}


/// Where `x` goes in `s` to keep it sorted by date, after every element of
/// equal date.
pub open spec fn insert_pos(s: Seq<CorrectionView>, x: CorrectionView) -> int
    decreases s.len(),
{
    if s.len() == 0 {
        0
    } else if crate::text::lex_le(s.last().2, x.2) {
        s.len() as int
    } else {
        insert_pos(s.drop_last(), x)
    }
}

/// `s` sorted by date, stably (equal dates keep their order).
pub open spec fn sort_by_date(s: Seq<CorrectionView>) -> Seq<CorrectionView>
    decreases s.len(),
{
    if s.len() == 0 {
        seq![]
    } else {
        let sorted = sort_by_date(s.drop_last());
        sorted.insert(insert_pos(sorted, s.last()), s.last())
    }
}

/// Number of active corrections.
pub open spec fn active_count(cs: Seq<CorrectionView>) -> nat
    decreases cs.len(),
{
    if cs.len() == 0 {
        0
    } else {
        active_count(cs.drop_last()) + if active(cs.last()) {
            1nat
        } else {
            0nat
        }
    }
}

/// The first `k` active corrections superseded for capacity.
pub open spec fn retire_oldest(cs: Seq<CorrectionView>, k: nat, today: Seq<char>) -> Seq<
    CorrectionView,
>
    decreases cs.len(),
{
    if cs.len() == 0 {
        seq![]
    } else if k > 0 && active(cs[0]) {
        seq![superseded(cs[0], "capacity"@, today)] + retire_oldest(cs.drop_first(), (k - 1) as nat, today)
    } else {
        seq![cs[0]] + retire_oldest(cs.drop_first(), k, today)
    }
}

/// Over `MAX_CORRECTIONS` active corrections, the oldest (by date) are
/// superseded for capacity, after sorting by date.
pub open spec fn enforce_capacity(cs: Seq<CorrectionView>, today: Seq<char>) -> Seq<CorrectionView> {
    let n = active_count(cs);
    if n > MAX_CORRECTIONS {
        retire_oldest(sort_by_date(cs), (n - MAX_CORRECTIONS) as nat, today)
    } else {
        cs
    }
}

/// The views of new corrections.
pub open spec fn new_views(ns: Seq<NewCorrection>) -> Seq<(Seq<char>, Seq<char>)> {
    ns.map_values(|n: NewCorrection| (n.rule@, n.reason@))
}

/// The merge of extracted corrections: forget, add, then enforce capacity.
pub open spec fn merged_corrections(
    cs: Seq<CorrectionView>,
    new: Seq<(Seq<char>, Seq<char>)>,
    forget: Seq<Seq<char>>,
    today: Seq<char>,
) -> Seq<CorrectionView> {
    enforce_capacity(add_corrections(forget_rules(cs, forget, today), new, today), today)
}

/// Marks a correction superseded for `why` on `today`.
fn supersede(cs: &mut Vec<MemoryCorrection>, i: usize, why: &str, today: &str)
    requires
        i < old(cs).len(),
    ensures
        final(cs)@.len() == old(cs)@.len(),
        cviews(final(cs)@) == cviews(old(cs)@).update(
            i as int,
            superseded(cview(old(cs)@[i as int]), why@, today@),
        ),
{
    let ghost before = cs@;
    let mut c = cs.remove(i);
    c.superseded_by = Some(to_owned_str(why));
    c.superseded_at = Some(to_owned_str(today));
    cs.insert(i, c);
    proof {
        assert(cviews(cs@) =~= cviews(before).update(
            i as int,
            superseded(cview(before[i as int]), why@, today@),
        ));
    }
}

/// Forgets one rule.
fn forget_one(cs: &mut Vec<MemoryCorrection>, rule: &str, today: &str)
    ensures
        cviews(final(cs)@) == forget_rule(cviews(old(cs)@), rule@, today@),
{
    let ghost orig = cviews(cs@);
    let ghost target = forget_rule(orig, rule@, today@);
    let mut i: usize = 0;
    while i < cs.len()
        invariant
            i <= cs.len(),
            cs@.len() == orig.len(),
            target == forget_rule(orig, rule@, today@),
            forall|j: int| 0 <= j < i ==> (#[trigger] cviews(cs@)[j]) == target[j],
            forall|j: int| i <= j < cs@.len() ==> (#[trigger] cviews(cs@)[j]) == orig[j],
        decreases cs.len() - i,
    {
        let ghost before = cviews(cs@);
        proof {
            assert(before[i as int] == orig[i as int]);
            assert(target[i as int] == (if active(orig[i as int]) && orig[i as int].0 == rule@ {
                superseded(orig[i as int], "user_forget"@, today@)
            } else {
                orig[i as int]
            }));
        }
        if cs[i].is_active() && str_eq(cs[i].rule.as_str(), rule) {
            proof {
                reveal_strlit("user_forget");
            }
            supersede(cs, i, "user_forget", today);
        }
        proof {
            assert forall|j: int| 0 <= j < i + 1 implies (#[trigger] cviews(cs@)[j]) == target[j] by {
                if j < i {
                    assert(cviews(cs@)[j] == before[j]);
                }
            }
            assert forall|j: int| i + 1 <= j < cs@.len() implies (#[trigger] cviews(cs@)[j]) == orig[j] by {
                assert(cviews(cs@)[j] == before[j]);
            }
        }
        i += 1;
    }
    proof {
        assert(cviews(cs@) =~= target);
    }
}

/// Forgets each rule in turn.
fn forget_all(cs: &mut Vec<MemoryCorrection>, rules: &Vec<String>, today: &str)
    ensures
        cviews(final(cs)@) == forget_rules(cviews(old(cs)@), strs(rules@), today@),
{
    let ghost orig = cviews(cs@);
    let mut k: usize = 0;
    while k < rules.len()
        invariant
            k <= rules.len(),
            cviews(cs@) == forget_rules(orig, strs(rules@).take(k as int), today@),
        decreases rules.len() - k,
    {
        proof {
            assert(strs(rules@).take(k + 1).drop_last() =~= strs(rules@).take(k as int));
        }
        forget_one(cs, rules[k].as_str(), today);
        k += 1;
    }
    proof {
        assert(strs(rules@).take(rules@.len() as int) =~= strs(rules@));
    }
}

/// Adds one correction.
fn add_one(cs: &mut Vec<MemoryCorrection>, nc: NewCorrection, today: &str)
    ensures
        cviews(final(cs)@) == add_correction(cviews(old(cs)@), nc.rule@, nc.reason@, today@),
{
    let ghost orig = cviews(cs@);
    let mut i: usize = 0;
    while i < cs.len()
        invariant
            i <= cs.len(),
            cviews(cs@) == orig,
            orig == cviews(old(cs)@),
            find_active(orig, nc.rule@, 0) == find_active(orig, nc.rule@, i as int),
        decreases cs.len() - i,
    {
        proof {
            assert(orig[i as int] == cview(cs@[i as int]));
        }
        if cs[i].is_active() && str_eq(cs[i].rule.as_str(), nc.rule.as_str()) {
            let ghost before = cs@;
            let ghost rule = nc.rule@;
            let ghost reason = nc.reason@;
            let mut c = cs.remove(i);
            c.date = to_owned_str(today);
            c.reason = nc.reason;
            cs.insert(i, c);
            proof {
                assert(find_active(orig, rule, i as int) == i);
                let o = orig[i as int];
                assert(cviews(cs@) =~= orig.update(i as int, (o.0, reason, today@, o.3, o.4, o.5)));
            }
            return;
        }
        i += 1;
    }
    let ghost before = cs@;
    let ghost rule = nc.rule@;
    let ghost reason = nc.reason@;
    proof {
        reveal_strlit("explicit");
    }
    cs.push(
        MemoryCorrection {
            rule: nc.rule,
            reason: nc.reason,
            date: to_owned_str(today),
            source: to_owned_str("explicit"),
            superseded_by: None,
            superseded_at: None,
        },
    );
    proof {
        assert(cviews(cs@) =~= orig.push((rule, reason, today@, "explicit"@, None, None)));
    }
}

/// Adds each new correction in turn.
fn add_all(cs: &mut Vec<MemoryCorrection>, new: Vec<NewCorrection>, today: &str)
    ensures
        cviews(final(cs)@) == add_corrections(cviews(old(cs)@), new_views(new@), today@),
{
    let ghost orig = cviews(cs@);
    let ghost nv = new_views(new@);
    let mut rest = new;
    let ghost mut k: int = 0;
    let ghost all = rest@;
    while rest.len() > 0
        invariant
            0 <= k,
            k + rest@.len() == all.len(),
            rest@ == all.skip(k),
            nv == new_views(all),
            cviews(cs@) == add_corrections(orig, nv.take(k), today@),
        decreases rest.len(),
    {
        let ghost r0 = rest@;
        let nc = rest.remove(0);
        proof {
            assert(all.skip(k)[0] == all[k]);
            assert(nv.take(k + 1).drop_last() =~= nv.take(k));
            assert(nv.take(k + 1).last() == (nc.rule@, nc.reason@));
            assert(rest@ =~= all.skip(k + 1));
        }
        add_one(cs, nc, today);
        proof {
            k = k + 1;
        }
    }
    proof {
        assert(nv.take(k) =~= nv);
    }
}


proof fn lemma_insert_pos_bound(s: Seq<CorrectionView>, x: CorrectionView)
    ensures
        0 <= insert_pos(s, x) <= s.len(),
    decreases s.len(),
{
    if s.len() > 0 && !crate::text::lex_le(s.last().2, x.2) {
        lemma_insert_pos_bound(s.drop_last(), x);
    }
}

proof fn lemma_sort_len(s: Seq<CorrectionView>)
    ensures
        sort_by_date(s).len() == s.len(),
    decreases s.len(),
{
    if s.len() > 0 {
        lemma_sort_len(s.drop_last());
        lemma_insert_pos_bound(sort_by_date(s.drop_last()), s.last());
    }
}

/// Sorts the corrections by date, stably.
fn sort_corrections_by_date(cs: &mut Vec<MemoryCorrection>)
    ensures
        cviews(final(cs)@) == sort_by_date(cviews(old(cs)@)),
{
    let ghost orig = cviews(cs@);
    let mut sorted: Vec<MemoryCorrection> = Vec::new();
    let ghost mut k: int = 0;
    while cs.len() > 0
        invariant
            0 <= k,
            k + cs@.len() == orig.len(),
            cviews(cs@) == orig.skip(k),
            cviews(sorted@) == sort_by_date(orig.take(k)),
        decreases cs.len(),
    {
        let ghost c0 = cs@;
        let x = cs.remove(0);
        let ghost xv = cview(x);
        proof {
            assert(cviews(c0)[0] == xv);
            assert(orig.skip(k)[0] == xv);
            assert(cviews(cs@) =~= cviews(c0).drop_first());
            assert(cviews(cs@) =~= orig.skip(k + 1));
            assert(orig.take(k + 1).drop_last() =~= orig.take(k));
            assert(orig.take(k + 1).last() == xv);
            lemma_sort_len(orig.take(k));
        }
        let ghost sv = cviews(sorted@);
        let mut pos = sorted.len();
        proof {
            assert(sv.take(pos as int) =~= sv);
        }
        while pos > 0 && !crate::text::str_lex_le(sorted[pos - 1].date.as_str(), x.date.as_str())
            invariant
                pos <= sorted.len(),
                sv == cviews(sorted@),
                xv == cview(x),
                insert_pos(sv, xv) == insert_pos(sv.take(pos as int), xv),
            decreases pos,
        {
            proof {
                assert(sv.take(pos as int).drop_last() =~= sv.take(pos - 1));
                assert(sv.take(pos as int).last() == sv[pos - 1]);
                assert(sv[pos - 1] == cview(sorted@[pos - 1]));
            }
            pos -= 1;
        }
        proof {
            if pos > 0 {
                assert(sv.take(pos as int).last() == sv[pos - 1]);
            }
            assert(sv.take(sv.len() as int) =~= sv);
        }
        sorted.insert(pos, x);
        proof {
            assert(cviews(sorted@) =~= sv.insert(pos as int, xv));
            k = k + 1;
        }
    }
    proof {
        assert(orig.take(k) =~= orig);
    }
    *cs = sorted;
}

/// Counts the active corrections.
fn count_active(cs: &Vec<MemoryCorrection>) -> (r: usize)
    ensures
        r == active_count(cviews(cs@)),
{
    let ghost v = cviews(cs@);
    let mut n: usize = 0;
    let mut i: usize = 0;
    while i < cs.len()
        invariant
            i <= cs.len(),
            v == cviews(cs@),
            n == active_count(v.take(i as int)),
            n <= i,
        decreases cs.len() - i,
    {
        proof {
            assert(v.take(i + 1).drop_last() =~= v.take(i as int));
        }
        if cs[i].is_active() {
            n += 1;
        }
        i += 1;
    }
    proof {
        assert(v.take(v.len() as int) =~= v);
    }
    n
}

/// Supersedes the first `k` active corrections for capacity.
fn retire(cs: &mut Vec<MemoryCorrection>, k: usize, today: &str)
    ensures
        cviews(final(cs)@) == retire_oldest(cviews(old(cs)@), k as nat, today@),
{
    let ghost orig = cviews(cs@);
    let mut left = k;
    let mut i: usize = 0;
    proof {
        assert(orig.skip(0) =~= orig);
        assert(orig.take(0) + retire_oldest(orig.skip(0), k as nat, today@) =~= retire_oldest(orig, k as nat, today@));
    }
    while i < cs.len()
        invariant
            i <= cs.len(),
            cs@.len() == orig.len(),
            cviews(cs@).take(i as int) + retire_oldest(orig.skip(i as int), left as nat, today@)
                == retire_oldest(orig, k as nat, today@),
            cviews(cs@).skip(i as int) == orig.skip(i as int),
        decreases cs.len() - i,
    {
        let ghost before = cviews(cs@);
        proof {
            assert(orig.skip(i as int)[0] == orig[i as int]);
            assert(orig.skip(i as int).drop_first() =~= orig.skip(i + 1));
            assert(before[i as int] == orig.skip(i as int)[0]) by {
                assert(before.skip(i as int)[0] == before[i as int]);
            }
        }
        if left > 0 && cs[i].is_active() {
            proof {
                reveal_strlit("capacity");
            }
            supersede(cs, i, "capacity", today);
            left -= 1;
            proof {
                assert(cviews(cs@).take(i + 1) =~= before.take(i as int).push(
                    superseded(orig[i as int], "capacity"@, today@),
                ));
                assert(cviews(cs@).skip(i + 1) =~= before.skip(i + 1));
            }
        } else {
            proof {
                assert(cviews(cs@).take(i + 1) =~= before.take(i as int).push(orig[i as int]));
            }
        }
        proof {
            assert(before.skip(i + 1) =~= before.skip(i as int).drop_first());
        }
        i += 1;
    }
    proof {
        assert(orig.skip(i as int) =~= Seq::<CorrectionView>::empty());
        assert(cviews(cs@).take(i as int) =~= cviews(cs@));
    }
}

/// Merges extracted corrections on `today`: rules to forget are
/// superseded, new ones refresh an active correction of the same rule or are
/// added, and over `MAX_CORRECTIONS` active ones the oldest are superseded.
pub fn merge_corrections(
    corrections: &mut Vec<MemoryCorrection>,
    new_corrections: Vec<NewCorrection>,
    remove_corrections: Vec<String>,
    today: &str,
)
    ensures
        cviews(final(corrections)@) == merged_corrections(
            cviews(old(corrections)@),
            new_views(new_corrections@),
            strs(remove_corrections@),
            today@,
        ),
{
    forget_all(corrections, &remove_corrections, today);
    add_all(corrections, new_corrections, today);
    let n = count_active(corrections);
    if n > MAX_CORRECTIONS {
        sort_corrections_by_date(corrections);
        retire(corrections, n - MAX_CORRECTIONS, today);
    }
}

proof fn lemma_active_count_concat(a: Seq<CorrectionView>, b: Seq<CorrectionView>)
    ensures
        active_count(a + b) == active_count(a) + active_count(b),
    decreases b.len(),
{
    if b.len() == 0 {
        assert(a + b =~= a);
    } else {
        lemma_active_count_concat(a, b.drop_last());
        assert((a + b).drop_last() =~= a + b.drop_last());
        assert((a + b).last() == b.last());
    }
}

proof fn lemma_active_count_single(x: CorrectionView)
    ensures
        active_count(seq![x]) == if active(x) {
            1nat
        } else {
            0nat
        },
{
    assert(seq![x].drop_last() =~= Seq::<CorrectionView>::empty());
    assert(seq![x].last() == x);
    assert(active_count(Seq::<CorrectionView>::empty()) == 0);
}

proof fn lemma_active_count_insert(s: Seq<CorrectionView>, p: int, x: CorrectionView)
    requires
        0 <= p <= s.len(),
    ensures
        active_count(s.insert(p, x)) == active_count(s) + if active(x) {
            1nat
        } else {
            0nat
        },
{
    assert(s.insert(p, x) =~= s.take(p) + (seq![x] + s.skip(p)));
    assert(s =~= s.take(p) + s.skip(p));
    lemma_active_count_concat(s.take(p), seq![x] + s.skip(p));
    lemma_active_count_concat(seq![x], s.skip(p));
    lemma_active_count_concat(s.take(p), s.skip(p));
    lemma_active_count_single(x);
}

proof fn lemma_sort_active(s: Seq<CorrectionView>)
    ensures
        active_count(sort_by_date(s)) == active_count(s),
        sort_by_date(s).len() == s.len(),
    decreases s.len(),
{
    if s.len() > 0 {
        lemma_sort_active(s.drop_last());
        let sorted = sort_by_date(s.drop_last());
        lemma_insert_pos_bound(sorted, s.last());
        lemma_active_count_insert(sorted, insert_pos(sorted, s.last()), s.last());
    }
}

proof fn lemma_retire(cs: Seq<CorrectionView>, k: nat, today: Seq<char>)
    ensures
        active_count(retire_oldest(cs, k, today)) == if active_count(cs) >= k {
            active_count(cs) - k
        } else {
            0
        },
    decreases cs.len(),
{
    if cs.len() > 0 {
        let rest = cs.drop_first();
        assert(cs =~= seq![cs[0]] + rest);
        lemma_active_count_concat(seq![cs[0]], rest);
        lemma_active_count_single(cs[0]);
        if k > 0 && active(cs[0]) {
            lemma_retire(rest, (k - 1) as nat, today);
            let h = superseded(cs[0], "capacity"@, today);
            lemma_active_count_concat(seq![h], retire_oldest(rest, (k - 1) as nat, today));
            lemma_active_count_single(h);
        } else {
            lemma_retire(rest, k, today);
            lemma_active_count_concat(seq![cs[0]], retire_oldest(rest, k, today));
        }
    }
}

/// After a merge at most `MAX_CORRECTIONS` corrections are active.
pub proof fn lemma_merge_caps_active(
    cs: Seq<CorrectionView>,
    new: Seq<(Seq<char>, Seq<char>)>,
    forget: Seq<Seq<char>>,
    today: Seq<char>,
)
    ensures
        active_count(merged_corrections(cs, new, forget, today)) <= MAX_CORRECTIONS,
{
    let added = add_corrections(forget_rules(cs, forget, today), new, today);
    let n = active_count(added);
    if n > MAX_CORRECTIONS {
        lemma_sort_active(added);
        lemma_retire(sort_by_date(added), (n - MAX_CORRECTIONS) as nat, today);
    }
}

/// Forgetting a rule leaves no active correction with that rule, and
/// changes nothing else.
pub proof fn lemma_forget_rule(cs: Seq<CorrectionView>, rule: Seq<char>, today: Seq<char>)
    ensures
        forget_rule(cs, rule, today).len() == cs.len(),
        forall|i: int|
            0 <= i < cs.len() ==> !(active(#[trigger] forget_rule(cs, rule, today)[i])
                && forget_rule(cs, rule, today)[i].0 == rule),
        forall|i: int|
            0 <= i < cs.len() && !(active(cs[i]) && cs[i].0 == rule) ==> #[trigger] forget_rule(
                cs,
                rule,
                today,
            )[i] == cs[i],
{
}

/// A date written `YYYY-MM-DD`: ten characters, `-` at 4 and 7, digits
/// elsewhere.
pub open spec fn is_ymd_text(s: Seq<char>) -> bool {
    &&& s.len() == 10
    &&& s[4] == '-'
    &&& s[7] == '-'
    &&& forall|i: int| 0 <= i < 10 && i != 4 && i != 7 ==> '0' <= #[trigger] s[i] && s[i] <= '9'
}

/// Today's date as `YYYY-MM-DD` (`chrono::Utc::now().format("%Y-%m-%d")`).
/// Which date depends on the clock; every outcome is a `YYYY-MM-DD` text.
/// `%Y` writes four digits for years 0 to 9999 only (a later year gets a
/// sign and more digits); the clock is taken to read such a year.
#[verifier::external_body]
fn today_ymd() -> (r: String)
    ensures
        is_ymd_text(r@),
{
    chrono::Utc::now().format("%Y-%m-%d").to_string()
}

/// The `YYYY-MM-DD` date `days` days before the `YYYY-MM-DD` date `date`,
/// if `date` is a valid date and the result is in range.
pub uninterp spec fn ymd_days_before(date: Seq<char>, days: i64) -> Option<Seq<char>>;

/// `chrono::NaiveDate::parse_from_str(date, "%Y-%m-%d")`, then
/// `checked_sub_signed(TimeDelta::try_days(days))`, then
/// `format("%Y-%m-%d")`; `None` when the date does not parse or a step is
/// out of range. A function of its arguments, named `ymd_days_before`.
#[verifier::external_body]
fn date_minus_days(date: &str, days: i64) -> (r: Option<String>)
    ensures
        crate::text::opt_string(r) == ymd_days_before(date@, days),
{
    let d = chrono::NaiveDate::parse_from_str(date, "%Y-%m-%d").ok()?;
    let back = d.checked_sub_signed(chrono::TimeDelta::try_days(days)?)?;
    Some(back.format("%Y-%m-%d").to_string())
}

/// Merges extracted corrections with today's date (see `merge_corrections`).
pub fn merge_corrections_today(
    corrections: &mut Vec<MemoryCorrection>,
    new_corrections: Vec<NewCorrection>,
    remove_corrections: Vec<String>,
)
    ensures
        exists|today: Seq<char>|
            is_ymd_text(today) && cviews(final(corrections)@) == merged_corrections(
                cviews(old(corrections)@),
                new_views(new_corrections@),
                strs(remove_corrections@),
                today,
            ),
{
    let today = today_ymd();
    merge_corrections(corrections, new_corrections, remove_corrections, today.as_str());
}

/// Records a session summary (dated now), keeping the last `MAX_SESSIONS`;
/// nothing happens without a summary.
pub fn merge_session(
    sessions: &mut Vec<MemorySession>,
    summary: Option<String>,
    domains_touched: Vec<String>,
    follow_up: Option<String>,
)
    ensures
        summary is None ==> final(sessions)@ == old(sessions)@,
        summary matches Some(s) ==> {
            let n = old(sessions)@.len() + 1;
            let kept = if n > MAX_SESSIONS {
                MAX_SESSIONS as nat
            } else {
                n
            };
            &&& final(sessions)@.len() == kept
            &&& final(sessions)@.drop_last() == old(sessions)@.skip(n - kept)
            &&& final(sessions)@.last().summary == s
            &&& final(sessions)@.last().domains_touched == domains_touched
            &&& final(sessions)@.last().follow_up == follow_up
            &&& crate::memory::is_rfc3339_utc_text(final(sessions)@.last().date@)
        },
{
    match summary {
        Some(s) => {
            let ghost before = sessions@;
            sessions.push(
                MemorySession {
                    date: crate::memory::now_rfc3339(),
                    summary: s,
                    domains_touched,
                    follow_up,
                },
            );
            let ghost pushed = sessions@;
            if sessions.len() > MAX_SESSIONS {
                let excess = sessions.len() - MAX_SESSIONS;
                let mut k: usize = 0;
                while k < excess
                    invariant
                        k <= excess,
                        excess == pushed.len() - MAX_SESSIONS,
                        sessions@ == pushed.skip(k as int),
                    decreases excess - k,
                {
                    sessions.remove(0);
                    proof {
                        assert(sessions@ =~= pushed.skip(k + 1));
                    }
                    k += 1;
                }
                proof {
                    assert(sessions@.drop_last() =~= before.skip(before.len() + 1 - MAX_SESSIONS));
                }
            } else {
                proof {
                    assert(sessions@.drop_last() =~= before);
                    assert(before.skip(0) =~= before);
                }
            }
        },
        None => {},
    }
}

/// Superseded corrections are kept while their superseded date sorts after
/// `cutoff` (or is unknown).
pub open spec fn kept_after_cutoff(c: CorrectionView, cutoff: Seq<char>) -> bool {
    active(c) || match c.5 {
        Some(d) => !crate::text::lex_le(d, cutoff),
        None => true,
    }
}

/// The corrections that are kept, in order.
pub open spec fn unexpired(cs: Seq<CorrectionView>, cutoff: Seq<char>) -> Seq<CorrectionView>
    decreases cs.len(),
{
    if cs.len() == 0 {
        seq![]
    } else if kept_after_cutoff(cs.last(), cutoff) {
        unexpired(cs.drop_last(), cutoff).push(cs.last())
    } else {
        unexpired(cs.drop_last(), cutoff)
    }
}

/// Drops corrections superseded on or before `cutoff`.
pub fn expire_superseded_corrections(corrections: &mut Vec<MemoryCorrection>, cutoff: &str)
    ensures
        cviews(final(corrections)@) == unexpired(cviews(old(corrections)@), cutoff@),
{
    let ghost orig = cviews(corrections@);
    let mut kept: Vec<MemoryCorrection> = Vec::new();
    let ghost mut k: int = 0;
    while corrections.len() > 0
        invariant
            0 <= k,
            k + corrections@.len() == orig.len(),
            cviews(corrections@) == orig.skip(k),
            cviews(kept@) == unexpired(orig.take(k), cutoff@),
        decreases corrections.len(),
    {
        let ghost c0 = corrections@;
        let c = corrections.remove(0);
        let ghost cv = cview(c);
        proof {
            assert(cviews(c0)[0] == cv);
            assert(orig.skip(k)[0] == cv);
            assert(cviews(corrections@) =~= cviews(c0).drop_first());
            assert(cviews(corrections@) =~= orig.skip(k + 1));
            assert(orig.take(k + 1).drop_last() =~= orig.take(k));
            assert(orig.take(k + 1).last() == cv);
        }
        let keep = if c.is_active() {
            true
        } else {
            match &c.superseded_at {
                Some(d) => !crate::text::str_lex_le(d.as_str(), cutoff),
                None => true,
            }
        };
        let ghost before = kept@;
        if keep {
            kept.push(c);
            proof {
                assert(cviews(kept@) =~= cviews(before).push(cv));
            }
        }
        proof {
            k = k + 1;
        }
    }
    proof {
        assert(orig.take(k) =~= orig);
    }
    *corrections = kept;
}

/// What to do with one observed interaction-style value.
#[derive(Debug, Clone, Copy, PartialEq, Eq, Structural)]
pub enum StyleAction {
    /// The value is already the current one.
    Skip,
    /// It confirms the pending value: make it current and clear pending.
    Promote,
    /// Record it as the pending value.
    SetPending,
}

/// A value equal to the current one is skipped; one that matches the pending
/// value (see `pending_match`) is promoted; any other becomes pending.
pub open spec fn style_action(current: Option<Seq<char>>, pending: Option<Seq<char>>, value: Seq<char>) -> StyleAction {
    if current == Some(value) {
        StyleAction::Skip
    } else if pending matches Some(p) && crate::memory::pending_match(p, value) {
        StyleAction::Promote
    } else {
        StyleAction::SetPending
    }
}

/// Decides what an observed style value does to the style.
pub fn decide_style_update(current: Option<&str>, pending: Option<&str>, value: &str) -> (r: StyleAction)
    ensures
        r == style_action(crate::text::opt_chars(current), crate::text::opt_chars(pending), value@),
{
    match current {
        Some(c) => {
            if str_eq(c, value) {
                return StyleAction::Skip;
            }
        },
        None => {},
    }
    match pending {
        Some(p) => {
            if crate::memory::pending_values_match(p, value) {
                StyleAction::Promote
            } else {
                StyleAction::SetPending
            }
        },
        None => StyleAction::SetPending,
    }
}

pub const SUPERSEDED_RETENTION_DAYS: i64 = 90;

/// The cutoff of the expiry run on `today`: `SUPERSEDED_RETENTION_DAYS`
/// before it.
pub open spec fn retention_cutoff_of(today: Seq<char>) -> Option<Seq<char>> {
    ymd_days_before(today, SUPERSEDED_RETENTION_DAYS)
}

/// Drops corrections superseded more than `SUPERSEDED_RETENTION_DAYS` ago:
/// the cutoff is that many days before today's date (when today's date
/// cannot be moved back, nothing is dropped).
pub fn expire_superseded_corrections_now(corrections: &mut Vec<MemoryCorrection>)
    ensures
        exists|today: Seq<char>|
            is_ymd_text(today) && cviews(final(corrections)@) == match retention_cutoff_of(today) {
                Some(cutoff) => unexpired(cviews(old(corrections)@), cutoff),
                None => cviews(old(corrections)@),
            },
{
    let today = today_ymd();
    match date_minus_days(today.as_str(), SUPERSEDED_RETENTION_DAYS) {
        Some(cutoff) => expire_superseded_corrections(corrections, cutoff.as_str()),
        None => {},
    }
}

} // verus!
