//! Merging extracted knowledge domains into the user's memory, and the cap
//! on how many domains are kept.
use vstd::prelude::*;

use crate::memory::{depth_rank, depth_rank_spec, lowercase, to_lowercase, ProposalAction};
use crate::text::{opt_string, str_eq, to_owned_str};

verus! {

pub const MAX_KNOWLEDGE_DOMAINS: usize = 15;

/// A knowledge domain of the user model, without its confidence.
pub struct KnowledgeDomainRecord {
    pub domain: String,
    pub depth: String,
    pub current_focus: Option<String>,
    pub motivation: Option<String>,
    pub last_evidence: String,
    pub evidence_count: u32,
    pub archived: bool,
}

/// A domain as an extraction reports it; `confident` says whether the
/// extraction was sure enough (confidence of at least 0.7) to raise the
/// recorded depth.
pub struct DomainUpdateRecord {
    pub domain: String,
    pub depth: String,
    pub current_focus: Option<String>,
    pub motivation: Option<String>,
    pub confident: bool,
}

/// What a domain holds: name, depth, focus, motivation, last evidence,
/// evidence count, archived.
pub type DomainView = (Seq<char>, Seq<char>, Option<Seq<char>>, Option<Seq<char>>, Seq<char>, u32, bool);

/// What an update holds: name, depth, focus, motivation, confident.
pub type DomainUpdateView = (Seq<char>, Seq<char>, Option<Seq<char>>, Option<Seq<char>>, bool);

/// The view of a domain.
pub open spec fn dview(d: KnowledgeDomainRecord) -> DomainView {
    (
        d.domain@,
        d.depth@,
        opt_string(d.current_focus),
        opt_string(d.motivation),
        d.last_evidence@,
        d.evidence_count,
        d.archived,
    )
}

/// The views of a list of domains.
pub open spec fn dviews(ds: Seq<KnowledgeDomainRecord>) -> Seq<DomainView> {
    ds.map_values(|d: KnowledgeDomainRecord| dview(d))
}

/// The view of an update.
pub open spec fn uview(u: DomainUpdateRecord) -> DomainUpdateView {
    (u.domain@, u.depth@, opt_string(u.current_focus), opt_string(u.motivation), u.confident)
}

/// Two domain names are the same domain when their lower cases agree.
pub open spec fn same_domain(a: Seq<char>, b: Seq<char>) -> bool {
    lowercase(a) == lowercase(b)
}

/// `i` is the first domain of `ds` named `name`.
pub open spec fn first_match(ds: Seq<DomainView>, name: Seq<char>, i: int) -> bool {
    &&& 0 <= i < ds.len()
    &&& same_domain(ds[i].0, name)
    &&& forall|j: int| 0 <= j < i ==> !same_domain(#[trigger] ds[j].0, name)
}

/// No domain of `ds` is named `name`.
pub open spec fn no_match(ds: Seq<DomainView>, name: Seq<char>) -> bool {
    forall|j: int| 0 <= j < ds.len() ==> !same_domain(#[trigger] ds[j].0, name)
}

/// A known domain after new evidence on `today`: one more piece of
/// evidence, not archived, the depth raised only when the update is
/// confident and ranks higher, focus and motivation replaced when given.
pub open spec fn updated_domain(d: DomainView, u: DomainUpdateView, today: Seq<char>) -> DomainView {
    (
        d.0,
        if u.4 && depth_rank_spec(u.1) > depth_rank_spec(d.1) {
            u.1
        } else {
            d.1
        },
        if u.2 is Some {
            u.2
        } else {
            d.2
        },
        if u.3 is Some {
            u.3
        } else {
            d.3
        },
        today,
        (d.5 + 1) as u32,
        false,
    )
}

/// A domain first seen on `today`.
pub open spec fn new_domain(u: DomainUpdateView, today: Seq<char>) -> DomainView {
    (u.0, u.1, u.2, u.3, today, 1u32, false)
}

/// Merges one extracted domain: the first domain with the same name (in any
/// letter case) is updated and its index returned; otherwise the domain is
/// added at the end and `None` returned.
pub fn merge_domain_update(
    domains: &mut Vec<KnowledgeDomainRecord>,
    update: DomainUpdateRecord,
    today: &str,
) -> (r: Option<usize>)
    requires
        forall|i: int|
            #[trigger] first_match(dviews(old(domains)@), update.domain@, i) ==> old(
                domains,
            )@[i].evidence_count < u32::MAX,
    ensures
        match r {
            Some(i) => {
                &&& first_match(dviews(old(domains)@), update.domain@, i as int)
                &&& dviews(final(domains)@) == dviews(old(domains)@).update(
                    i as int,
                    updated_domain(dview(old(domains)@[i as int]), uview(update), today@),
                )
            },
            None => {
                &&& no_match(dviews(old(domains)@), update.domain@)
                &&& dviews(final(domains)@) == dviews(old(domains)@).push(
                    new_domain(uview(update), today@),
                )
            },
        },
        r matches Some(i) ==> {
            let d0 = old(domains)@[i as int];
            let d1 = final(domains)@[i as int];
            &&& final(domains)@.len() == old(domains)@.len()
            &&& lowercase(d0.domain@) == lowercase(update.domain@)
            &&& d1.domain == d0.domain
            &&& d1.motivation == (if update.motivation is Some {
                update.motivation
            } else {
                d0.motivation
            })
            &&& d1.current_focus == (if update.current_focus is Some {
                update.current_focus
            } else {
                d0.current_focus
            })
            &&& d1.depth == (if update.confident && depth_rank_spec(update.depth@) > depth_rank_spec(
                d0.depth@,
            ) {
                update.depth
            } else {
                d0.depth
            })
            &&& d1.evidence_count == d0.evidence_count + 1
            &&& d1.last_evidence@ == today@
            &&& !d1.archived
            &&& forall|j: int|
                0 <= j < old(domains)@.len() && j != i ==> final(domains)@[j] == old(domains)@[j]
        },
        r is None ==> {
            let d1 = final(domains)@[old(domains)@.len() as int];
            &&& final(domains)@.len() == old(domains)@.len() + 1
            &&& forall|j: int| 0 <= j < old(domains)@.len() ==> final(domains)@[j] == old(domains)@[j]
            &&& d1.domain == update.domain
            &&& d1.depth == update.depth
            &&& d1.current_focus == update.current_focus
            &&& d1.motivation == update.motivation
            &&& d1.evidence_count == 1
            &&& d1.last_evidence@ == today@
            &&& !d1.archived
        },
{
    let ghost before = domains@;
    let ghost u = uview(update);
    let DomainUpdateRecord { domain, depth, current_focus, motivation, confident } = update;
    let key = to_lowercase(domain.as_str());
    let mut i: usize = 0;
    while i < domains.len()
        invariant
            domains@ == before,
            before == old(domains)@,
            u == uview(update),
            i <= domains.len(),
            key@ == lowercase(u.0),
            u == (domain@, depth@, opt_string(current_focus), opt_string(motivation), confident),
            update.domain == domain,
            update.depth == depth,
            update.current_focus == current_focus,
            update.motivation == motivation,
            update.confident == confident,
            forall|i: int|
                #[trigger] first_match(dviews(before), u.0, i) ==> before[i].evidence_count < u32::MAX,
            forall|j: int| 0 <= j < i ==> !same_domain(#[trigger] dviews(before)[j].0, u.0),
        decreases domains.len() - i,
    {
        let k = to_lowercase(domains[i].domain.as_str());
        if str_eq(k.as_str(), key.as_str()) {
            assert(dviews(before)[i as int].0 == before[i as int].domain@);
            assert(first_match(dviews(before), u.0, i as int));
            let mut d = domains.remove(i);
            let ghost d0 = d;
            d.evidence_count = d.evidence_count + 1;
            d.last_evidence = to_owned_str(today);
            d.archived = false;
            if confident && depth_rank(depth.as_str()) > depth_rank(d.depth.as_str()) {
                d.depth = depth;
            }
            if current_focus.is_some() {
                d.current_focus = current_focus;
            }
            if motivation.is_some() {
                d.motivation = motivation;
            }
            domains.insert(i, d);
            proof {
                assert(d0 == before[i as int]);
                assert(domains@ =~= before.update(i as int, d));
                assert(dviews(domains@) =~= dviews(before).update(
                    i as int,
                    updated_domain(dview(before[i as int]), u, today@),
                ));
            }
            return Some(i);
        }
        i = i + 1;
    }
    domains.push(
        KnowledgeDomainRecord {
            domain,
            depth,
            current_focus,
            motivation,
            last_evidence: to_owned_str(today),
            evidence_count: 1,
            archived: false,
        },
    );
    proof {
        assert(dviews(domains@) =~= dviews(before).push(new_domain(u, today@)));
        assert(domains@[before.len() as int] == domains@.last());
    }
    None
}

/// `i` is the first domain of `ds` whose name is exactly `name`.
pub open spec fn first_named(ds: Seq<DomainView>, name: Seq<char>, i: int) -> bool {
    &&& 0 <= i < ds.len()
    &&& ds[i].0 == name
    &&& forall|j: int| 0 <= j < i ==> (#[trigger] ds[j].0) != name
}

/// No domain of `ds` is named exactly `name`.
pub open spec fn none_named(ds: Seq<DomainView>, name: Seq<char>) -> bool {
    forall|j: int| 0 <= j < ds.len() ==> (#[trigger] ds[j].0) != name
}

/// Finds the first domain named exactly `name`.
fn find_named(domains: &Vec<KnowledgeDomainRecord>, name: &str) -> (r: Option<usize>)
    ensures
        match r {
            Some(i) => first_named(dviews(domains@), name@, i as int),
            None => none_named(dviews(domains@), name@),
        },
{
    let mut i: usize = 0;
    while i < domains.len()
        invariant
            i <= domains.len(),
            forall|j: int| 0 <= j < i ==> (#[trigger] dviews(domains@)[j].0) != name@,
        decreases domains.len() - i,
    {
        assert(dviews(domains@)[i as int].0 == domains@[i as int].domain@);
        if str_eq(domains[i].domain.as_str(), name) {
            return Some(i);
        }
        i = i + 1;
    }
    None
}

/// A domain revised by an accepted proposal on `today`: the focus replaced
/// when given, the depth raised when the given one ranks higher, one more
/// piece of evidence.
pub open spec fn revised_domain(
    d: DomainView,
    focus: Option<Seq<char>>,
    depth: Option<Seq<char>>,
    today: Seq<char>,
) -> DomainView {
    (
        d.0,
        match depth {
            Some(dep) => if depth_rank_spec(dep) > depth_rank_spec(d.1) {
                dep
            } else {
                d.1
            },
            None => d.1,
        },
        if focus is Some {
            focus
        } else {
            d.2
        },
        d.3,
        today,
        (d.5 + 1) as u32,
        d.6,
    )
}

/// Applies an accepted update proposal to the first domain named exactly
/// `target`, returning its index; nothing changes when there is none.
pub fn revise_domain(
    domains: &mut Vec<KnowledgeDomainRecord>,
    target: &str,
    focus: Option<String>,
    depth: Option<String>,
    today: &str,
) -> (r: Option<usize>)
    requires
        forall|i: int|
            #[trigger] first_named(dviews(old(domains)@), target@, i) ==> old(
                domains,
            )@[i].evidence_count < u32::MAX,
    ensures
        match r {
            Some(i) => {
                &&& first_named(dviews(old(domains)@), target@, i as int)
                &&& dviews(final(domains)@) == dviews(old(domains)@).update(
                    i as int,
                    revised_domain(
                        dview(old(domains)@[i as int]),
                        opt_string(focus),
                        opt_string(depth),
                        today@,
                    ),
                )
            },
            None => {
                &&& none_named(dviews(old(domains)@), target@)
                &&& final(domains)@ == old(domains)@
            },
        },
{
    let ghost before = domains@;
    let ghost f = opt_string(focus);
    let ghost dp = opt_string(depth);
    match find_named(domains, target) {
        None => None,
        Some(i) => {
            let mut d = domains.remove(i);
            if focus.is_some() {
                d.current_focus = focus;
            }
            match depth {
                Some(dep) => {
                    if depth_rank(dep.as_str()) > depth_rank(d.depth.as_str()) {
                        d.depth = dep;
                    }
                },
                None => {},
            }
            d.last_evidence = to_owned_str(today);
            d.evidence_count = d.evidence_count + 1;
            domains.insert(i, d);
            proof {
                assert(dviews(domains@) =~= dviews(before).update(
                    i as int,
                    revised_domain(dview(before[i as int]), f, dp, today@),
                ));
            }
            Some(i)
        },
    }
}

/// Archives the first domain named exactly `target`, returning its index;
/// nothing changes when there is none.
pub fn archive_domain(domains: &mut Vec<KnowledgeDomainRecord>, target: &str) -> (r: Option<usize>)
    ensures
        match r {
            Some(i) => {
                let d = dviews(old(domains)@)[i as int];
                &&& first_named(dviews(old(domains)@), target@, i as int)
                &&& dviews(final(domains)@) == dviews(old(domains)@).update(
                    i as int,
                    (d.0, d.1, d.2, d.3, d.4, d.5, true),
                )
            },
            None => {
                &&& none_named(dviews(old(domains)@), target@)
                &&& final(domains)@ == old(domains)@
            },
        },
{
    let ghost before = domains@;
    match find_named(domains, target) {
        None => None,
        Some(i) => {
            let mut d = domains.remove(i);
            d.archived = true;
            domains.insert(i, d);
            proof {
                let e = dviews(before)[i as int];
                assert(dviews(domains@) =~= dviews(before).update(
                    i as int,
                    (e.0, e.1, e.2, e.3, e.4, e.5, true),
                ));
            }
            Some(i)
        },
    }
}

/// A merged update replaces the focus and the motivation it carries and
/// keeps the known ones it does not carry; it sets the depth it reports only
/// when confident and ranked higher, and keeps the known depth otherwise.
pub proof fn lemma_update_fields(d: DomainView, u: DomainUpdateView, today: Seq<char>)
    ensures
        u.3 is Some ==> updated_domain(d, u, today).3 == u.3,
        u.3 is None ==> updated_domain(d, u, today).3 == d.3,
        u.2 is Some ==> updated_domain(d, u, today).2 == u.2,
        u.2 is None ==> updated_domain(d, u, today).2 == d.2,
        u.4 && depth_rank_spec(u.1) > depth_rank_spec(d.1) ==> updated_domain(d, u, today).1 == u.1,
        !(u.4 && depth_rank_spec(u.1) > depth_rank_spec(d.1)) ==> updated_domain(d, u, today).1 == d.1,
{
}

/// A merged update counts one more piece of evidence, dates it `today`,
/// un-archives the domain and never lowers its depth rank.
pub proof fn lemma_update_never_lowers_depth(d: DomainView, u: DomainUpdateView, today: Seq<char>)
    requires
        d.5 < u32::MAX,
    ensures
        depth_rank_spec(updated_domain(d, u, today).1) >= depth_rank_spec(d.1),
        updated_domain(d, u, today).5 == d.5 + 1,
        updated_domain(d, u, today).4 == today,
        !updated_domain(d, u, today).6,
        updated_domain(d, u, today).0 == d.0,
{
}

/// `i` goes before `j` when domains are ordered by key, largest first, the
/// earlier of two equal keys first (a stable sort by key, descending).
pub open spec fn ranks_before(keys: Seq<u64>, i: int, j: int) -> bool {
    keys[i] > keys[j] || (keys[i] == keys[j] && i < j)
}

/// `order` lists indices of `keys`, each ranking before those after it.
pub open spec fn ranked(keys: Seq<u64>, order: Seq<usize>) -> bool {
    &&& forall|a: int| 0 <= a < order.len() ==> (#[trigger] order[a]) < keys.len()
    &&& forall|a: int, b: int|
        0 <= a < b < order.len() ==> ranks_before(keys, #[trigger] order[a] as int, #[trigger] order[b] as int)
}

/// Every index in `order` ranks before `j`.
pub open spec fn outranked(keys: Seq<u64>, order: Seq<usize>, j: int) -> bool {
    forall|a: int| 0 <= a < order.len() ==> ranks_before(keys, #[trigger] order[a] as int, j)
}

/// Inserts index `j` (greater than every index in `sorted`) at its place.
fn insert_ranked(keys: &Vec<u64>, sorted: &mut Vec<usize>, j: usize)
    requires
        j < keys.len(),
        ranked(keys@, old(sorted)@),
        forall|a: int| 0 <= a < old(sorted)@.len() ==> (#[trigger] old(sorted)@[a]) < j,
    ensures
        ranked(keys@, final(sorted)@),
        final(sorted)@.len() == old(sorted)@.len() + 1,
        forall|a: int| 0 <= a < final(sorted)@.len() ==> (#[trigger] final(sorted)@[a]) <= j,
        final(sorted)@.contains(j),
        forall|x: usize| old(sorted)@.contains(x) ==> final(sorted)@.contains(x),
{
    let ghost s = sorted@;
    let mut p: usize = 0;
    while p < sorted.len() && keys[sorted[p]] >= keys[j]
        invariant
            sorted@ == s,
            j < keys.len(),
            ranked(keys@, s),
            p <= s.len(),
            forall|q: int| 0 <= q < p ==> keys@[#[trigger] s[q] as int] >= keys@[j as int],
        decreases s.len() - p,
    {
        p = p + 1;
    }
    sorted.insert(p, j);
    proof {
        let t = sorted@;
        assert(t == s.insert(p as int, j));
        assert forall|a: int| 0 <= a < t.len() implies (#[trigger] t[a]) < keys@.len() && t[a] <= j by {
            if a > p {
                assert(t[a] == s[a - 1]);
            }
        }
        assert forall|a: int, b: int| 0 <= a < b < t.len() implies ranks_before(
            keys@,
            #[trigger] t[a] as int,
            #[trigger] t[b] as int,
        ) by {
            if b < p {
                assert(t[a] == s[a] && t[b] == s[b]);
            } else if b == p {
                assert(t[a] == s[a]);
                assert(keys@[s[a] as int] >= keys@[j as int]);
            } else if a < p {
                assert(t[a] == s[a] && t[b] == s[b - 1]);
            } else if a == p {
                assert(t[b] == s[b - 1]);
                assert(keys@[s[p as int] as int] < keys@[j as int]);
                if b - 1 > p {
                    assert(ranks_before(keys@, s[p as int] as int, s[b - 1] as int));
                }
            } else {
                assert(t[a] == s[a - 1] && t[b] == s[b - 1]);
            }
        }
        assert(t[p as int] == j);
        assert forall|x: usize| s.contains(x) implies t.contains(x) by {
            let a = choose|a: int| 0 <= a < s.len() && s[a] == x;
            if a < p {
                assert(t[a] == x);
            } else {
                assert(t[a + 1] == x);
            }
        }
    }
}

/// Which domains stay, and in what order: all of them as they are up to
/// `MAX_KNOWLEDGE_DOMAINS`; beyond it, the `MAX_KNOWLEDGE_DOMAINS` that a
/// stable sort by key, largest first, puts first.
pub fn kept_domain_order(keys: &Vec<u64>) -> (order: Vec<usize>)
    ensures
        order@.len() <= MAX_KNOWLEDGE_DOMAINS,
        keys@.len() <= MAX_KNOWLEDGE_DOMAINS ==> order@ == Seq::new(keys@.len(), |i: int| i as usize),
        keys@.len() > MAX_KNOWLEDGE_DOMAINS ==> {
            &&& order@.len() == MAX_KNOWLEDGE_DOMAINS
            &&& ranked(keys@, order@)
            &&& forall|j: int|
                0 <= j < keys@.len() && !order@.contains(j as usize) ==> #[trigger] outranked(
                    keys@,
                    order@,
                    j,
                )
        },
{
    let n = keys.len();
    let mut order: Vec<usize> = Vec::new();
    if n <= MAX_KNOWLEDGE_DOMAINS {
        let mut i: usize = 0;
        while i < n
            invariant
                n == keys@.len(),
                i <= n,
                order@ == Seq::new(i as nat, |k: int| k as usize),
            decreases n - i,
        {
            order.push(i);
            i = i + 1;
            assert(order@ =~= Seq::new(i as nat, |k: int| k as usize));
        }
        return order;
    }
    let mut j: usize = 0;
    while j < n
        invariant
            n == keys@.len(),
            j <= n,
            order@.len() == j,
            ranked(keys@, order@),
            forall|a: int| 0 <= a < order@.len() ==> (#[trigger] order@[a]) < j,
            forall|x: usize| x < j ==> order@.contains(x),
        decreases n - j,
    {
        insert_ranked(keys, &mut order, j);
        j = j + 1;
    }
    let ghost full = order@;
    order.truncate(MAX_KNOWLEDGE_DOMAINS);
    proof {
        assert(order@ == full.subrange(0, MAX_KNOWLEDGE_DOMAINS as int));
        assert forall|x: int|
            0 <= x < keys@.len() && !order@.contains(x as usize) implies #[trigger] outranked(
            keys@,
            order@,
            x,
        ) by {
            assert(full.contains(x as usize));
            let b = choose|b: int| 0 <= b < full.len() && full[b] == x as usize;
            if b < MAX_KNOWLEDGE_DOMAINS {
                assert(order@[b] == x as usize);
            }
            assert forall|a: int| 0 <= a < order@.len() implies ranks_before(
                keys@,
                #[trigger] order@[a] as int,
                x,
            ) by {
                assert(order@[a] == full[a]);
                assert(ranks_before(keys@, full[a] as int, full[b] as int));
            }
        }
    }
    order
}


/// What one step of an accepted proposal does.
#[derive(Debug, Clone, Copy, PartialEq, Eq, Structural)]
pub enum StepKind {
    /// Archive the domain named by the target.
    ArchiveDomain,
    /// Merge the proposal's content as an extracted domain.
    AddDomain,
    /// Merge the proposal's content as an extracted correction.
    AddCorrection,
    /// Revise the domain named by the target from the content's focus and
    /// depth.
    ReviseDomain,
}

/// One step of an accepted proposal, with the domain it names.
pub struct ProposalStep {
    pub kind: StepKind,
    pub target: Option<String>,
}

/// What a step holds.
pub open spec fn step_view(s: ProposalStep) -> (StepKind, Option<Seq<char>>) {
    (s.kind, opt_string(s.target))
}

/// The steps of adding content of `category`: a knowledge domain or a
/// correction; other categories add nothing.
pub open spec fn add_steps(category: Seq<char>) -> Seq<(StepKind, Option<Seq<char>>)> {
    if category == "knowledge_domain"@ {
        seq![(StepKind::AddDomain, None)]
    } else if category == "correction"@ {
        seq![(StepKind::AddCorrection, None)]
    } else {
        seq![]
    }
}

/// The steps of an accepted proposal, in order: adding goes by category;
/// updating revises the targeted knowledge domain; archiving archives the
/// target; merging archives the target, then adds; skipping does nothing.
pub open spec fn proposal_steps_spec(
    action: ProposalAction,
    category: Seq<char>,
    target: Option<Seq<char>>,
) -> Seq<(StepKind, Option<Seq<char>>)> {
    let archive = match target {
        Some(t) => seq![(StepKind::ArchiveDomain, Some(t))],
        None => seq![],
    };
    match action {
        ProposalAction::Add => add_steps(category),
        ProposalAction::Update => match target {
            Some(t) => if category == "knowledge_domain"@ {
                seq![(StepKind::ReviseDomain, Some(t))]
            } else {
                seq![]
            },
            None => seq![],
        },
        ProposalAction::Archive => archive,
        ProposalAction::Merge => archive + add_steps(category),
        ProposalAction::Skip => seq![],
    }
}

/// The steps of adding content of `category`.
fn push_add_steps(out: &mut Vec<ProposalStep>, category: &str)
    ensures
        final(out)@.map_values(|s: ProposalStep| step_view(s)) == old(out)@.map_values(
            |s: ProposalStep| step_view(s),
        ) + add_steps(category@),
{
    let ghost before = out@.map_values(|s: ProposalStep| step_view(s));
    if str_eq(category, "knowledge_domain") {
        out.push(ProposalStep { kind: StepKind::AddDomain, target: None });
        proof {
            assert(out@.map_values(|s: ProposalStep| step_view(s)) =~= before + add_steps(category@));
        }
    } else if str_eq(category, "correction") {
        out.push(ProposalStep { kind: StepKind::AddCorrection, target: None });
        proof {
            assert(out@.map_values(|s: ProposalStep| step_view(s)) =~= before + add_steps(category@));
        }
    } else {
        proof {
            assert(out@.map_values(|s: ProposalStep| step_view(s)) =~= before + add_steps(category@));
        }
    }
}

/// Decides the steps of an accepted proposal (see `proposal_steps_spec`).
pub fn proposal_steps(action: &ProposalAction, category: &str, target: Option<&str>) -> (r: Vec<
    ProposalStep,
>)
    ensures
        r@.map_values(|s: ProposalStep| step_view(s)) == proposal_steps_spec(
            *action,
            category@,
            crate::text::opt_chars(target),
        ),
{
    let mut out: Vec<ProposalStep> = Vec::new();
    proof {
        assert(out@.map_values(|s: ProposalStep| step_view(s)) =~= Seq::<(StepKind, Option<Seq<char>>)>::empty());
    }
    match action {
        ProposalAction::Add => {
            push_add_steps(&mut out, category);
            proof {
                assert(Seq::<(StepKind, Option<Seq<char>>)>::empty() + add_steps(category@) =~= add_steps(category@));
            }
        },
        ProposalAction::Update => {
            match target {
                Some(t) => {
                    if str_eq(category, "knowledge_domain") {
                        out.push(ProposalStep { kind: StepKind::ReviseDomain, target: Some(to_owned_str(t)) });
                        proof {
                            assert(out@.map_values(|s: ProposalStep| step_view(s)) =~= seq![
                                (StepKind::ReviseDomain, Some(t@)),
                            ]);
                        }
                    }
                },
                None => {},
            }
        },
        ProposalAction::Archive => {
            match target {
                Some(t) => {
                    out.push(ProposalStep { kind: StepKind::ArchiveDomain, target: Some(to_owned_str(t)) });
                    proof {
                        assert(out@.map_values(|s: ProposalStep| step_view(s)) =~= seq![
                            (StepKind::ArchiveDomain, Some(t@)),
                        ]);
                    }
                },
                None => {},
            }
        },
        ProposalAction::Merge => {
            match target {
                Some(t) => {
                    out.push(ProposalStep { kind: StepKind::ArchiveDomain, target: Some(to_owned_str(t)) });
                    proof {
                        assert(out@.map_values(|s: ProposalStep| step_view(s)) =~= seq![
                            (StepKind::ArchiveDomain, Some(t@)),
                        ]);
                    }
                },
                None => {},
            }
            push_add_steps(&mut out, category);
        },
        ProposalAction::Skip => {},
    }
    out
}

} // verus!
