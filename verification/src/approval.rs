//! Tool approvals that hold for the rest of a conversation, and the user's
//! decision on a plan.
use vstd::prelude::*;

use tokio::sync::oneshot;

use crate::text::{push_str, str_eq, to_owned_str};

verus! {

/// The user's decision on a plan approval request.
#[derive(Debug, Clone, Copy, PartialEq, Eq, Structural)]
pub enum PlanDecision {
    /// Run the plan.
    Approve,
    /// Drop the request.
    Reject,
}

/// The tools the user approved once for the rest of a conversation.
pub struct SessionApprovals {
    approved: Vec<(String, String)>,
}

/// The `(conversation, tool)` pairs of a list of approvals.
pub open spec fn approval_pairs(v: Seq<(String, String)>) -> Set<(Seq<char>, Seq<char>)> {
    Set::new(|p: (Seq<char>, Seq<char>)| exists|i: int| 0 <= i < v.len() && (#[trigger] v[i]).0@ == p.0 && v[i].1@ == p.1)
}

impl SessionApprovals {
    /// The approved `(conversation, tool)` pairs.
    pub closed spec fn pairs(&self) -> Set<(Seq<char>, Seq<char>)> {
        approval_pairs(self.approved@)
    }

    /// No approvals.
    pub fn new() -> (r: Self)
        ensures
            r.pairs() == Set::<(Seq<char>, Seq<char>)>::empty(),
    {
        let r = SessionApprovals { approved: Vec::new() };
        proof {
            assert(r.pairs() =~= Set::<(Seq<char>, Seq<char>)>::empty());
        }
        r
    }

    /// Whether `tool` was approved for the rest of conversation `conv_id`.
    pub fn is_pre_approved(&self, conv_id: &str, tool: &str) -> (r: bool)
        ensures
            r == self.pairs().contains((conv_id@, tool@)),
    {
        let mut i: usize = 0;
        while i < self.approved.len()
            invariant
                i <= self.approved.len(),
                forall|j: int|
                    0 <= j < i ==> !((#[trigger] self.approved@[j]).0@ == conv_id@
                        && self.approved@[j].1@ == tool@),
            decreases self.approved.len() - i,
        {
            if str_eq(self.approved[i].0.as_str(), conv_id) && str_eq(
                self.approved[i].1.as_str(),
                tool,
            ) {
                proof {
                    let w = self.approved@[i as int];
                    assert(w.0@ == conv_id@ && w.1@ == tool@);
                }
                return true;
            }
            i += 1;
        }
        false
    }

    /// Remembers that `tool` is approved for the rest of conversation
    /// `conv_id`.
    pub fn remember_approval(&mut self, conv_id: &str, tool: &str)
        ensures
            final(self).pairs() == old(self).pairs().insert((conv_id@, tool@)),
    {
        if self.is_pre_approved(conv_id, tool) {
            proof {
                assert(self.pairs().insert((conv_id@, tool@)) =~= self.pairs());
            }
            return;
        }
        let ghost before = self.approved@;
        self.approved.push((to_owned_str(conv_id), to_owned_str(tool)));
        proof {
            let after = self.approved@;
            assert forall|p: (Seq<char>, Seq<char>)| #[trigger] approval_pairs(after).contains(p)
                == approval_pairs(before).insert((conv_id@, tool@)).contains(p) by {
                if approval_pairs(before).contains(p) {
                    let j = choose|j: int| 0 <= j < before.len() && (#[trigger] before[j]).0@ == p.0 && before[j].1@ == p.1;
                    assert(after[j] == before[j]);
                }
                if approval_pairs(after).contains(p) {
                    let j = choose|j: int| 0 <= j < after.len() && (#[trigger] after[j]).0@ == p.0 && after[j].1@ == p.1;
                    if j < before.len() {
                        assert(after[j] == before[j]);
                    }
                }
                if p == (conv_id@, tool@) {
                    assert(after[before.len() as int].0@ == conv_id@);
                }
            }
            assert(approval_pairs(after) =~= approval_pairs(before).insert((conv_id@, tool@)));
        }
    }

    /// Forgets the approvals of conversation `conv_id`.
    pub fn clear_conversation(&mut self, conv_id: &str)
        ensures
            final(self).pairs() == old(self).pairs().filter(
                |p: (Seq<char>, Seq<char>)| p.0 != conv_id@,
            ),
    {
        let ghost before = self.approved@;
        let mut kept: Vec<(String, String)> = Vec::new();
        let mut i: usize = 0;
        while i < self.approved.len()
            invariant
                i <= self.approved.len(),
                self.approved@ == before,
                forall|p: (Seq<char>, Seq<char>)|
                    #[trigger] approval_pairs(kept@).contains(p) == (approval_pairs(
                        before.take(i as int),
                    ).contains(p) && p.0 != conv_id@),
            decreases self.approved.len() - i,
        {
            let ghost k0 = kept@;
            let e = &self.approved[i];
            let ghost cur = before.take(i as int);
            let ghost nxt = before.take(i + 1);
            if !str_eq(e.0.as_str(), conv_id) {
                kept.push((to_owned_str(e.0.as_str()), to_owned_str(e.1.as_str())));
            }
            proof {
                assert forall|p: (Seq<char>, Seq<char>)| #[trigger] approval_pairs(kept@).contains(
                    p,
                ) == (approval_pairs(nxt).contains(p) && p.0 != conv_id@) by {
                    if approval_pairs(nxt).contains(p) {
                        let j = choose|j: int| 0 <= j < nxt.len() && (#[trigger] nxt[j]).0@ == p.0 && nxt[j].1@ == p.1;
                        if j < i {
                            assert(cur[j] == nxt[j]);
                            assert(approval_pairs(cur).contains(p));
                        }
                    }
                    if approval_pairs(cur).contains(p) {
                        let j = choose|j: int| 0 <= j < cur.len() && (#[trigger] cur[j]).0@ == p.0 && cur[j].1@ == p.1;
                        assert(nxt[j] == cur[j]);
                    }
                    if approval_pairs(kept@).contains(p) {
                        let j = choose|j: int| 0 <= j < kept@.len() && (#[trigger] kept@[j]).0@ == p.0 && kept@[j].1@ == p.1;
                        if j < k0.len() {
                            assert(kept@[j] == k0[j]);
                            assert(approval_pairs(k0).contains(p));
                        } else {
                            assert(nxt[i as int] == before[i as int]);
                        }
                    }
                    if approval_pairs(k0).contains(p) {
                        let j = choose|j: int| 0 <= j < k0.len() && (#[trigger] k0[j]).0@ == p.0 && k0[j].1@ == p.1;
                        assert(kept@[j] == k0[j]);
                    }
                    if p.0 != conv_id@ && p == (before[i as int].0@, before[i as int].1@) {
                        assert(nxt[i as int] == before[i as int]);
                        assert(kept@[k0.len() as int].0@ == p.0);
                    }
                }
            }
            i += 1;
        }
        proof {
            assert(before.take(before.len() as int) =~= before);
            assert(approval_pairs(kept@) =~= approval_pairs(before).filter(
                |p: (Seq<char>, Seq<char>)| p.0 != conv_id@,
            ));
        }
        self.approved = kept;
    }
}

/// The sending end of a `tokio::sync::oneshot` channel, carried as it is.
#[verifier::external_type_specification]
#[verifier::external_body]
#[verifier::reject_recursive_types(T)]
pub struct ExOneshotSender<T>(oneshot::Sender<T>);

/// `tokio::sync::oneshot::Sender::send`: hands `value` to the receiving
/// end; when that end is gone already, the value comes back in `Err`.
/// Whether it is gone depends on the other side, so only that an `Err`
/// carries `value` is stated.
#[verifier::external_body]
fn oneshot_send<T>(tx: oneshot::Sender<T>, value: T) -> (r: Result<(), T>)
    ensures
        r matches Err(v) ==> v == value,
{
    tx.send(value)
}

/// The answer to a request whose waiter left (timed out or cancelled).
pub const RECEIVER_DROPPED: &'static str = "approval receiver dropped (timed out or cancelled)";

/// The start of the answer to an id that is not pending.
pub const UNKNOWN_APPROVAL_PREFIX: &'static str = "unknown approval_id: ";

/// Approval requests waiting for the user's answer: each id with the end of
/// the channel that carries the answer back.
#[verifier::reject_recursive_types(T)]
pub struct PendingApprovals<T> {
    entries: Vec<(String, oneshot::Sender<T>)>,
}

/// The ids of a list of pending requests.
pub open spec fn pending_ids<T>(es: Seq<(String, oneshot::Sender<T>)>) -> Set<Seq<char>> {
    Set::new(|k: Seq<char>| exists|i: int| 0 <= i < es.len() && (#[trigger] es[i]).0@ == k)
}

/// No id occurs twice.
pub open spec fn distinct_ids<T>(es: Seq<(String, oneshot::Sender<T>)>) -> bool {
    forall|i: int, j: int| 0 <= i < j < es.len() ==> (#[trigger] es[i]).0@ != (#[trigger] es[j]).0@
}

/// The channel end stored with id `k`.
pub open spec fn entry_of<T>(es: Seq<(String, oneshot::Sender<T>)>, k: Seq<char>) -> oneshot::Sender<T> {
    es[choose|i: int| 0 <= i < es.len() && (#[trigger] es[i]).0@ == k].1
}

/// Each pending id with the channel end its answer goes through.
pub open spec fn entries_map<T>(es: Seq<(String, oneshot::Sender<T>)>) -> Map<
    Seq<char>,
    oneshot::Sender<T>,
> {
    Map::new(|k: Seq<char>| pending_ids(es).contains(k), |k: Seq<char>| entry_of(es, k))
}

/// With distinct ids, the end stored with an entry's id is that entry's.
proof fn lemma_entry_at<T>(es: Seq<(String, oneshot::Sender<T>)>, i: int)
    requires
        distinct_ids(es),
        0 <= i < es.len(),
    ensures
        pending_ids(es).contains(es[i].0@),
        entry_of(es, es[i].0@) == es[i].1,
{
    let k = es[i].0@;
    assert(es[i].0@ == k);
    let j = choose|j: int| 0 <= j < es.len() && (#[trigger] es[j]).0@ == k;
    if j != i {
        if j < i {
            assert(es[j].0@ != es[i].0@);
        } else {
            assert(es[i].0@ != es[j].0@);
        }
    }
}

impl<T> View for PendingApprovals<T> {
    type V = Map<Seq<char>, oneshot::Sender<T>>;

    closed spec fn view(&self) -> Map<Seq<char>, oneshot::Sender<T>> {
        entries_map(self.entries@)
    }
}

impl<T> PendingApprovals<T> {
    /// No request id is registered twice.
    #[verifier::type_invariant]
    spec fn inv(&self) -> bool {
        distinct_ids(self.entries@)
    }

    /// Nothing pending.
    pub fn new() -> (r: Self)
        ensures
            r@ == Map::<Seq<char>, oneshot::Sender<T>>::empty(),
    {
        let r = PendingApprovals { entries: Vec::new() };
        proof {
            assert(r@ =~= Map::<Seq<char>, oneshot::Sender<T>>::empty());
        }
        r
    }

    /// Whether request `id` is waiting for an answer.
    pub fn is_pending(&self, id: &str) -> (r: bool)
        ensures
            r == self@.contains_key(id@),
    {
        match self.position(id) {
            Some(_) => true,
            None => false,
        }
    }

    /// Where request `id` stands, if it is pending.
    fn position(&self, id: &str) -> (r: Option<usize>)
        ensures
            match r {
                Some(i) => i < self.entries@.len() && self.entries@[i as int].0@ == id@,
                None => !self@.contains_key(id@),
            },
    {
        let mut i: usize = 0;
        while i < self.entries.len()
            invariant
                i <= self.entries.len(),
                forall|j: int| 0 <= j < i ==> (#[trigger] self.entries@[j]).0@ != id@,
            decreases self.entries.len() - i,
        {
            if str_eq(self.entries[i].0.as_str(), id) {
                return Some(i);
            }
            i += 1;
        }
        None
    }

    /// Takes request `id` out of the pending ones, with the channel end it
    /// was registered with.
    pub fn take_request(&mut self, id: &str) -> (r: Option<oneshot::Sender<T>>)
        ensures
            final(self)@ == old(self)@.remove(id@),
            old(self)@.contains_key(id@) ==> r == Some(old(self)@[id@]),
            !old(self)@.contains_key(id@) ==> r is None,
    {
        proof {
            use_type_invariant(&*self);
        }
        match self.position(id) {
            None => {
                proof {
                    assert(self@.remove(id@) =~= self@);
                }
                None
            },
            Some(i) => {
                let mut es: Vec<(String, oneshot::Sender<T>)> = Vec::new();
                std::mem::swap(&mut self.entries, &mut es);
                let ghost before = es@;
                proof {
                    lemma_entry_at(before, i as int);
                }
                let (_, tx) = es.remove(i);
                proof {
                    let after = es@;
                    assert(after == before.remove(i as int));
                    assert forall|a: int, b: int| 0 <= a < b < after.len() implies (#[trigger] after[a]).0@
                        != (#[trigger] after[b]).0@ by {
                        let a0 = if a < i { a } else { a + 1 };
                        let b0 = if b < i { b } else { b + 1 };
                        assert(after[a] == before[a0] && after[b] == before[b0]);
                        assert(before[a0].0@ != before[b0].0@);
                    }
                    assert(before[i as int].0@ == id@);
                    assert forall|k: Seq<char>| #[trigger] pending_ids(after).contains(k)
                        == pending_ids(before).remove(id@).contains(k) by {
                        if pending_ids(after).contains(k) {
                            let a = choose|a: int| 0 <= a < after.len() && (#[trigger] after[a]).0@ == k;
                            let a0 = if a < i { a } else { a + 1 };
                            assert(after[a] == before[a0]);
                            if a0 < i {
                                assert(before[a0].0@ != before[i as int].0@);
                            } else {
                                assert(before[i as int].0@ != before[a0].0@);
                            }
                        }
                        if pending_ids(before).remove(id@).contains(k) {
                            let j = choose|j: int| 0 <= j < before.len() && (#[trigger] before[j]).0@ == k;
                            assert(j != i);
                            if j < i {
                                assert(after[j] == before[j]);
                            } else {
                                assert(after[j - 1] == before[j]);
                            }
                        }
                    }
                    assert forall|k: Seq<char>| #[trigger] pending_ids(after).contains(k) implies entry_of(
                        after,
                        k,
                    ) == entry_of(before, k) by {
                        let a = choose|a: int| 0 <= a < after.len() && (#[trigger] after[a]).0@ == k;
                        let a0 = if a < i { a } else { a + 1 };
                        assert(after[a] == before[a0]);
                        lemma_entry_at(after, a);
                        lemma_entry_at(before, a0);
                    }
                    assert(entries_map(after) =~= entries_map(before).remove(id@));
                }
                self.entries = es;
                Some(tx)
            },
        }
    }

    /// Registers a new request under a fresh random id, which is returned;
    /// its answer will go through `tx`.
    pub fn register(&mut self, tx: oneshot::Sender<T>) -> (id: String)
        ensures
            crate::ids::is_uuid_text(id@, '4'),
            final(self)@ == old(self)@.insert(id@, tx),
    {
        let id = crate::ids::new_random_id();
        let ghost start = self@;
        let ghost t = tx;
        let _ = self.take_request(id.as_str());
        proof {
            use_type_invariant(&*self);
        }
        let mut es: Vec<(String, oneshot::Sender<T>)> = Vec::new();
        std::mem::swap(&mut self.entries, &mut es);
        let ghost before = es@;
        es.push((to_owned_str(id.as_str()), tx));
        proof {
            let after = es@;
            let n = before.len() as int;
            assert(!entries_map(before).contains_key(id@));
            assert(entries_map(before).dom().contains(id@) == pending_ids(before).contains(id@));
            assert(!pending_ids(before).contains(id@));
            assert forall|a: int, b: int| 0 <= a < b < after.len() implies (#[trigger] after[a]).0@
                != (#[trigger] after[b]).0@ by {
                assert(after[a] == before[a]);
                if b < n {
                    assert(after[b] == before[b]);
                } else {
                    assert(!(exists|j: int| 0 <= j < before.len() && (#[trigger] before[j]).0@ == id@));
                    assert(before[a].0@ != id@);
                }
            }
            assert forall|k: Seq<char>| #[trigger] pending_ids(after).contains(k)
                == pending_ids(before).insert(id@).contains(k) by {
                if pending_ids(after).contains(k) {
                    let a = choose|a: int| 0 <= a < after.len() && (#[trigger] after[a]).0@ == k;
                    if a < n {
                        assert(after[a] == before[a]);
                    }
                }
                if pending_ids(before).contains(k) {
                    let j = choose|j: int| 0 <= j < before.len() && (#[trigger] before[j]).0@ == k;
                    assert(after[j] == before[j]);
                }
                if k == id@ {
                    assert(after[n].0@ == id@);
                }
            }
            lemma_entry_at(after, n);
            assert forall|k: Seq<char>| #[trigger] pending_ids(before).contains(k) implies entry_of(
                after,
                k,
            ) == entry_of(before, k) by {
                let j = choose|j: int| 0 <= j < before.len() && (#[trigger] before[j]).0@ == k;
                assert(after[j] == before[j]);
                lemma_entry_at(after, j);
                lemma_entry_at(before, j);
            }
            assert(entries_map(after) =~= entries_map(before).insert(id@, t));
            assert(start.remove(id@).insert(id@, t) =~= start.insert(id@, t));
        }
        self.entries = es;
        id
    }

    /// Delivers the user's answer to request `id` through the channel end
    /// it was registered with, and stops waiting for it:
    /// `unknown approval_id: <id>` when it is not pending, and
    /// `RECEIVER_DROPPED` when nobody waits for the answer any more. The
    /// other requests keep their channel ends.
    pub fn resolve(&mut self, id: &str, decision: T) -> (r: Result<(), String>)
        ensures
            final(self)@ == old(self)@.remove(id@),
            !old(self)@.contains_key(id@) ==> (r matches Err(e) && e@ == UNKNOWN_APPROVAL_PREFIX@ + id@),
            old(self)@.contains_key(id@) ==> (r is Ok || (r matches Err(e) && e@ == RECEIVER_DROPPED@)),
    {
        match self.take_request(id) {
            None => {
                let mut e = to_owned_str(UNKNOWN_APPROVAL_PREFIX);
                push_str(&mut e, id);
                Err(e)
            },
            Some(tx) => answer_outcome(oneshot_send(tx, decision)),
        }
    }

    /// Stops waiting for request `id` (timed out or cancelled); nothing
    /// happens when it is not pending.
    pub fn discard_pending(&mut self, id: &str)
        ensures
            final(self)@ == old(self)@.remove(id@),
    {
        let _ = self.take_request(id);
    }
}

/// What answering a request gives, from what sending the answer gave:
/// `Ok`, or `RECEIVER_DROPPED` when the receiving end was gone.
pub fn answer_outcome<T>(sent: Result<(), T>) -> (r: Result<(), String>)
    ensures
        sent is Ok ==> r is Ok,
        sent is Err ==> (r matches Err(e) && e@ == RECEIVER_DROPPED@),
{
    match sent {
        Ok(()) => Ok(()),
        Err(_) => Err(to_owned_str(RECEIVER_DROPPED)),
    }
}

/// A registered request is pending with its channel end until it is
/// answered or discarded; after either, answering it again fails as
/// unknown, and the other requests keep their ends.
pub proof fn lemma_pending_lifecycle<T>(
    pending: Map<Seq<char>, oneshot::Sender<T>>,
    id: Seq<char>,
    tx: oneshot::Sender<T>,
    other: Seq<char>,
)
    requires
        other != id,
    ensures
        pending.insert(id, tx).contains_key(id) && pending.insert(id, tx)[id] == tx,
        !pending.insert(id, tx).remove(id).contains_key(id),
        !pending.remove(id).contains_key(id),
        pending.contains_key(other) ==> pending.insert(id, tx)[other] == pending[other]
            && pending.remove(id)[other] == pending[other],
{
}

/// Approving a tool for a conversation makes it pre-approved there, and
/// clearing that conversation takes back every approval it had while other
/// conversations keep theirs.
pub proof fn lemma_approvals_per_conversation(
    pairs: Set<(Seq<char>, Seq<char>)>,
    conv: Seq<char>,
    tool: Seq<char>,
    other: Seq<char>,
    other_tool: Seq<char>,
)
    requires
        other != conv,
    ensures
        pairs.insert((conv, tool)).contains((conv, tool)),
        !pairs.filter(|p: (Seq<char>, Seq<char>)| p.0 != conv).contains((conv, tool)),
        pairs.filter(|p: (Seq<char>, Seq<char>)| p.0 != conv).contains((other, other_tool))
            == pairs.contains((other, other_tool)),
{
}

} // verus!
