use knowforge::approval::{answer_outcome, PendingApprovals, PlanDecision, RECEIVER_DROPPED};
use tokio::sync::oneshot;

#[test]
fn register_then_resolve_delivers_decision() {
    let mut state: PendingApprovals<bool> = PendingApprovals::new();
    let (tx, mut rx) = oneshot::channel();
    let id = state.register(tx);
    state.resolve(&id, true).unwrap();
    assert_eq!(rx.try_recv().unwrap(), true);
}

#[test]
fn approval_resolve_unknown_id_errors() {
    let mut state: PendingApprovals<bool> = PendingApprovals::new();
    let err = state.resolve("nope", true).unwrap_err();
    assert!(err.contains("unknown"));
    assert_eq!(err, "unknown approval_id: nope");
}

#[test]
fn discard_pending_releases_id() {
    let mut state: PendingApprovals<bool> = PendingApprovals::new();
    let (tx, _rx) = oneshot::channel();
    let id = state.register(tx);
    state.discard_pending(&id);
    let err = state.resolve(&id, true).unwrap_err();
    assert!(err.contains("unknown"));
}

#[test]
fn guard_drop_cleans_pending_entry() {
    let mut state: PendingApprovals<bool> = PendingApprovals::new();
    let (tx, _rx) = oneshot::channel();
    let id = state.register(tx);
    assert!(state.is_pending(&id));
    state.discard_pending(&id);
    assert!(!state.is_pending(&id));
}

#[test]
fn register_then_resolve_delivers_approve() {
    let mut state: PendingApprovals<PlanDecision> = PendingApprovals::new();
    let (tx, mut rx) = oneshot::channel();
    let id = state.register(tx);
    state.resolve(&id, PlanDecision::Approve).unwrap();
    assert!(matches!(rx.try_recv().unwrap(), PlanDecision::Approve));
}

#[test]
fn resolve_delivers_reject() {
    let mut state: PendingApprovals<PlanDecision> = PendingApprovals::new();
    let (tx, mut rx) = oneshot::channel();
    let id = state.register(tx);
    state.resolve(&id, PlanDecision::Reject).unwrap();
    assert!(matches!(rx.try_recv().unwrap(), PlanDecision::Reject));
}

#[test]
fn plan_approval_resolve_unknown_id_errors() {
    let mut state: PendingApprovals<PlanDecision> = PendingApprovals::new();
    let err = state.resolve("nope", PlanDecision::Approve).unwrap_err();
    assert!(err.contains("unknown"));
}

#[test]
fn guard_drop_cleans_pending_and_resolve_fails() {
    let mut state: PendingApprovals<PlanDecision> = PendingApprovals::new();
    let id = {
        let (tx, _rx) = oneshot::channel();
        let id = state.register(tx);
        assert!(state.is_pending(&id));
        state.discard_pending(&id);
        id
    };
    assert!(!state.is_pending(&id));
    let err = state.resolve(&id, PlanDecision::Approve).unwrap_err();
    assert!(err.contains("unknown"));
}

#[test]
fn resolve_after_the_waiter_left_reports_it() {
    let mut state: PendingApprovals<bool> = PendingApprovals::new();
    let (tx, rx) = oneshot::channel();
    let id = state.register(tx);
    drop(rx);
    assert_eq!(state.resolve(&id, false).unwrap_err(), RECEIVER_DROPPED);
    assert!(!state.is_pending(&id));
}

#[test]
fn each_request_gets_its_own_id() {
    let mut state: PendingApprovals<bool> = PendingApprovals::new();
    let (tx1, mut rx1) = oneshot::channel();
    let (tx2, mut rx2) = oneshot::channel();
    let a = state.register(tx1);
    let b = state.register(tx2);
    assert_ne!(a, b);
    assert_eq!(a.len(), 36);
    state.resolve(&b, true).unwrap();
    state.resolve(&a, false).unwrap();
    assert_eq!(rx1.try_recv().unwrap(), false);
    assert_eq!(rx2.try_recv().unwrap(), true);
}

#[test]
fn take_request_hands_back_that_requests_end() {
    let mut state: PendingApprovals<u32> = PendingApprovals::new();
    let (tx1, mut rx1) = oneshot::channel();
    let (tx2, mut rx2) = oneshot::channel();
    let a = state.register(tx1);
    let b = state.register(tx2);
    let end = state.take_request(&b).unwrap();
    end.send(7).unwrap();
    assert_eq!(rx2.try_recv().unwrap(), 7);
    assert!(rx1.try_recv().is_err());
    assert!(state.is_pending(&a));
    assert!(!state.is_pending(&b));
    assert!(state.take_request(&b).is_none());
}

#[test]
fn answer_outcome_maps_the_send() {
    assert_eq!(answer_outcome::<bool>(Ok(())), Ok(()));
    assert_eq!(answer_outcome(Err(true)), Err(RECEIVER_DROPPED.to_string()));
}
