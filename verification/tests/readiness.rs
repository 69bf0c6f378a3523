use supervised::readiness::{
    readiness_state, MemberReadiness, ReadinessInner, ReadinessTracker,
};
use supervised::{ReadinessMode, SupervisorReadiness};

fn assert_shared<T: Send + Sync>(_value: &T) {}

#[test]
fn readiness_state_is_ready_without_pending_gates() {
    assert_eq!(readiness_state(0), SupervisorReadiness::Ready);
    assert_eq!(readiness_state(1), SupervisorReadiness::Pending);
    assert_eq!(readiness_state(usize::MAX), SupervisorReadiness::Pending);
}

#[test]
fn member_crosses_its_gate_once() {
    let mut gated = MemberReadiness::Explicit { ready: false };
    assert!(!gated.is_ready());
    assert!(gated.mark_ready());
    assert!(gated.is_ready());
    assert!(!gated.mark_ready());

    let mut immediate = MemberReadiness::Immediate;
    assert!(immediate.is_ready());
    assert!(!immediate.mark_ready());
}

#[test]
fn default_mode_is_immediate() {
    assert_eq!(ReadinessMode::default(), ReadinessMode::Immediate);
}

#[test]
fn subscriber_sees_ready_after_the_last_mark() {
    let mut inner = ReadinessInner::new(&vec![
        ReadinessMode::Explicit,
        ReadinessMode::Immediate,
        ReadinessMode::Explicit,
    ]);
    let mut receiver = inner.subscribe();
    assert_eq!(*receiver.borrow_and_update(), SupervisorReadiness::Pending);
    assert!(!inner.is_ready(0));
    assert!(inner.is_ready(1));
    assert!(!inner.is_ready(3));

    inner.mark_ready(2);
    inner.mark_ready(2);
    inner.mark_ready(1);
    inner.mark_ready(7);
    assert_eq!(inner.state(), SupervisorReadiness::Pending);
    assert!(!receiver.has_changed().expect("open channel"));

    inner.mark_ready(0);
    assert_eq!(inner.state(), SupervisorReadiness::Ready);
    assert!(receiver.has_changed().expect("open channel"));
    assert_eq!(*receiver.borrow(), SupervisorReadiness::Ready);
    assert_eq!(*inner.subscribe().borrow(), SupervisorReadiness::Ready);
}

#[test]
fn last_mark_without_subscribers_leaves_the_channel_pending() {
    let mut inner = ReadinessInner::new(&vec![ReadinessMode::Explicit]);
    inner.mark_ready(0);
    assert_eq!(inner.state(), SupervisorReadiness::Ready);
    assert_eq!(*inner.subscribe().borrow(), SupervisorReadiness::Pending);
}

#[test]
fn ungated_services_start_ready() {
    for modes in [vec![], vec![ReadinessMode::Immediate; 3]] {
        let inner = ReadinessInner::new(&modes);
        assert_eq!(inner.state(), SupervisorReadiness::Ready);
        assert_eq!(*inner.subscribe().borrow(), SupervisorReadiness::Ready);
        assert_eq!(
            ReadinessTracker::new(inner).state(),
            SupervisorReadiness::Ready
        );
    }
}

#[test]
fn order_of_marks_does_not_matter() {
    for order in [[0, 1], [1, 0]] {
        let mut inner =
            ReadinessInner::new(&vec![ReadinessMode::Explicit, ReadinessMode::Explicit]);
        for index in order {
            assert_eq!(inner.state(), SupervisorReadiness::Pending);
            inner.mark_ready(index);
        }
        assert_eq!(inner.state(), SupervisorReadiness::Ready);
    }
}

#[test]
fn signals_share_the_tracker() {
    let tracker = ReadinessTracker::new(ReadinessInner::new(&vec![
        ReadinessMode::Immediate,
        ReadinessMode::Explicit,
    ]));
    assert_shared(&tracker);
    let immediate = tracker.signal(0, ReadinessMode::Immediate);
    let explicit = tracker.signal(1, ReadinessMode::Explicit);
    assert_shared(&explicit);

    immediate.mark_ready();
    assert_eq!(tracker.state(), SupervisorReadiness::Pending);
    assert!(tracker.settle(0, false));
    assert!(!tracker.settle(1, false));

    explicit.clone().mark_ready();
    explicit.mark_ready();
    assert_eq!(tracker.state(), SupervisorReadiness::Ready);
    assert!(tracker.settle(1, false));
}

#[test]
fn completing_settles_readiness() {
    let tracker = ReadinessTracker::new(ReadinessInner::new(&vec![ReadinessMode::Explicit]));
    assert!(!tracker.settle(0, false));
    assert!(tracker.settle(0, true));
    assert!(tracker.settle(0, false));
    assert!(!tracker.settle(1, true));
    assert!(tracker.mark_ready(0));
    assert!(!tracker.mark_ready(1));
    assert_eq!(tracker.state(), SupervisorReadiness::Ready);
}

#[test]
fn signals_describe_themselves() {
    let tracker = ReadinessTracker::new(ReadinessInner::new(&vec![]));
    assert_eq!(
        tracker.signal(3, ReadinessMode::Immediate).describe(),
        "ReadySignal::Immediate"
    );
    assert_eq!(
        tracker.signal(120, ReadinessMode::Explicit).describe(),
        "ReadySignal::Explicit { index: 120, .. }"
    );
}

#[test]
fn settling_a_state_marks_completions_only() {
    let mut inner = ReadinessInner::new(&vec![ReadinessMode::Explicit, ReadinessMode::Immediate]);
    assert!(!inner.settle(0, false));
    assert_eq!(inner.state(), SupervisorReadiness::Pending);
    assert!(inner.settle(1, false));
    assert!(!inner.settle(2, true));
    assert!(inner.settle(0, true));
    assert_eq!(inner.state(), SupervisorReadiness::Ready);
}

#[test]
fn subscriber_is_notified_once() {
    let mut inner = ReadinessInner::new(&vec![ReadinessMode::Explicit, ReadinessMode::Explicit]);
    let mut receiver = inner.subscribe();
    let mut notified = 0;
    for index in [0, 0, 1, 1, 0] {
        inner.mark_ready(index);
        if receiver.has_changed().expect("open channel") {
            notified += 1;
            assert_eq!(*receiver.borrow_and_update(), inner.state());
        }
    }
    assert_eq!(notified, 1);
}
