use agent_core_sync::store::StateStore;
use agent_core_sync::supervisor::{
    Phase, Supervisor, SupervisorAction, SupervisorEvent, BACKOFF_CEILING_MS, BACKOFF_FLOOR_MS,
    IDLE_TIMEOUT_MS,
};

#[test]
fn three_failures_then_success() {
    let mut sup = Supervisor::new();
    let mut store = StateStore::new();
    let mut waits = Vec::new();
    let mut attempts = 0;
    let mut action = sup.drive(SupervisorEvent::Start, &mut store);
    loop {
        match action {
            SupervisorAction::Connect => {
                attempts += 1;
                assert!(!store.connected());
                let e = if attempts <= 3 {
                    SupervisorEvent::ConnectFailed
                } else {
                    SupervisorEvent::Connected { now_ms: 1000 }
                };
                action = sup.drive(e, &mut store);
            }
            SupervisorAction::Sleep { ms } => {
                waits.push(ms);
                assert!(!store.connected());
                action = sup.drive(SupervisorEvent::SleepElapsed, &mut store);
            }
            SupervisorAction::Read => break,
            SupervisorAction::Ignore => panic!("unexpected ignore"),
        }
    }
    assert_eq!(attempts, 4);
    assert_eq!(waits, vec![BACKOFF_FLOOR_MS, 2 * BACKOFF_FLOOR_MS, 4 * BACKOFF_FLOOR_MS]);
    assert_eq!(waits, vec![100, 200, 400]);
    assert!(store.connected());
    assert_eq!(sup.phase, Phase::Streaming);
}

#[test]
fn backoff_is_capped_and_reset_on_success() {
    let mut sup = Supervisor::new();
    assert_eq!(sup.step(SupervisorEvent::Start), SupervisorAction::Connect);
    let mut last = 0;
    for _ in 0..20 {
        match sup.step(SupervisorEvent::ConnectFailed) {
            SupervisorAction::Sleep { ms } => last = ms,
            other => panic!("unexpected {:?}", other),
        }
        assert_eq!(sup.step(SupervisorEvent::SleepElapsed), SupervisorAction::Connect);
    }
    assert_eq!(last, BACKOFF_CEILING_MS);
    assert_eq!(sup.step(SupervisorEvent::Connected { now_ms: 0 }), SupervisorAction::Read);
    assert_eq!(sup.delay_ms, BACKOFF_FLOOR_MS);
    assert_eq!(sup.step(SupervisorEvent::StreamEnded), SupervisorAction::Sleep { ms: BACKOFF_FLOOR_MS });
}

#[test]
fn stream_end_forces_disconnect() {
    let mut sup = Supervisor::new();
    let mut store = StateStore::new();
    sup.drive(SupervisorEvent::Start, &mut store);
    sup.drive(SupervisorEvent::Connected { now_ms: 0 }, &mut store);
    assert!(store.connected());
    let a = sup.drive(SupervisorEvent::StreamEnded, &mut store);
    assert_eq!(a, SupervisorAction::Sleep { ms: BACKOFF_FLOOR_MS });
    assert!(!store.connected());
}

#[test]
fn silent_stream_times_out() {
    let mut sup = Supervisor::new();
    sup.step(SupervisorEvent::Start);
    sup.step(SupervisorEvent::Connected { now_ms: 10 });
    assert_eq!(sup.step(SupervisorEvent::IdleCheck { now_ms: 10 + IDLE_TIMEOUT_MS }), SupervisorAction::Read);
    assert_eq!(sup.step(SupervisorEvent::Activity { now_ms: 20_000 }), SupervisorAction::Read);
    assert_eq!(sup.step(SupervisorEvent::IdleCheck { now_ms: 20_000 + IDLE_TIMEOUT_MS }), SupervisorAction::Read);
    assert_eq!(
        sup.step(SupervisorEvent::IdleCheck { now_ms: 20_001 + IDLE_TIMEOUT_MS }),
        SupervisorAction::Sleep { ms: BACKOFF_FLOOR_MS }
    );
    assert!(!sup.connected());
}

#[test]
fn events_out_of_phase_are_ignored() {
    let mut sup = Supervisor::new();
    assert_eq!(sup.step(SupervisorEvent::SleepElapsed), SupervisorAction::Ignore);
    assert_eq!(sup.step(SupervisorEvent::StreamEnded), SupervisorAction::Ignore);
    assert_eq!(sup.phase, Phase::Idle);
}
