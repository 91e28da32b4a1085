//! The polling schedule and the decisions on adapter answers.

use tapiti::obd::ObdError;
use tapiti::scheduler::{due, header_after_reconnect, recovery, PollOutcome, PollState, Recovery};
use tapiti::subaru::{ej205_pids, Priority};

#[test]
fn test_due_divisors_per_priority() {
    for t in 0..30u64 {
        assert!(due(Priority::Critical, t));
        assert_eq!(due(Priority::High, t), t % 3 == 0);
        assert_eq!(due(Priority::Normal, t), t % 5 == 0);
        assert_eq!(due(Priority::Low, t), t % 10 == 0);
    }
}

#[test]
fn test_due_pids_at_tick_zero_and_one() {
    let pids = ej205_pids();
    let st = PollState::new();
    assert_eq!(st.due_pids(&pids), (0..13).collect::<Vec<usize>>());
    let mut st = PollState::new();
    st.finish_tick();
    // only the critical ones: rpm, map, knock_fine, boost_psi
    assert_eq!(st.due_pids(&pids), vec![0, 1, 8, 11]);
}

#[test]
fn test_third_stopped_answer_reconnects() {
    let pids = ej205_pids();
    let mut st = PollState::new();
    st.finish_tick();
    st.finish_tick();
    assert!(matches!(st.on_response(&pids[0], "STOPPED\r\n>"), PollOutcome::Stopped(1)));
    assert!(matches!(st.on_response(&pids[0], "STOPPED\r\n>"), PollOutcome::Stopped(2)));
    assert_eq!(st.tick(), 2);
    assert!(matches!(st.on_response(&pids[0], "STOPPED\r\n>"), PollOutcome::StoppedReconnect));
    assert_eq!(st.tick(), 0);
    assert_eq!(st.stopped_count(), 0);
    st.finish_tick();
    assert_eq!(st.tick(), 1);
}

#[test]
fn test_data_resets_stopped_count_and_publishes() {
    let pids = ej205_pids();
    let mut st = PollState::new();
    assert!(matches!(st.on_response(&pids[0], "STOPPED\r\n>"), PollOutcome::Stopped(1)));
    match st.on_response(&pids[0], "41 0C 1A F8\r\n>") {
        PollOutcome::Publish(m) => assert_eq!((m.num, m.den), (6904, 4)),
        other => panic!("unexpected {:?}", other),
    }
    assert_eq!(st.stopped_count(), 0);
    assert!(matches!(st.on_response(&pids[0], "41 0C\r\n>"), PollOutcome::DecodeFailed(_)));
    assert!(matches!(st.on_response(&pids[0], "NO DATA\r\n>"), PollOutcome::NoData));
    assert!(matches!(st.on_response(&pids[0], "BUS INIT\r\n>"), PollOutcome::ParseFailed(_)));
}

#[test]
fn test_link_error_restarts_cycle_keeping_stopped_count() {
    let pids = ej205_pids();
    let mut st = PollState::new();
    st.finish_tick();
    assert!(matches!(st.on_response(&pids[0], "STOPPED\r\n>"), PollOutcome::Stopped(1)));
    assert!(matches!(st.on_link_error(), PollOutcome::LinkReconnect));
    assert_eq!(st.tick(), 0);
    assert_eq!(st.stopped_count(), 1);
}

#[test]
fn test_recovery_pauses_and_header_resend() {
    assert_eq!(
        recovery(&PollOutcome::StoppedReconnect),
        Recovery::Reconnect { pause_ms: 1000 }
    );
    assert_eq!(
        recovery(&PollOutcome::LinkReconnect),
        Recovery::Reconnect { pause_ms: 1500 }
    );
    assert_eq!(recovery(&PollOutcome::NoData), Recovery::Continue);
    assert_eq!(recovery(&PollOutcome::Stopped(2)), Recovery::Continue);
    assert_eq!(
        recovery(&PollOutcome::ParseFailed(ObdError::BusInit)),
        Recovery::Continue
    );
    assert_eq!(header_after_reconnect(true), Some("AT SH 7E0"));
    assert_eq!(header_after_reconnect(false), None);
}

#[test]
fn test_third_stopped_then_recovery_reconnects() {
    let pids = ej205_pids();
    let mut st = PollState::new();
    assert_eq!(recovery(&st.on_response(&pids[0], "STOPPED\r\n>")), Recovery::Continue);
    assert_eq!(recovery(&st.on_response(&pids[0], "STOPPED\r\n>")), Recovery::Continue);
    assert_eq!(
        recovery(&st.on_response(&pids[0], "STOPPED\r\n>")),
        Recovery::Reconnect { pause_ms: 1000 }
    );
}
