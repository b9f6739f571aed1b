use launcher_shim::poll_step;
use launcher_shim::PollEvent;
use launcher_shim::PollState;
use launcher_shim::Stage;
use launcher_shim::poller::DEADLINE_MS;

fn file_event(text: &str) -> PollEvent {
    PollEvent::FileContent { content: Some(text.to_string()) }
}

fn no_file() -> PollEvent {
    PollEvent::FileContent { content: None }
}

fn health(success: bool) -> PollEvent {
    PollEvent::HealthResponse { success }
}

#[test]
fn full_run_reaches_ready_with_the_discovered_url() {
    // Handshake file written at t=50ms, health answers at t=120ms.
    let mut st = PollState::AwaitingHandshakeFile;
    st = poll_step(st, 0, no_file());
    assert_eq!(st, PollState::AwaitingHandshakeFile);
    st = poll_step(st, 80, file_event("{\"host\":\"127.0.0.1\",\"port\":5173,\"pid\":4242}"));
    assert_eq!(
        st,
        PollState::AwaitingHealthCheck { base_url: "http://127.0.0.1:5173".to_string() }
    );
    st = poll_step(st, 120, health(true));
    assert_eq!(st, PollState::Ready { base_url: "http://127.0.0.1:5173".to_string() });
    // Terminal: further events change nothing.
    let after = poll_step(st.clone(), 30000, health(false));
    assert_eq!(after, st);
}

#[test]
fn malformed_content_is_not_ready_yet_and_does_not_abort() {
    let mut st = PollState::AwaitingHandshakeFile;
    st = poll_step(st, 100, file_event("{\"host\":\"127.0.0.1\",\"po"));
    assert_eq!(st, PollState::AwaitingHandshakeFile);
    st = poll_step(st, 200, file_event(""));
    assert_eq!(st, PollState::AwaitingHandshakeFile);
    st = poll_step(st, 300, no_file());
    assert_eq!(st, PollState::AwaitingHandshakeFile);
    // A later valid read still advances the protocol.
    st = poll_step(st, 400, file_event("{\"host\":\"h\",\"port\":1,\"pid\":2}"));
    assert_eq!(st, PollState::AwaitingHealthCheck { base_url: "http://h:1".to_string() });
}

#[test]
fn handshake_stage_times_out_after_deadline_not_earlier() {
    let mut st = PollState::AwaitingHandshakeFile;
    st = poll_step(st, DEADLINE_MS - 1, no_file());
    assert_eq!(st, PollState::AwaitingHandshakeFile);
    st = poll_step(st, DEADLINE_MS, no_file());
    assert_eq!(st, PollState::AwaitingHandshakeFile);
    st = poll_step(st, DEADLINE_MS + 1, no_file());
    assert_eq!(st, PollState::TimedOut { stage: Stage::HandshakeFile });
    // The failure is terminal even if the file turns up afterwards.
    st = poll_step(st, DEADLINE_MS + 2, file_event("{\"host\":\"h\",\"port\":1,\"pid\":2}"));
    assert_eq!(st, PollState::TimedOut { stage: Stage::HandshakeFile });
}

#[test]
fn health_stage_times_out_on_the_shared_deadline() {
    // The deadline is shared across stages, not reset between them.
    let mut st = PollState::AwaitingHandshakeFile;
    st = poll_step(st, 50, file_event("{\"host\":\"127.0.0.1\",\"port\":5173,\"pid\":4242}"));
    let mut t: u64 = 150;
    while t <= DEADLINE_MS {
        st = poll_step(st, t, health(false));
        assert_eq!(
            st,
            PollState::AwaitingHealthCheck { base_url: "http://127.0.0.1:5173".to_string() }
        );
        t += 1000;
    }
    st = poll_step(st, DEADLINE_MS + 1, health(false));
    assert_eq!(st, PollState::TimedOut { stage: Stage::HealthCheck });
}

#[test]
fn health_success_is_required_even_after_a_valid_handshake() {
    // A present-but-unresponsive backend must not be reported ready.
    let mut st = PollState::AwaitingHandshakeFile;
    st = poll_step(st, 50, file_event("{\"host\":\"h\",\"port\":9,\"pid\":1}"));
    st = poll_step(st, 150, health(false));
    assert_eq!(st, PollState::AwaitingHealthCheck { base_url: "http://h:9".to_string() });
    assert_ne!(st, PollState::Ready { base_url: "http://h:9".to_string() });
}

#[test]
fn health_events_do_not_advance_the_file_stage() {
    let st = poll_step(PollState::AwaitingHandshakeFile, 10, health(true));
    assert_eq!(st, PollState::AwaitingHandshakeFile);
}
