use launcher_shim::base_url::base_url_of;
use launcher_shim::base_url::health_url_of;
use launcher_shim::base_url::u16_to_decimal;
use launcher_shim::boxed_err;
use launcher_shim::invocation::backend_exe_path;
use launcher_shim::invocation::check_backend_present;
use launcher_shim::invocation::fresh_handshake_file_path;
use launcher_shim::invocation::handshake_file_path;
use launcher_shim::invocation::tmp_sibling_path;
use launcher_shim::invocation::BackendInvocation;
use launcher_shim::publish_poll_outcome;
use launcher_shim::BaseUrlLatch;
use launcher_shim::PollState;
use launcher_shim::SetupError;
use launcher_shim::Stage;

#[test]
fn base_url_is_scheme_host_port() {
    assert_eq!(base_url_of("127.0.0.1", 5173), "http://127.0.0.1:5173");
    assert_eq!(base_url_of("localhost", 80), "http://localhost:80");
    assert_eq!(base_url_of("h", 0), "http://h:0");
    assert_eq!(base_url_of("h", 65535), "http://h:65535");
}

#[test]
fn port_renders_in_plain_decimal() {
    assert_eq!(u16_to_decimal(0), "0");
    assert_eq!(u16_to_decimal(7), "7");
    assert_eq!(u16_to_decimal(10), "10");
    assert_eq!(u16_to_decimal(5173), "5173");
    assert_eq!(u16_to_decimal(65535), "65535");
}

#[test]
fn health_url_appends_the_well_known_path() {
    assert_eq!(health_url_of("http://127.0.0.1:5173"), "http://127.0.0.1:5173/api/health");
}

#[test]
fn latch_is_none_before_and_the_same_value_after_setup() {
    let mut latch = BaseUrlLatch::new();
    assert_eq!(latch.get_backend_base_url(), None);
    assert!(latch.publish("http://127.0.0.1:5173".to_string()));
    assert_eq!(latch.get_backend_base_url(), Some("http://127.0.0.1:5173".to_string()));
    // An idempotent read: asking again yields the same value.
    assert_eq!(latch.get_backend_base_url(), Some("http://127.0.0.1:5173".to_string()));
    // The latch never takes a second value.
    assert!(!latch.publish("http://other:1".to_string()));
    assert_eq!(latch.get_backend_base_url(), Some("http://127.0.0.1:5173".to_string()));
}

#[test]
fn ready_outcome_publishes_and_timeouts_leave_the_latch_empty() {
    let mut latch = BaseUrlLatch::new();
    let r = publish_poll_outcome(
        &mut latch,
        PollState::TimedOut { stage: Stage::HandshakeFile },
    );
    assert!(matches!(r, Err(SetupError::HandshakeTimeout)));
    assert_eq!(latch.get_backend_base_url(), None);

    let r = publish_poll_outcome(&mut latch, PollState::TimedOut { stage: Stage::HealthCheck });
    assert!(matches!(r, Err(SetupError::HealthTimeout)));
    assert_eq!(latch.get_backend_base_url(), None);

    let r = publish_poll_outcome(
        &mut latch,
        PollState::Ready { base_url: "http://h:1".to_string() },
    );
    assert!(r.is_ok());
    assert_eq!(latch.get_backend_base_url(), Some("http://h:1".to_string()));
}

#[test]
fn missing_backend_is_fatal_and_names_the_path() {
    let r = check_backend_present("/opt/app/mvp_backend.exe", false);
    match r {
        Err(SetupError::MissingBackend { path }) => {
            assert_eq!(path, "/opt/app/mvp_backend.exe");
        },
        _ => panic!("expected a missing-backend error"),
    }
    let e = check_backend_present("/opt/app/mvp_backend.exe", false).unwrap_err();
    assert_eq!(e.message(), "Missing backend exe next to app: /opt/app/mvp_backend.exe");
    assert!(check_backend_present("/opt/app/mvp_backend.exe", true).is_ok());
}

#[test]
fn error_messages_name_their_stage() {
    assert_eq!(SetupError::HandshakeTimeout.message(), "Timeout waiting for backend port-file");
    assert_eq!(SetupError::HealthTimeout.message(), "Timeout waiting for backend /api/health");
    assert_eq!(
        SetupError::ExeDirUnknown.message(),
        "Cannot determine executable directory"
    );
    assert_eq!(boxed_err("boom".to_string()).message(), "boom");
}

#[test]
fn backend_is_expected_beside_the_launcher() {
    assert_eq!(backend_exe_path("/opt/app"), "/opt/app/mvp_backend.exe");
}

#[test]
fn handshake_path_has_prefix_identifier_and_suffix() {
    assert_eq!(
        handshake_file_path("/data", "abc-123"),
        "/data/backend-port-abc-123.json"
    );
}

#[test]
fn fresh_handshake_paths_are_unique_per_attempt() {
    let a = fresh_handshake_file_path("/data");
    let b = fresh_handshake_file_path("/data");
    assert_ne!(a, b);
    assert!(a.starts_with("/data/backend-port-"));
    assert!(a.ends_with(".json"));
    // "/data/backend-port-" + 36 identifier characters + ".json"
    assert_eq!(a.len(), 19 + 36 + 5);
}

#[test]
fn tmp_sibling_swaps_the_extension() {
    assert_eq!(tmp_sibling_path("/data/backend-port-x.json"), "/data/backend-port-x.tmp");
    assert_eq!(tmp_sibling_path("file.json"), "file.tmp");
    assert_eq!(tmp_sibling_path("noext"), "noext.tmp");
    assert_eq!(tmp_sibling_path("/d.ir/noext"), "/d.ir/noext.tmp");
    assert_eq!(tmp_sibling_path("/d/.hidden"), "/d/.hidden.tmp");
    assert_eq!(tmp_sibling_path("a.b.c"), "a.b.tmp");
}

#[test]
fn invocation_carries_host_port_file_and_data_dir() {
    let inv = BackendInvocation::new(
        "/opt/app/mvp_backend.exe".to_string(),
        "/data/backend-port-x.json".to_string(),
        "/data".to_string(),
    );
    assert_eq!(inv.exe_path, "/opt/app/mvp_backend.exe");
    let args = inv.args();
    assert_eq!(
        args,
        vec![
            "--host".to_string(),
            "127.0.0.1".to_string(),
            "--port-file".to_string(),
            "/data/backend-port-x.json".to_string(),
        ]
    );
    let (name, value) = inv.env_var();
    assert_eq!(name, "MVP_DATA_DIR");
    assert_eq!(value, "/data");
}
