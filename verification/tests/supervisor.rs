use sidecar_supervisor::deps::DependencyChecker;
use sidecar_supervisor::errors::SidecarError;
use sidecar_supervisor::manager::python_candidates;
use sidecar_supervisor::manager::resolve_executable;
use sidecar_supervisor::manager::sidecar_args;
use sidecar_supervisor::manager::SidecarManager;
use sidecar_supervisor::ports::PortAllocator;

#[test]
fn test_manager_default_state() {
    let manager = SidecarManager::new();
    assert_eq!(manager.port_candidate(), 9000);
    assert!(manager.get_ws_port("any-window").is_none());
}

#[test]
fn allocator_takes_first_available_candidate() {
    let mut a = PortAllocator::new();
    assert_eq!(a.candidate(), 9000);
    let got = a.allocate_with(&vec![true]);
    assert_eq!(got, Some(9000));
    assert_eq!(a.candidate(), 9001);
}

#[test]
fn allocator_skips_occupied_candidates() {
    let mut a = PortAllocator::new();
    let got = a.allocate_with(&vec![false, false, true]);
    assert_eq!(got, Some(9002));
    assert_eq!(a.candidate(), 9003);
}

#[test]
fn allocator_advances_past_every_tested_port() {
    let mut a = PortAllocator::new();
    let got = a.allocate_with(&vec![false, false, false]);
    assert_eq!(got, None);
    assert_eq!(a.candidate(), 9003);
}

#[test]
fn allocator_serialized_allocations_are_distinct() {
    let mut a = PortAllocator::new();
    let p1 = a.allocate_with(&vec![true]).unwrap();
    // The first port stays bound by its worker, so its probe would
    // now fail; the scan moves on regardless, from the advanced
    // cursor.
    let p2 = a.allocate_with(&vec![true]).unwrap();
    let p3 = a.allocate_with(&vec![true]).unwrap();
    assert_ne!(p1, p2);
    assert_ne!(p1, p3);
    assert_ne!(p2, p3);
}

#[test]
fn allocator_wraps_cursor_to_base_after_ceiling() {
    let mut a = PortAllocator::new();
    // Drive the cursor from 9000 up to the ceiling, every probe
    // finding the port occupied.
    for _ in 0..10000 {
        assert_eq!(a.record_probe(false), None);
    }
    assert_eq!(a.candidate(), 19000);
    // Testing the ceiling port moves the cursor back to the base,
    // never to an out-of-range port.
    assert_eq!(a.record_probe(false), None);
    assert_eq!(a.candidate(), 9000);
}

#[test]
fn manager_register_then_lookup() {
    let mut m = SidecarManager::new();
    let displaced = m.register_sidecar("w1", "/tmp/v1".to_string(), 9100);
    assert!(displaced.is_none());
    assert_eq!(m.get_ws_port("w1"), Some(9100));
    assert_eq!(m.get_ws_port("w2"), None);
}

#[test]
fn manager_register_replaces_and_returns_old_record() {
    let mut m = SidecarManager::new();
    assert!(m.register_sidecar("w1", "/tmp/v1".to_string(), 9100).is_none());
    let displaced = m.register_sidecar("w1", "/tmp/v2".to_string(), 9101).unwrap();
    assert_eq!(displaced.vault_path, "/tmp/v1");
    assert_eq!(displaced.ws_port, 9100);
    assert_eq!(m.get_ws_port("w1"), Some(9101));
}

#[test]
fn manager_terminate_is_idempotent() {
    let mut m = SidecarManager::new();
    m.register_sidecar("w1", "/tmp/v1".to_string(), 9100);
    let first = m.terminate_sidecar("w1");
    assert!(first.is_some());
    assert_eq!(first.unwrap().ws_port, 9100);
    // The second call in a row is a no-op: nothing left to remove,
    // and no error of any kind.
    let second = m.terminate_sidecar("w1");
    assert!(second.is_none());
    assert_eq!(m.get_ws_port("w1"), None);
}

#[test]
fn manager_terminate_unknown_label_is_noop() {
    let mut m = SidecarManager::new();
    assert!(m.terminate_sidecar("never-spawned").is_none());
}

#[test]
fn manager_shutdown_all_unregisters_every_session() {
    let mut m = SidecarManager::new();
    m.register_sidecar("w1", "/tmp/v1".to_string(), 9100);
    m.register_sidecar("w2", "/tmp/v2".to_string(), 9101);
    m.register_sidecar("w3", "/tmp/v3".to_string(), 9102);
    let drained = m.shutdown_all();
    assert_eq!(drained.len(), 3);
    let mut labels: Vec<String> = drained.iter().map(|e| e.window_label.clone()).collect();
    labels.sort();
    assert_eq!(labels, vec!["w1".to_string(), "w2".to_string(), "w3".to_string()]);
    assert_eq!(m.get_ws_port("w1"), None);
    assert_eq!(m.get_ws_port("w2"), None);
    assert_eq!(m.get_ws_port("w3"), None);
}

#[test]
fn manager_port_in_use_tracks_live_records() {
    let mut m = SidecarManager::new();
    assert!(!m.port_in_use(9100));
    m.register_sidecar("w1", "/tmp/v1".to_string(), 9100);
    m.register_sidecar("w2", "/tmp/v2".to_string(), 9101);
    assert!(m.port_in_use(9100));
    assert!(m.port_in_use(9101));
    assert!(!m.port_in_use(9102));
    m.terminate_sidecar("w1");
    assert!(!m.port_in_use(9100));
    assert!(m.port_in_use(9101));
}

#[test]
fn manager_distinct_sessions_hold_distinct_ports() {
    let mut m = SidecarManager::new();
    let p1 = m.allocate_port(&vec![true]).unwrap();
    m.register_sidecar("w1", "/tmp/v1".to_string(), p1);
    // The live worker holds its port bound, so the next scan's probe
    // of it fails and the allocator moves on.
    let p2 = m.allocate_port(&vec![true]).unwrap();
    assert!(!m.port_in_use(p2));
    m.register_sidecar("w2", "/tmp/v2".to_string(), p2);
    assert_ne!(m.get_ws_port("w1"), m.get_ws_port("w2"));
}

#[test]
fn manager_allocate_port_leaves_sessions_alone() {
    let mut m = SidecarManager::new();
    m.register_sidecar("w1", "/tmp/v1".to_string(), 9100);
    let got = m.allocate_port(&vec![false, true]);
    assert_eq!(got, Some(9001));
    assert_eq!(m.get_ws_port("w1"), Some(9100));
}

#[test]
fn resolve_executable_picks_first_responding_candidate() {
    let cands = python_candidates();
    assert_eq!(cands, vec!["python3".to_string(), "python".to_string()]);
    let r = resolve_executable(&cands, &vec![false, true]);
    assert_eq!(r.unwrap(), "python".to_string());
    let r = resolve_executable(&cands, &vec![true, true]);
    assert_eq!(r.unwrap(), "python3".to_string());
}

#[test]
fn resolve_executable_fails_when_no_candidate_responds() {
    let cands = python_candidates();
    let r = resolve_executable(&cands, &vec![false, false]);
    assert_eq!(r.unwrap_err(), SidecarError::ExecutableNotFound);
}

#[test]
fn sidecar_args_lists_the_worker_invocation() {
    let args = sidecar_args("/tmp/v1", 9123);
    assert_eq!(
        args,
        vec![
            "-u".to_string(),
            "-m".to_string(),
            "sidecar".to_string(),
            "--vault".to_string(),
            "/tmp/v1".to_string(),
            "--ws-port".to_string(),
            "9123".to_string(),
        ]
    );
}

#[test]
fn dependency_check_always_succeeds() {
    assert!(DependencyChecker::check_and_install("/tmp/v1").is_ok());
}

#[test]
fn needs_update_only_when_requirements_exist_without_lib() {
    assert!(!DependencyChecker::needs_update(false, false));
    assert!(!DependencyChecker::needs_update(false, true));
    assert!(DependencyChecker::needs_update(true, false));
    assert!(!DependencyChecker::needs_update(true, true));
}

#[test]
fn pip_candidates_are_ordered() {
    assert_eq!(
        DependencyChecker::pip_candidates(),
        vec!["pip3".to_string(), "pip".to_string()]
    );
}

#[test]
fn error_messages_name_each_failure() {
    assert_eq!(
        SidecarError::ExecutableNotFound.message(),
        "python interpreter not found in PATH"
    );
    assert_eq!(
        SidecarError::SpawnError.message(),
        "failed to spawn sidecar process"
    );
    assert_eq!(
        SidecarError::SessionNotFound.message(),
        "no sidecar is tracked for this window"
    );
    assert_eq!(
        SidecarError::ConnectionError.message(),
        "failed to connect to sidecar websocket"
    );
    assert_eq!(
        SidecarError::SendError.message(),
        "failed to send websocket message"
    );
    assert_eq!(
        SidecarError::ProtocolError.message(),
        "failed to parse sidecar response"
    );
    assert_eq!(
        SidecarError::ConnectionClosed.message(),
        "connection closed without valid response"
    );
}
