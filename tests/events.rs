use edr_lite::digest::{sha256_hex, to_hex};
use edr_lite::models::{DetectionResult, ProcEvent, ProcSnapshot, Severity};

#[test]
fn hex_text_of_bytes() {
    assert_eq!(to_hex(&[10, 20, 30]), "0a141e");
    assert_eq!(to_hex(&[0, 255, 16]), "00ff10");
    assert_eq!(to_hex(&[]), "");
}

#[test]
fn sha256_of_known_inputs() {
    assert_eq!(
        sha256_hex(b"abc"),
        "ba7816bf8f01cfea414140de5dae2223b00361a396177a9cb410ff61f20015ad"
    );
    assert_eq!(
        sha256_hex(b""),
        "e3b0c44298fc1c149afbf4c8996fb92427ae41e4649b934ca495991b7852b855"
    );
}

fn event_with(severity: Severity) -> ProcEvent {
    let snap = ProcSnapshot {
        pid: 42,
        name: "cmd.exe".to_string(),
        exe_path: Some("C:\\x\\cmd.exe".to_string()),
    };
    let det = DetectionResult { flags: vec!["lolbin_process".to_string()], severity };
    ProcEvent::from_detection(7, snap, Some("ab".to_string()), det)
}

#[test]
fn event_keeps_observation_and_verdict() {
    let e = event_with(Severity::Medium);
    assert_eq!(e.ts_utc, 7);
    assert_eq!(e.pid, 42);
    assert_eq!(e.name, "cmd.exe");
    assert_eq!(e.exe_path.as_deref(), Some("C:\\x\\cmd.exe"));
    assert_eq!(e.sha256.as_deref(), Some("ab"));
    assert_eq!(e.flags, vec!["lolbin_process".to_string()]);
    assert_eq!(e.severity, Severity::Medium);
}

#[test]
fn medium_and_high_events_alert() {
    assert!(!event_with(Severity::Low).is_alert());
    assert!(event_with(Severity::Medium).is_alert());
    assert!(event_with(Severity::High).is_alert());
}
