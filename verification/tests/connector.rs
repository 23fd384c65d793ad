use bevygap::connector::{
    ca_file_name, is_tls_failure, select_tls_mode, ConnectError, ConnectPlan, ConnectSettings,
    TlsMode, DEFAULT_MAX_RECONNECTS,
};

fn candidates() -> Vec<(String, String)> {
    vec![
        ("original".to_string(), "bus.example:4222".to_string()),
        ("IPv6".to_string(), "[::1]:4222".to_string()),
        ("IPv4".to_string(), "127.0.0.1:4222".to_string()),
    ]
}

fn settings(mode: &TlsMode, written: Option<String>) -> ConnectSettings {
    ConnectSettings::new("matchmaker".to_string(), "u".to_string(), "p".to_string(), mode, written, None)
}

#[test]
fn tls_mode_follows_the_settings() {
    assert_eq!(select_tls_mode(false, None, None), TlsMode::SystemTrust);
    assert_eq!(
        select_tls_mode(false, Some("/ca.pem".to_string()), None),
        TlsMode::CustomCaFile("/ca.pem".to_string())
    );
    assert_eq!(
        select_tls_mode(false, None, Some("PEM".to_string())),
        TlsMode::CustomCaInline("PEM".to_string())
    );
    assert_eq!(
        select_tls_mode(false, Some("/ca.pem".to_string()), Some("PEM".to_string())),
        TlsMode::CustomCaFile("/ca.pem".to_string())
    );
    assert_eq!(select_tls_mode(true, Some("/ca.pem".to_string()), None), TlsMode::Insecure);
    assert_eq!(select_tls_mode(true, None, None), TlsMode::Insecure);
}

#[test]
fn tls_is_required_unless_insecure() {
    assert!(TlsMode::SystemTrust.requires_tls());
    assert!(TlsMode::CustomCaFile("/ca.pem".to_string()).requires_tls());
    assert!(TlsMode::CustomCaInline("PEM".to_string()).requires_tls());
    assert!(!TlsMode::Insecure.requires_tls());
}

#[test]
fn root_certificate_comes_from_the_mode() {
    let file = TlsMode::CustomCaFile("/ca.pem".to_string());
    assert_eq!(file.root_certificate(None), Some("/ca.pem".to_string()));
    assert_eq!(file.inline_certificate(), None);
    let inline = TlsMode::CustomCaInline("PEM".to_string());
    assert_eq!(inline.inline_certificate(), Some("PEM".to_string()));
    assert_eq!(
        inline.root_certificate(Some("/tmp/rootCA-x.pem".to_string())),
        Some("/tmp/rootCA-x.pem".to_string())
    );
    // The certificate could not be written: no authority of its own.
    assert_eq!(inline.root_certificate(None), None);
    assert_eq!(TlsMode::SystemTrust.root_certificate(Some("/x".to_string())), None);
    assert_eq!(TlsMode::Insecure.root_certificate(Some("/x".to_string())), None);
}

#[test]
fn certificate_file_is_named_after_the_client() {
    assert_eq!(ca_file_name("matchmaker"), "rootCA-matchmaker.pem");
    assert_eq!(ca_file_name("test_ca-contents 01/../x"), "rootCA-test_ca-contents01x.pem");
    assert_eq!(ca_file_name(""), "rootCA-.pem");
    assert_eq!(ca_file_name("né.e"), "rootCA-ne.pem");
}

#[test]
fn tls_failures_are_recognised() {
    assert!(is_tls_failure("invalid peer certificate: UnknownIssuer"));
    assert!(is_tls_failure("tls error"));
    assert!(is_tls_failure("handshake failed"));
    assert!(is_tls_failure("xxhandshake"));
    assert!(!is_tls_failure("connection refused"));
    assert!(!is_tls_failure("TLS"));
    assert!(!is_tls_failure(""));
    assert!(!is_tls_failure("hand shake, certificat, tl s"));
}

#[test]
fn candidates_are_tried_in_order() {
    let mode = TlsMode::CustomCaFile("/ca.pem".to_string());
    let settings = settings(&mode, None);
    let mut plan = ConnectPlan::new(candidates());
    assert!(!plan.is_exhausted());

    let first = plan.next_attempt(&settings).unwrap();
    assert_eq!(first.label, "original");
    assert_eq!(first.address, "bus.example:4222");
    assert_eq!(first.client_name, "matchmaker");
    assert_eq!(first.user, "u");
    assert_eq!(first.password, "p");
    assert!(first.require_tls);
    assert_eq!(first.root_certificate, Some("/ca.pem".to_string()));
    assert_eq!(first.max_reconnects, DEFAULT_MAX_RECONNECTS);
    assert_eq!(first.max_reconnects, 10);
    // Asking again changes nothing.
    assert_eq!(plan.next_attempt(&settings), Some(first));

    assert!(!plan.record_failure("connection refused".to_string()));
    assert_eq!(
        plan.next_candidate(),
        Some(("IPv6".to_string(), "[::1]:4222".to_string()))
    );
    assert!(plan.record_failure("tls handshake eof".to_string()));
    assert_eq!(
        plan.next_candidate(),
        Some(("IPv4".to_string(), "127.0.0.1:4222".to_string()))
    );
    assert!(!plan.is_exhausted());
    assert!(!plan.record_failure("timed out".to_string()));
    assert!(plan.is_exhausted());
    assert_eq!(plan.next_candidate(), None);
    assert_eq!(plan.next_attempt(&settings), None);
    assert_eq!(
        plan.exhausted_error(),
        ConnectError::AllCandidatesExhausted("timed out".to_string())
    );
}

#[test]
fn plan_without_candidates_is_exhausted() {
    let mut plan = ConnectPlan::new(Vec::new());
    assert!(plan.is_exhausted());
    assert_eq!(plan.next_candidate(), None);
    assert_eq!(
        plan.exhausted_error(),
        ConnectError::AllCandidatesExhausted("All host variants failed to connect".to_string())
    );
    plan.record_failure("late".to_string());
    assert!(plan.is_exhausted());
    assert_eq!(plan.exhausted_error().message(), "late");
}

#[test]
fn missing_storage_is_its_own_error() {
    let error = ConnectError::provisioning_unavailable("jetstream not enabled");
    assert_eq!(
        error,
        ConnectError::ProvisioningUnavailable(
            "Jetstream is required but not available: jetstream not enabled. Please enable Jetstream on your NATS server."
                .to_string()
        )
    );
    assert_ne!(error, ConnectError::AllCandidatesExhausted(error.message()));
}

#[test]
fn settings_follow_the_mode() {
    let insecure = ConnectSettings::new(
        "n".to_string(),
        "u".to_string(),
        "p".to_string(),
        &TlsMode::Insecure,
        Some("/tmp/ca.pem".to_string()),
        Some(3),
    );
    assert_eq!(
        insecure,
        ConnectSettings {
            client_name: "n".to_string(),
            user: "u".to_string(),
            password: "p".to_string(),
            require_tls: false,
            root_certificate: None,
            max_reconnects: 3,
        }
    );
    let inline = settings(&TlsMode::CustomCaInline("PEM".to_string()), Some("/tmp/ca.pem".to_string()));
    assert!(inline.require_tls);
    assert_eq!(inline.root_certificate, Some("/tmp/ca.pem".to_string()));
    assert_eq!(inline.max_reconnects, 10);
    let unwritten = settings(&TlsMode::CustomCaInline("PEM".to_string()), None);
    assert!(unwritten.require_tls);
    assert_eq!(unwritten.root_certificate, None);
    let system = settings(&TlsMode::SystemTrust, None);
    assert!(system.require_tls);
    assert_eq!(system.root_certificate, None);
}
