use outpost::clock::Moment;
use outpost::config::{TlsConfig, TlsVersion};
use outpost::report::Status;
use outpost::tls::{
    check, connect, connect_to, error_to_result, evaluate, evaluate_at, evaluate_with_leaf,
    parse_negotiated_version, tcp_connected, ConnectEvent, ConnectStep, LeafCertificate,
    Negotiated, TlsConnectError, TlsConnectionInfo,
};

fn cfg(min: TlsVersion) -> TlsConfig {
    TlsConfig {
        min_version: min,
        expiry_warning_days: 14,
        allow_weak_ciphers: false,
    }
}

fn self_signed_cert_der(not_after_days_from_now: i64) -> Vec<u8> {
    let mut params = rcgen::CertificateParams::new(vec!["example.com".to_string()]).unwrap();
    let now = std::time::SystemTime::now();
    params.not_before = (now - std::time::Duration::from_secs(3600)).into();
    params.not_after = (now
        + std::time::Duration::from_secs((not_after_days_from_now.max(0) as u64) * 86_400))
    .into();
    let key_pair = rcgen::KeyPair::generate().unwrap();
    let cert = params.self_signed(&key_pair).unwrap();
    cert.der().to_vec()
}

fn info(version: &str, chain_der: Vec<Vec<u8>>) -> TlsConnectionInfo {
    TlsConnectionInfo {
        protocol_version: version.to_string(),
        cipher_suite: "TLS13_AES_128_GCM_SHA256".to_string(),
        chain_der,
    }
}

#[test]
fn parses_tls13_version_string() {
    assert_eq!(parse_negotiated_version("TLSv1_3"), Some(TlsVersion::Tls13));
}

#[test]
fn parses_tls12_version_string() {
    assert_eq!(parse_negotiated_version("TLSv1_2"), Some(TlsVersion::Tls12));
}

#[test]
fn unknown_version_string_returns_none() {
    assert_eq!(parse_negotiated_version("SSLv3"), None);
}

#[test]
fn tls12_negotiated_fails_when_minimum_is_tls13() {
    let info = TlsConnectionInfo {
        protocol_version: "TLSv1_2".to_string(),
        cipher_suite: "TLS12_ECDHE_RSA_WITH_AES_128_GCM_SHA256".to_string(),
        chain_der: vec![],
    };
    let result = evaluate("example.com", &info, &cfg(TlsVersion::Tls13));
    assert!(matches!(result.status, Status::Fail));
}

#[test]
fn tls13_negotiated_passes_version_gate_when_minimum_is_tls12() {
    let info = TlsConnectionInfo {
        protocol_version: "TLSv1_3".to_string(),
        cipher_suite: "TLS13_AES_128_GCM_SHA256".to_string(),
        chain_der: vec![],
    };
    let result = evaluate("example.com", &info, &cfg(TlsVersion::Tls12));
    assert!(matches!(result.status, Status::Warn));
}

#[test]
fn cert_expiring_within_warning_window_fails() {
    let der = self_signed_cert_der(5);
    let info = TlsConnectionInfo {
        protocol_version: "TLSv1_3".to_string(),
        cipher_suite: "TLS13_AES_128_GCM_SHA256".to_string(),
        chain_der: vec![der],
    };
    let result = evaluate("example.com", &info, &cfg(TlsVersion::Tls12));
    assert_eq!(result.status, Status::Fail);
    assert!(result.details.iter().any(|d| d.contains("warning window")));
}

#[test]
fn cert_already_expired_fails() {
    let der = self_signed_cert_der(-5);
    let info = TlsConnectionInfo {
        protocol_version: "TLSv1_3".to_string(),
        cipher_suite: "TLS13_AES_128_GCM_SHA256".to_string(),
        chain_der: vec![der],
    };
    let result = evaluate("example.com", &info, &cfg(TlsVersion::Tls12));
    assert_eq!(result.status, Status::Fail);
    assert!(result.details.iter().any(|d| d.contains("EXPIRED")));
}

#[test]
fn cert_comfortably_valid_passes() {
    let der = self_signed_cert_der(120);
    let info = TlsConnectionInfo {
        protocol_version: "TLSv1_3".to_string(),
        cipher_suite: "TLS13_AES_128_GCM_SHA256".to_string(),
        chain_der: vec![der],
    };
    let result = evaluate("example.com", &info, &cfg(TlsVersion::Tls12));
    assert_eq!(result.status, Status::Pass);
}

#[test]
fn a_certificate_is_read_in_full() {
    let mut params = rcgen::CertificateParams::new(vec!["example.com".to_string()]).unwrap();
    params.not_before = rcgen::date_time_ymd(2026, 1, 1);
    params.not_after = rcgen::date_time_ymd(2026, 4, 1);
    let key_pair = rcgen::KeyPair::generate().unwrap();
    let der = params.self_signed(&key_pair).unwrap().der().to_vec();
    // 2026-03-01T00:00:00Z: 31 days before the end.
    let now = Moment {
        seconds: 1_772_323_200,
        nanos: 0,
    };
    let result = evaluate_at(
        "example.com",
        &info("TLSv1_3", vec![der]),
        &cfg(TlsVersion::Tls12),
        now,
    );
    assert_eq!(result.status, Status::Pass);
    assert_eq!(result.summary, "example.com: TLSv1_3 / leaf cert inspected");
    assert_eq!(
        result.details,
        vec![
            "negotiated protocol: TLSv1_3",
            "negotiated cipher suite: TLS13_AES_128_GCM_SHA256",
            "certificate valid for 31 more day(s)",
            "not_after: 2026-04-01T00:00:00+00:00",
            "subject: CN=rcgen self signed cert",
            "issuer: CN=rcgen self signed cert",
        ]
    );
}

#[test]
fn an_unreadable_certificate_warns() {
    let result = evaluate(
        "example.com",
        &info("TLSv1_3", vec![vec![1, 2, 3]]),
        &cfg(TlsVersion::Tls12),
    );
    assert_eq!(result.status, Status::Warn);
    assert!(result
        .details
        .contains(&"could not parse leaf certificate for expiry inspection".to_string()));
}

fn leaf(not_after: i64) -> Option<LeafCertificate> {
    Some(LeafCertificate {
        not_after,
        not_after_text: None,
        subject: "CN=a".to_string(),
        issuer: "CN=b".to_string(),
    })
}

#[test]
fn expiry_is_counted_in_whole_days() {
    let day: i64 = 86_400;
    let c = cfg(TlsVersion::Tls12);
    let i = info("TLSv1_3", vec![]);
    let r = evaluate_with_leaf("d", &i, &c, &leaf(14 * day), 0);
    assert_eq!(r.status, Status::Pass);
    assert_eq!(r.details[2], "certificate valid for 14 more day(s)");
    let r = evaluate_with_leaf("d", &i, &c, &leaf(14 * day - 1), 0);
    assert_eq!(r.status, Status::Fail);
    assert_eq!(
        r.details[2],
        "certificate expires in 13 day(s), inside the 14-day warning window"
    );
    let r = evaluate_with_leaf("d", &i, &c, &leaf(0), 0);
    assert_eq!(r.status, Status::Fail);
    assert_eq!(r.details[2], "certificate EXPIRED 0 day(s) ago");
    let r = evaluate_with_leaf("d", &i, &c, &leaf(0), 3 * day);
    assert_eq!(r.details[2], "certificate EXPIRED 3 day(s) ago");
    let r = evaluate_with_leaf("d", &i, &c, &leaf(0), 4 * day);
    assert_eq!(r.status, Status::Fail);
    let r = evaluate_with_leaf("d", &i, &c, &leaf(i64::MIN), i64::MAX);
    assert_eq!(
        r.details[2],
        "certificate EXPIRED 213503982334601 day(s) ago"
    );
}

#[test]
fn an_expired_certificate_fails_without_a_window() {
    let mut c = cfg(TlsVersion::Tls12);
    c.expiry_warning_days = -1_000_000;
    let i = info("TLSv1_3", vec![]);
    assert_eq!(
        evaluate_with_leaf("d", &i, &c, &leaf(100), 100).status,
        Status::Fail
    );
    assert_eq!(
        evaluate_with_leaf("d", &i, &c, &leaf(101), 100).status,
        Status::Pass
    );
}

#[test]
fn versions_are_held_against_the_minimum() {
    let l = leaf(i64::MAX);
    let r = evaluate_with_leaf(
        "d",
        &info("TLSv1_2", vec![]),
        &cfg(TlsVersion::Tls13),
        &l,
        0,
    );
    assert_eq!(r.status, Status::Fail);
    assert_eq!(
        r.details[2],
        "negotiated TLS 1.2 is below the configured minimum of TLS 1.3"
    );
    let r = evaluate_with_leaf("d", &info("SSLv3", vec![]), &cfg(TlsVersion::Tls12), &l, 0);
    assert_eq!(r.status, Status::Warn);
    assert_eq!(
        r.details[2],
        "could not parse negotiated protocol version"
    );
}

#[test]
fn allowing_weak_ciphers_skips_with_a_note() {
    let note =
        "allow_weak_ciphers=true has no effect: rustls does not implement weak cipher suites";
    let mut c = cfg(TlsVersion::Tls12);
    let i = info("TLSv1_3", vec![]);
    let before = evaluate_with_leaf("d", &i, &c, &leaf(i64::MAX), 0);
    assert_eq!(before.status, Status::Pass);
    assert!(!before.details.contains(&note.to_string()));
    c.allow_weak_ciphers = true;
    let after = evaluate_with_leaf("d", &i, &c, &leaf(i64::MAX), 0);
    assert_eq!(after.status, Status::Skip);
    assert_eq!(after.details.last().unwrap(), note);
    assert_eq!(after.summary, before.summary);

    let failed = evaluate_with_leaf("d", &i, &c, &leaf(0), 0);
    assert_eq!(failed.status, Status::Fail);
    assert_eq!(failed.details.last().unwrap(), note);
    let warned = evaluate_with_leaf("d", &i, &c, &None, 0);
    assert_eq!(warned.status, Status::Warn);
    assert_eq!(warned.details.last().unwrap(), note);
}

#[test]
fn a_live_certificate_is_skipped_where_weak_ciphers_are_allowed() {
    let mut c = cfg(TlsVersion::Tls12);
    let i = info("TLSv1_3", vec![self_signed_cert_der(120)]);
    assert_eq!(evaluate("example.com", &i, &c).status, Status::Pass);
    c.allow_weak_ciphers = true;
    let result = evaluate("example.com", &i, &c);
    assert_eq!(result.status, Status::Skip);
    assert!(result
        .details
        .iter()
        .any(|d| d.contains("allow_weak_ciphers=true has no effect")));
}

fn failure(step: ConnectStep) -> TlsConnectError {
    match step {
        ConnectStep::Failed(e) => e,
        _ => panic!("expected a failed connection"),
    }
}

#[test]
fn tls_check_fails_against_self_signed_mock_server() {
    let e = failure(connect_to(
        "mocked.invalid",
        "127.0.0.1",
        ConnectEvent::HandshakeFailed("invalid peer certificate: UnknownIssuer".to_string()),
    ));
    let result = error_to_result("mocked.invalid", e);
    assert_eq!(result.status, Status::Fail);
    assert_eq!(
        result.summary,
        "TLS handshake with mocked.invalid failed: invalid peer certificate: UnknownIssuer"
    );
    assert_eq!(result.details.len(), 1);
}

#[test]
fn tls_check_skips_on_connection_refused() {
    let e = failure(connect_to(
        "mocked.invalid",
        "127.0.0.1",
        ConnectEvent::TcpFailed("Connection refused".to_string()),
    ));
    assert_eq!(
        e.message(),
        "network error connecting to 127.0.0.1:443: Connection refused"
    );
    let result = error_to_result("mocked.invalid", e);
    assert_eq!(result.status, Status::Skip);
    assert_eq!(
        result.summary,
        "could not reach mocked.invalid:443: Connection refused"
    );
}

#[test]
fn timeouts_are_told_apart() {
    assert_eq!(
        failure(connect("example.com", ConnectEvent::TcpTimedOut)).message(),
        "network error connecting to example.com:443: connection timed out"
    );
    assert_eq!(
        failure(connect("example.com", ConnectEvent::HandshakeTimedOut)).message(),
        "TLS handshake failed: handshake timed out"
    );
}

#[test]
fn server_names_are_checked_before_the_handshake() {
    assert!(matches!(
        connect("example.com", ConnectEvent::TcpConnected),
        ConnectStep::Handshake
    ));
    assert!(matches!(
        connect("127.0.0.1", ConnectEvent::TcpConnected),
        ConnectStep::Handshake
    ));
    let message = failure(connect("not a name", ConnectEvent::TcpConnected)).message();
    assert!(message.starts_with("TLS handshake failed: invalid server name not a name: "));
    assert_eq!(
        failure(tcp_connected("x", Some("bad".to_string()))).message(),
        "TLS handshake failed: invalid server name x: bad"
    );
}

#[test]
fn a_server_without_certificates_is_refused() {
    let e = failure(connect(
        "example.com",
        ConnectEvent::Established(Negotiated {
            protocol_version: None,
            cipher_suite: None,
            chain_der: vec![],
        }),
    ));
    assert_eq!(
        e.message(),
        "TLS handshake failed: server presented no certificates"
    );
}

#[test]
fn what_was_not_negotiated_is_unknown() {
    let step = connect(
        "example.com",
        ConnectEvent::Established(Negotiated {
            protocol_version: None,
            cipher_suite: Some("TLS13_AES_128_GCM_SHA256".to_string()),
            chain_der: vec![vec![1], vec![2]],
        }),
    );
    match step {
        ConnectStep::Connected(info) => {
            assert_eq!(info.protocol_version, "unknown");
            assert_eq!(info.cipher_suite, "TLS13_AES_128_GCM_SHA256");
            assert_eq!(info.chain_der, vec![vec![1], vec![2]]);
            let result = check("example.com", &cfg(TlsVersion::Tls12), Ok(info));
            assert_eq!(result.status, Status::Warn);
        }
        _ => panic!("expected a connection"),
    }
    let result = check(
        "example.com",
        &cfg(TlsVersion::Tls12),
        Err(TlsConnectError::Handshake("x".to_string())),
    );
    assert_eq!(result.status, Status::Fail);
}
