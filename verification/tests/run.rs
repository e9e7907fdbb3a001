use outpost::config::{Config, ConfigError, DomainEntry, EffectiveDomain, TlsVersion};
use outpost::config::{ChecksOverride, CtOverride, HeadersOverride, TlsOverride};
use outpost::ct::{fingerprint_sha256, BaselineState, CtFetch};
use outpost::dns::{DnsEvent, Proof};
use outpost::headers::HeaderFetch;
use outpost::report::Status;
use outpost::run::{
    config_trouble, default_domain, domain_settings, exit_code, DomainRun, RunEvent, RunStep,
    state_trouble, ScanOptions, Stage, TROUBLE,
};
use outpost::tls::{ConnectEvent, Negotiated};
use std::collections::BTreeSet;

fn options() -> ScanOptions {
    ScanOptions {
        no_dns: false,
        no_tls: false,
        no_ct: false,
        no_headers: false,
        tls_min_version: None,
        expiry_warning_days: None,
    }
}

fn config(names: &[&str]) -> Config {
    let mut cfg = Config::default();
    for (i, name) in names.iter().enumerate() {
        cfg.domains.push(DomainEntry {
            name: name.to_string(),
            checks: ChecksOverride::default(),
            tls: TlsOverride {
                expiry_warning_days: Some(100 + i as i64),
                ..TlsOverride::default()
            },
            headers: HeadersOverride::default(),
            ct: CtOverride::default(),
        });
    }
    cfg
}

#[test]
fn settings_come_from_the_configuration_or_the_defaults() {
    let cfg = config(&["a.example", "b.example", "b.example"]);
    assert_eq!(
        domain_settings(Some(&cfg), "b.example").tls.expiry_warning_days,
        101
    );
    let other = domain_settings(Some(&cfg), "c.example");
    assert_eq!(other.name, "c.example");
    assert_eq!(other.tls.expiry_warning_days, 14);
    let alone = domain_settings(None, "a.example");
    assert_eq!(alone.name, "a.example");
    assert_eq!(alone.tls.expiry_warning_days, 14);
}

#[test]
fn scan_options_change_what_they_name() {
    let mut d = default_domain("a.example");
    options().apply(&mut d);
    assert!(d.checks.dns && d.checks.tls && d.checks.ct && d.checks.headers);
    assert_eq!(d.tls.min_version, TlsVersion::Tls12);

    let o = ScanOptions {
        no_dns: true,
        no_ct: true,
        tls_min_version: Some(TlsVersion::Tls13),
        expiry_warning_days: Some(3),
        ..options()
    };
    o.apply(&mut d);
    assert!(!d.checks.dns && d.checks.tls && !d.checks.ct && d.checks.headers);
    assert_eq!(d.tls.min_version, TlsVersion::Tls13);
    assert_eq!(d.tls.expiry_warning_days, 3);

    options().apply(&mut d);
    assert!(!d.checks.dns && !d.checks.ct);

    let o = ScanOptions {
        no_tls: true,
        no_headers: true,
        ..options()
    };
    o.apply(&mut d);
    assert!(!d.checks.tls && !d.checks.headers);
}

#[test]
fn nothing_is_done_where_nothing_is_enabled() {
    let mut d = default_domain("a.example");
    d.checks.dns = false;
    d.checks.tls = false;
    d.checks.ct = false;
    d.checks.headers = false;
    let (run, step) = DomainRun::begin(&d);
    assert!(matches!(step, RunStep::Done));
    assert_eq!(run.stage, Stage::Done);
    assert_eq!(run.report.domain, "a.example");
    let names: Vec<&str> = run.report.results.iter().map(|r| r.check.as_str()).collect();
    assert_eq!(names, vec!["tls", "dns", "headers", "ct"]);
    for r in &run.report.results {
        assert_eq!(r.status, Status::Skip);
        assert_eq!(r.summary, "disabled by config");
    }
}

fn negotiated() -> RunEvent {
    RunEvent::Tls(ConnectEvent::Established(Negotiated {
        protocol_version: Some("TLSv1_3".to_string()),
        cipher_suite: None,
        chain_der: vec![b"leaf".to_vec(), b"issuer".to_vec()],
    }))
}

fn run_to_the_logs(d: &EffectiveDomain, state: &mut BaselineState, tls: RunEvent) -> DomainRun {
    let (mut run, step) = DomainRun::begin(d);
    match step {
        RunStep::OpenConnection(host) => assert_eq!(host, "a.example"),
        _ => panic!("the connection comes first"),
    }
    match run.step(d, RunEvent::Tls(ConnectEvent::TcpConnected), state) {
        RunStep::Handshake(name) => assert_eq!(name, "a.example"),
        _ => panic!("the handshake comes next"),
    }
    assert!(matches!(run.step(d, tls, state), RunStep::SetUpResolver));
    match run.step(d, RunEvent::Dns(DnsEvent::Ready), state) {
        RunStep::LookUpAddresses(name) => assert_eq!(name, "a.example."),
        _ => panic!("addresses come next"),
    }
    match run.step(
        d,
        RunEvent::Dns(DnsEvent::NoAddresses("none".to_string())),
        state,
    ) {
        RunStep::LookUpNameServers(name, why) => {
            assert_eq!(name, "a.example.");
            assert_eq!(why, "none");
        }
        _ => panic!("name servers come next"),
    }
    match run.step(
        d,
        RunEvent::Dns(DnsEvent::NameServers(vec![Proof::Secure])),
        state,
    ) {
        RunStep::FetchPage(url, seconds) => {
            assert_eq!(url, "https://a.example/");
            assert_eq!(seconds, 10);
        }
        _ => panic!("the page comes next"),
    }
    match run.step(
        d,
        RunEvent::Headers(HeaderFetch::Unreachable("refused".to_string())),
        state,
    ) {
        RunStep::QueryLogs(url, seconds) => {
            assert_eq!(url, "https://crt.sh/?q=a.example&output=json");
            assert_eq!(seconds, 15);
        }
        _ => panic!("the logs come last"),
    }
    run
}

#[test]
fn a_run_goes_through_the_checks_in_order() {
    let mut d = default_domain("a.example");
    d.ct.pinned_fingerprints = vec![fingerprint_sha256(b"leaf")];
    let mut state = BaselineState::default();
    let mut run = run_to_the_logs(&d, &mut state, negotiated());
    assert_eq!(run.live_leaf, Some(b"leaf".to_vec()));
    let step = run.step(&d, RunEvent::Ct(CtFetch::Answer(200, Ok(vec![]))), &mut state);
    assert!(matches!(step, RunStep::Done));
    let statuses: Vec<Status> = run.report.results.iter().map(|r| r.status).collect();
    assert_eq!(
        statuses,
        vec![Status::Warn, Status::Pass, Status::Skip, Status::Pass]
    );
    assert!(run.report.results[3].details[1].ends_with(" matches a pinned fingerprint"));
    assert_eq!(state.baselines().len(), 1);
}

#[test]
fn without_a_live_certificate_pins_do_not_pass() {
    let mut d = default_domain("a.example");
    d.ct.pinned_fingerprints = vec![fingerprint_sha256(b"leaf")];
    let mut state = BaselineState::default();
    let failed = RunEvent::Tls(ConnectEvent::HandshakeFailed("x".to_string()));
    let mut run = run_to_the_logs(&d, &mut state, failed);
    assert_eq!(run.live_leaf, None);
    assert_eq!(run.report.results[0].status, Status::Fail);
    run.step(&d, RunEvent::Ct(CtFetch::Answer(200, Ok(vec![]))), &mut state);
    assert_eq!(run.report.results[3].status, Status::Warn);
    assert!(run.report.has_failure());
}

#[test]
fn disabled_checks_are_passed_on_the_way() {
    let mut d = default_domain("a.example");
    d.checks.dns = false;
    d.checks.ct = false;
    let mut state = BaselineState::default();
    state.record("a.example", BTreeSet::from([1]));
    let (mut run, step) = DomainRun::begin(&d);
    assert!(matches!(step, RunStep::OpenConnection(_)));
    let step = run.step(&d, RunEvent::Tls(ConnectEvent::TcpTimedOut), &mut state);
    assert!(matches!(step, RunStep::FetchPage(_, _)));
    let step = run.step(
        &d,
        RunEvent::Headers(HeaderFetch::NoClient("x".to_string())),
        &mut state,
    );
    assert!(matches!(step, RunStep::Done));
    assert_eq!(run.report.results.len(), 4);
    assert_eq!(run.report.results[1].summary, "disabled by config");
    assert_eq!(run.report.results[3].summary, "disabled by config");
    assert_eq!(state.known_ids("a.example"), BTreeSet::from([1]));
}

#[test]
fn an_event_of_another_check_changes_nothing() {
    let d = default_domain("a.example");
    let mut state = BaselineState::default();
    let (mut run, _) = DomainRun::begin(&d);
    let step = run.step(&d, RunEvent::Ct(CtFetch::Answer(200, Ok(vec![]))), &mut state);
    assert!(matches!(step, RunStep::OpenConnection(_)));
    assert_eq!(run.stage, Stage::Tls);
    assert!(run.report.results.is_empty());
    assert!(state.baselines().is_empty());
}

#[test]
fn exit_codes() {
    assert_eq!(exit_code(false), 0);
    assert_eq!(exit_code(true), 1);
    assert_eq!(TROUBLE, 2);
    assert_eq!(
        state_trouble("s.json", "disk full"),
        "warning: could not persist CT baseline state to s.json: disk full"
    );
    assert_eq!(
        config_trouble("a.toml", &ConfigError::NoDomains("a.toml".to_string())),
        "error loading config a.toml: config file a.toml defines no [[domains]] entries"
    );
}
