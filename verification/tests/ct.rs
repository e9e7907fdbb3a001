use outpost::clock::Moment;
use outpost::config::CtConfig;
use outpost::ct::{
    check, check_at, evaluate, fetch_entries, fingerprint_sha256, is_success, query_url, show_status,
    BaselineState, CrtShEntry, CtFetch, DomainBaseline, StateFile,
};
use outpost::report::Status;
use serde_json::Value;
use std::collections::BTreeSet;

fn cfg(allowed: Vec<&str>) -> CtConfig {
    CtConfig {
        allowed_issuers: allowed.into_iter().map(String::from).collect(),
        pinned_fingerprints: Vec::new(),
        fail_on_unknown_issuer: true,
        timeout_seconds: 15,
        crtsh_url: "https://crt.sh".to_string(),
    }
}

fn entry(id: i64, issuer: &str) -> CrtShEntry {
    CrtShEntry {
        id,
        issuer_name: issuer.to_string(),
        common_name: "example.com".to_string(),
        not_before: "2026-01-01T00:00:00".to_string(),
        not_after: "2026-04-01T00:00:00".to_string(),
    }
}

fn answer(entries: Vec<CrtShEntry>) -> CtFetch {
    CtFetch::Answer(200, Ok(entries))
}

fn moment(seconds: i64) -> Moment {
    Moment { seconds, nanos: 0 }
}

#[test]
fn first_run_establishes_baseline_without_failing() {
    let entries = vec![entry(1, "C=US, O=Let's Encrypt, CN=R3")];
    let known = BTreeSet::new();
    let result = evaluate(
        "example.com",
        &entries,
        &known,
        &cfg(vec!["Let's Encrypt"]),
        None,
    );
    assert_eq!(result.status, Status::Pass);
}

#[test]
fn new_entry_from_allowed_issuer_passes() {
    let entries = vec![
        entry(1, "C=US, O=Let's Encrypt, CN=R3"),
        entry(2, "C=US, O=Let's Encrypt, CN=R3"),
    ];
    let mut known = BTreeSet::new();
    known.insert(1);
    let result = evaluate(
        "example.com",
        &entries,
        &known,
        &cfg(vec!["Let's Encrypt"]),
        None,
    );
    assert_eq!(result.status, Status::Pass);
}

#[test]
fn new_entry_from_unknown_issuer_fails() {
    let entries = vec![
        entry(1, "C=US, O=Let's Encrypt, CN=R3"),
        entry(2, "C=CN, O=Suspicious CA, CN=X1"),
    ];
    let mut known = BTreeSet::new();
    known.insert(1);
    let result = evaluate(
        "example.com",
        &entries,
        &known,
        &cfg(vec!["Let's Encrypt"]),
        None,
    );
    assert_eq!(result.status, Status::Fail);
    assert!(result
        .details
        .iter()
        .any(|d| d.contains("UNRECOGNIZED ISSUER")));
}

#[test]
fn no_allowlist_configured_warns_instead_of_failing_or_passing_blindly() {
    let entries = vec![
        entry(1, "C=US, O=Let's Encrypt, CN=R3"),
        entry(2, "C=CN, O=Suspicious CA, CN=X1"),
    ];
    let mut known = BTreeSet::new();
    known.insert(1);
    let result = evaluate("example.com", &entries, &known, &cfg(vec![]), None);
    assert_eq!(result.status, Status::Warn);
}

#[test]
fn pinned_fingerprint_mismatch_fails() {
    let entries = vec![entry(1, "C=US, O=Let's Encrypt, CN=R3")];
    let mut known = BTreeSet::new();
    known.insert(1);
    let mut c = cfg(vec!["Let's Encrypt"]);
    c.pinned_fingerprints = vec!["deadbeef".to_string()];
    let result = evaluate("example.com", &entries, &known, &c, Some("cafebabe"));
    assert_eq!(result.status, Status::Fail);
}

#[test]
fn pinned_fingerprint_match_passes() {
    let entries = vec![entry(1, "C=US, O=Let's Encrypt, CN=R3")];
    let mut known = BTreeSet::new();
    known.insert(1);
    let mut c = cfg(vec!["Let's Encrypt"]);
    c.pinned_fingerprints = vec!["cafebabe".to_string()];
    let result = evaluate("example.com", &entries, &known, &c, Some("cafebabe"));
    assert_eq!(result.status, Status::Pass);
}

#[test]
fn fingerprint_is_deterministic_sha256_hex() {
    let fp1 = fingerprint_sha256(b"hello");
    let fp2 = fingerprint_sha256(b"hello");
    assert_eq!(fp1, fp2);
    assert_eq!(fp1.len(), 64);
}

#[test]
fn fingerprint_of_known_bytes() {
    assert_eq!(
        fingerprint_sha256(b"hello"),
        "2cf24dba5fb0a30e26e83b2ac5b9e29e1b161e5c1fa7425e73043362938b9824"
    );
    assert_ne!(fingerprint_sha256(b"hello"), fingerprint_sha256(b"world"));
}

fn to_json(state: &BaselineState) -> String {
    let mut domains = serde_json::Map::new();
    for b in state.baselines() {
        let ids: Vec<Value> = b.known_crtsh_ids.iter().map(|id| Value::from(*id)).collect();
        let mut baseline = serde_json::Map::new();
        baseline.insert("known_crtsh_ids".to_string(), Value::Array(ids));
        domains.insert(b.domain.clone(), Value::Object(baseline));
    }
    let mut root = serde_json::Map::new();
    root.insert("domains".to_string(), Value::Object(domains));
    serde_json::to_string_pretty(&Value::Object(root)).unwrap()
}

fn from_json(raw: &str) -> StateFile {
    let root: Value = match serde_json::from_str(raw) {
        Ok(v) => v,
        Err(_) => return StateFile::Invalid,
    };
    let mut baselines = Vec::new();
    for (domain, b) in root["domains"].as_object().unwrap() {
        baselines.push(DomainBaseline {
            domain: domain.clone(),
            known_crtsh_ids: b["known_crtsh_ids"]
                .as_array()
                .unwrap()
                .iter()
                .map(|v| v.as_i64().unwrap())
                .collect(),
            last_checked: None,
        });
    }
    StateFile::Baselines(baselines)
}

#[test]
fn baseline_state_roundtrips_through_json() {
    let mut state = BaselineState::default();
    let mut ids = BTreeSet::new();
    ids.insert(1);
    ids.insert(2);
    state.record("example.com", ids.clone());
    let raw = to_json(&state);

    let loaded = BaselineState::load(from_json(&raw));
    assert_eq!(loaded.known_ids("example.com"), ids);
}

#[test]
fn a_broken_state_file_counts_as_empty() {
    assert!(BaselineState::load(StateFile::Unreadable).baselines().is_empty());
    assert!(BaselineState::load(from_json("not json")).baselines().is_empty());
    assert!(BaselineState::default().known_ids("example.com").is_empty());
}

#[test]
fn records_replace_and_stay_apart() {
    let mut state = BaselineState::default();
    state.record_at("a.example", BTreeSet::from([1]), moment(10));
    state.record_at("b.example", BTreeSet::from([2]), moment(20));
    state.record_at("a.example", BTreeSet::from([3, 4]), moment(30));
    assert_eq!(state.known_ids("a.example"), BTreeSet::from([3, 4]));
    assert_eq!(state.known_ids("b.example"), BTreeSet::from([2]));
    assert_eq!(state.baselines().len(), 2);
    assert_eq!(state.baselines()[0].last_checked, Some(moment(30)));
    let copy = state.clone();
    assert_eq!(copy.known_ids("a.example"), BTreeSet::from([3, 4]));
    assert_eq!(copy.baselines().len(), 2);
}

#[test]
fn of_repeated_baselines_the_last_counts() {
    let b = |id: i64| DomainBaseline {
        domain: "a.example".to_string(),
        known_crtsh_ids: BTreeSet::from([id]),
        last_checked: None,
    };
    let state = BaselineState::load(StateFile::Baselines(vec![b(1), b(2)]));
    assert_eq!(state.baselines().len(), 1);
    assert_eq!(state.known_ids("a.example"), BTreeSet::from([2]));
}

#[test]
fn saved_baselines_load_back_in_any_order() {
    let mut state = BaselineState::default();
    state.record_at("b.example", BTreeSet::from([2]), moment(20));
    state.record_at("a.example", BTreeSet::from([1, 3]), moment(10));
    let mut saved: Vec<DomainBaseline> = state.baselines().to_vec();
    saved.reverse();
    let loaded = BaselineState::load(StateFile::Baselines(saved));
    for domain in ["a.example", "b.example", "c.example"] {
        assert_eq!(loaded.known_ids(domain), state.known_ids(domain));
    }
    assert_eq!(loaded.baselines()[0].last_checked, Some(moment(10)));
}

#[test]
fn a_record_has_the_current_time() {
    let mut state = BaselineState::default();
    state.record("a.example", BTreeSet::from([1]));
    let at = state.baselines()[0].last_checked.unwrap();
    assert!(at.seconds > 1_700_000_000);
    assert!(at.nanos < 1_000_000_000);
}

#[test]
fn the_query_url_has_one_slash() {
    let mut c = cfg(vec![]);
    assert_eq!(
        query_url("example.com", &c),
        "https://crt.sh/?q=example.com&output=json"
    );
    c.crtsh_url = "https://crt.sh///".to_string();
    assert_eq!(
        query_url("example.com", &c),
        "https://crt.sh/?q=example.com&output=json"
    );
}

#[test]
fn success_is_a_status_in_the_two_hundreds() {
    assert!(is_success(200));
    assert!(is_success(299));
    assert!(!is_success(199));
    assert!(!is_success(300));
    assert!(!is_success(503));
}

#[test]
fn unanswered_queries_say_why() {
    let message = |f: CtFetch| fetch_entries(f).unwrap_err();
    assert_eq!(message(CtFetch::NoClient("no client".to_string())), "no client");
    assert_eq!(
        message(CtFetch::Unreachable("refused".to_string())),
        "request to crt.sh failed: refused"
    );
    assert_eq!(
        message(CtFetch::Answer(503, Ok(vec![]))),
        "crt.sh returned HTTP 503 Service Unavailable"
    );
    assert_eq!(
        message(CtFetch::Answer(200, Err("expected value".to_string()))),
        "could not parse crt.sh response: expected value"
    );
    assert_eq!(
        fetch_entries(answer(vec![entry(7, "x")])).unwrap()[0].id,
        7
    );
}

#[test]
fn statuses_are_shown_with_their_phrase() {
    assert_eq!(show_status(404, Some("Not Found")), "404 Not Found");
    assert_eq!(show_status(599, None), "599 <unknown status code>");
    assert_eq!(
        fetch_entries(CtFetch::Answer(599, Ok(vec![]))).unwrap_err(),
        "crt.sh returned HTTP 599 <unknown status code>"
    );
    assert_eq!(
        fetch_entries(CtFetch::Answer(429, Err("x".to_string()))).unwrap_err(),
        "crt.sh returned HTTP 429 Too Many Requests"
    );
}

#[test]
fn ct_check_establishes_baseline_on_first_run_without_failing() {
    let c = cfg(vec!["Let's Encrypt"]);
    let mut state = BaselineState::default();
    let fetch = || answer(vec![entry(1, "C=US, O=Let's Encrypt, CN=R3")]);
    let result_first = check("example.com", &c, &mut state, None, fetch());
    assert_eq!(result_first.status, Status::Pass);

    let result_second = check("example.com", &c, &mut state, None, fetch());
    assert_eq!(result_second.status, Status::Pass);
    assert!(result_second
        .details
        .iter()
        .any(|d| d.contains("no new CT log entries")));
}

#[test]
fn ct_check_skips_when_crtsh_is_unreachable() {
    let c = cfg(vec!["Let's Encrypt"]);
    let mut state = BaselineState::default();
    state.record("example.com", BTreeSet::from([1]));
    let result = check(
        "example.com",
        &c,
        &mut state,
        None,
        CtFetch::Unreachable("connection refused".to_string()),
    );
    assert_eq!(result.status, Status::Skip);
    assert_eq!(
        result.summary,
        "could not query CT logs for example.com: request to crt.sh failed: connection refused"
    );
    assert_eq!(state.known_ids("example.com"), BTreeSet::from([1]));
}

#[test]
fn ct_check_flags_unrecognized_issuer_against_a_seeded_baseline() {
    let c = cfg(vec!["Let's Encrypt"]);
    let mut state = BaselineState::default();
    let seed_result = check(
        "example.com",
        &c,
        &mut state,
        None,
        answer(vec![entry(1, "C=US, O=Let's Encrypt, CN=R3")]),
    );
    assert_eq!(seed_result.status, Status::Pass);

    let result = check(
        "example.com",
        &c,
        &mut state,
        None,
        answer(vec![
            entry(1, "C=US, O=Let's Encrypt, CN=R3"),
            entry(2, "C=XX, O=Totally Legit CA, CN=Definitely Real"),
        ]),
    );
    assert_eq!(result.status, Status::Fail);
    assert!(result
        .details
        .iter()
        .any(|d| d.contains("UNRECOGNIZED ISSUER")));
}

#[test]
fn a_partial_answer_never_shrinks_the_baseline() {
    let c = cfg(vec!["Let's Encrypt"]);
    let mut state = BaselineState::default();
    state.record("example.com", BTreeSet::from([1, 2, 3]));
    state.record("other.example", BTreeSet::from([9]));
    let result = check_at(
        "example.com",
        &c,
        &mut state,
        None,
        answer(vec![entry(4, "O=Let's Encrypt")]),
        moment(5),
    );
    assert_eq!(result.status, Status::Pass);
    assert_eq!(state.known_ids("example.com"), BTreeSet::from([1, 2, 3, 4]));
    assert_eq!(state.known_ids("other.example"), BTreeSet::from([9]));
    assert_eq!(state.baselines()[0].last_checked, Some(moment(5)));
}

#[test]
fn every_entry_has_its_detail() {
    let known = BTreeSet::from([1]);
    let entries = vec![
        entry(1, "O=Old"),
        entry(2, "O=LET'S encrypt"),
        entry(-3, "O=Nobody"),
    ];
    let mut c = cfg(vec!["let's Encrypt"]);
    let result = evaluate("example.com", &entries, &known, &c, None);
    assert_eq!(
        result.summary,
        "example.com: 3 CT log entries known, 2 new"
    );
    assert_eq!(
        result.details,
        vec![
            "2 new CT log entry(ies) since last run",
            "new cert from trusted issuer: id=2 cn=example.com issuer=O=LET'S encrypt",
            "UNRECOGNIZED ISSUER: id=-3 cn=example.com issuer='O=Nobody' is not in the allowed_issuers list -- possible unauthorized certificate issuance",
        ]
    );

    c.fail_on_unknown_issuer = false;
    let result = evaluate("example.com", &entries, &known, &c, None);
    assert_eq!(result.status, Status::Warn);
    assert_eq!(
        result.details[2],
        "unrecognized issuer (not failing, fail_on_unknown_issuer=false): id=-3 cn=example.com issuer='O=Nobody'"
    );

    let result = evaluate("example.com", &entries, &known, &cfg(vec![]), None);
    assert_eq!(
        result.details[1],
        "no ct.allowed_issuers configured; cannot distinguish an authorized renewal from an unauthorized issuance -- listing new entries for manual review"
    );
    assert_eq!(
        result.details[2],
        "  new: id=2 cn=example.com issuer=O=LET'S encrypt not_before=2026-01-01T00:00:00 not_after=2026-04-01T00:00:00"
    );
    assert_eq!(result.details.len(), 4);
}

#[test]
fn baselines_are_counted() {
    let c = cfg(vec![]);
    let result = evaluate("example.com", &[entry(5, "x")], &BTreeSet::new(), &c, None);
    assert_eq!(
        result.details,
        vec!["no prior baseline for example.com; recording 1 known CT log entries as the new baseline"]
    );
    let known = BTreeSet::from([1, 5, 7]);
    let result = evaluate("example.com", &[entry(5, "x")], &known, &c, None);
    assert_eq!(
        result.details,
        vec!["no new CT log entries since last run (3 known)"]
    );
    assert_eq!(
        result.summary,
        "example.com: 3 CT log entries known, 0 new"
    );
}

#[test]
fn issuers_beyond_ascii_are_compared_in_lower_case() {
    let known = BTreeSet::from([1]);
    let entries = vec![entry(2, "O=Électricité CA")];
    let result = evaluate(
        "example.com",
        &entries,
        &known,
        &cfg(vec!["éLECTRICITÉ"]),
        None,
    );
    assert_eq!(result.status, Status::Pass);
    let entries = vec![entry(2, "O=éLECTRICITÉ ca")];
    let result = evaluate(
        "example.com",
        &entries,
        &known,
        &cfg(vec!["Électricité"]),
        None,
    );
    assert_eq!(result.status, Status::Pass);
}

#[test]
fn pins_are_held_against_the_live_certificate() {
    let mut c = cfg(vec![]);
    c.pinned_fingerprints = vec![fingerprint_sha256(b"leaf").to_uppercase()];
    let mut state = BaselineState::default();
    let fetch = || answer(vec![]);
    let result = check("example.com", &c, &mut state, Some(b"leaf"), fetch());
    assert_eq!(result.status, Status::Pass);
    assert!(result.details[1].ends_with(" matches a pinned fingerprint"));

    let result = check("example.com", &c, &mut state, Some(b"other"), fetch());
    assert_eq!(result.status, Status::Fail);
    assert_eq!(
        result.details[1],
        format!(
            "live certificate fingerprint {} does NOT match any pinned_fingerprints entry",
            fingerprint_sha256(b"other")
        )
    );

    let result = check("example.com", &c, &mut state, None, fetch());
    assert_eq!(result.status, Status::Warn);
    assert!(result.details[1].starts_with("pinned_fingerprints configured but no live leaf"));
}
