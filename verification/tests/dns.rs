use outpost::dns::{check, evaluate, fqdn, DnsEvent, DnsStep, Proof};
use outpost::report::{CheckResult, Status};

#[test]
fn all_secure_passes() {
    let result = evaluate("example.com", &[Proof::Secure, Proof::Secure]);
    assert_eq!(result.status, Status::Pass);
}

#[test]
fn any_bogus_fails_even_if_others_secure() {
    let result = evaluate("example.com", &[Proof::Secure, Proof::Bogus]);
    assert_eq!(result.status, Status::Fail);
    assert!(result.summary.contains("BOGUS"));
}

#[test]
fn all_insecure_fails_as_unsigned() {
    let result = evaluate("example.com", &[Proof::Insecure, Proof::Insecure]);
    assert_eq!(result.status, Status::Fail);
    assert!(result.summary.contains("not DNSSEC-signed"));
}

#[test]
fn indeterminate_skips_rather_than_fails() {
    let result = evaluate("example.com", &[Proof::Indeterminate]);
    assert_eq!(result.status, Status::Skip);
}

#[test]
fn empty_proofs_skips() {
    let result = evaluate("example.com", &[]);
    assert_eq!(result.status, Status::Skip);
    assert_eq!(
        result.summary,
        "no records returned for example.com; cannot assess DNSSEC status"
    );
}

#[test]
fn the_order_of_records_does_not_matter() {
    let a = evaluate(
        "example.com",
        &[Proof::Secure, Proof::Insecure, Proof::Indeterminate],
    );
    let b = evaluate(
        "example.com",
        &[Proof::Indeterminate, Proof::Secure, Proof::Insecure],
    );
    assert_eq!(a.status, Status::Fail);
    assert_eq!(a.status, b.status);
    assert_eq!(a.summary, b.summary);
    assert_eq!(a.details, b.details);
}

#[test]
fn a_mix_of_secure_and_indeterminate_is_skipped() {
    let result = evaluate("example.com", &[Proof::Secure, Proof::Indeterminate]);
    assert_eq!(result.status, Status::Skip);
    assert_eq!(
        result.summary,
        "DNSSEC status for example.com is Indeterminate"
    );
    assert_eq!(result.details.len(), 1);
}

fn done(step: DnsStep) -> CheckResult {
    match step {
        DnsStep::Done(r) => r,
        _ => panic!("the check is not done"),
    }
}

#[test]
fn names_are_rooted() {
    assert_eq!(fqdn("example.com"), "example.com.");
}

#[test]
fn addresses_come_before_name_servers() {
    match check("example.com", DnsEvent::Ready) {
        DnsStep::LookUpAddresses(name) => assert_eq!(name, "example.com."),
        _ => panic!("addresses first"),
    }
    match check(
        "example.com",
        DnsEvent::NoAddresses("no records".to_string()),
    ) {
        DnsStep::LookUpNameServers(name, why) => {
            assert_eq!(name, "example.com.");
            assert_eq!(why, "no records");
        }
        _ => panic!("name servers next"),
    }
}

#[test]
fn either_answer_is_evaluated() {
    let r = done(check(
        "example.com",
        DnsEvent::Addresses(vec![Proof::Secure]),
    ));
    assert_eq!(r.status, Status::Pass);
    assert_eq!(r.summary, "DNSSEC chain validated (Secure) for example.com");
    let r = done(check(
        "example.com",
        DnsEvent::NameServers(vec![Proof::Bogus]),
    ));
    assert_eq!(r.status, Status::Fail);
}

#[test]
fn lookups_that_fail_skip() {
    let r = done(check(
        "example.com",
        DnsEvent::NoNameServers("refused".to_string(), "timed out".to_string()),
    ));
    assert_eq!(r.status, Status::Skip);
    assert_eq!(
        r.summary,
        "DNS resolution failed for example.com (A/AAAA: refused; NS: timed out)"
    );
    let r = done(check(
        "example.com",
        DnsEvent::NoResolver("x".to_string()),
    ));
    assert_eq!(r.status, Status::Skip);
    assert_eq!(
        r.summary,
        "could not initialize DNSSEC-validating resolver: failed to build resolver: x"
    );
}
