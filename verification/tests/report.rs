use outpost::report::{CheckResult, DomainReport, Report, Status};

#[test]
fn worst_status_prioritizes_fail_over_warn_and_skip() {
    let mut domain = DomainReport::new("example.com");
    domain.push(CheckResult::pass("headers", "ok"));
    domain.push(CheckResult::warn("tls", "expiring soon"));
    domain.push(CheckResult::skip("ct", "network unavailable"));
    assert_eq!(domain.worst_status(), Status::Warn);

    domain.push(CheckResult::fail("dns", "bogus signature"));
    assert_eq!(domain.worst_status(), Status::Fail);
    assert!(domain.has_failure());
}

#[test]
fn report_has_failure_aggregates_across_domains() {
    let mut report = Report::new();
    let mut clean = DomainReport::new("clean.example.com");
    clean.push(CheckResult::pass("headers", "ok"));
    report.push(clean);

    let mut broken = DomainReport::new("broken.example.com");
    broken.push(CheckResult::fail("tls", "expired certificate"));
    report.push(broken);

    assert!(report.has_failure());
}

#[test]
fn worst_status_of_nothing_is_a_skip() {
    assert_eq!(DomainReport::new("example.com").worst_status(), Status::Skip);
}

#[test]
fn worst_status_is_pass_only_when_everything_passed() {
    let mut domain = DomainReport::new("example.com");
    domain.push(CheckResult::pass("dns", "ok"));
    domain.push(CheckResult::pass("tls", "ok"));
    assert_eq!(domain.worst_status(), Status::Pass);
    domain.push(CheckResult::skip("ct", "disabled by config"));
    assert_eq!(domain.worst_status(), Status::Skip);
    assert!(!domain.has_failure());
}

#[test]
fn only_fail_is_failing() {
    assert!(Status::Fail.is_failing());
    assert!(!Status::Warn.is_failing());
    assert!(!Status::Skip.is_failing());
    assert!(!Status::Pass.is_failing());
}

#[test]
fn statuses_have_words_and_marks() {
    assert_eq!(Status::Pass.label(), "PASS");
    assert_eq!(Status::Warn.label(), "WARN");
    assert_eq!(Status::Fail.label(), "FAIL");
    assert_eq!(Status::Skip.label(), "SKIP");
    assert_eq!(Status::Pass.icon(), "\u{2713}");
    assert_eq!(Status::Warn.icon(), "!");
    assert_eq!(Status::Fail.icon(), "\u{2717}");
    assert_eq!(Status::Skip.icon(), "-");
}

#[test]
fn details_are_appended_in_order() {
    let result = CheckResult::fail("tls", "bad")
        .with_detail("one")
        .with_details(vec!["two".to_string(), "three".to_string()]);
    assert_eq!(result.check, "tls");
    assert_eq!(result.status, Status::Fail);
    assert_eq!(result.summary, "bad");
    assert_eq!(result.details, vec!["one", "two", "three"]);
}

#[test]
fn human_report_of_a_failing_domain() {
    let mut report = Report::new();
    let mut domain = DomainReport::new("example.com");
    domain.push(CheckResult::pass("tls", "fine").with_detail("a detail"));
    domain.push(CheckResult::fail("dns", "not signed"));
    domain.push(CheckResult::skip("ct", "disabled by config"));
    domain.push(CheckResult::warn("headers", "look here"));
    report.push(domain);
    assert_eq!(
        report.to_human(),
        "== example.com [FAIL] ==\n  \
         [\u{2713}] PASS     tls: fine\n        - a detail\n  \
         [\u{2717}] FAIL     dns: not signed\n  \
         [-] SKIP     ct: disabled by config\n  \
         [!] WARN     headers: look here\n\n\
         RESULT: FAIL (1 failing, 1 warnings, 1 skipped)\n"
    );
}

#[test]
fn human_report_passes_with_warnings_and_skips() {
    let mut report = Report::default();
    let mut domain = DomainReport::new("a.example");
    domain.push(CheckResult::warn("headers", "w"));
    report.push(domain);
    let mut domain = DomainReport::new("b.example");
    domain.push(CheckResult::skip("ct", "s"));
    report.push(domain);
    assert!(!report.has_failure());
    assert!(report
        .to_human()
        .ends_with("\nRESULT: PASS (1 warnings, 1 skipped)\n"));
}
