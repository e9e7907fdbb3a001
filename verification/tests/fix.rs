use outpost::config::HeadersConfig;
use outpost::fix::{file_read, page_fetched, plan, FixStep, HeadersFileRead};
use outpost::headers::{HeaderFetch, HeaderFix};
use reqwest::header::{HeaderMap, HeaderValue};

fn fix(header: &str, value: &str) -> HeaderFix {
    HeaderFix {
        header: header.to_string(),
        value: value.to_string(),
        reason: "test".to_string(),
    }
}

#[test]
fn plan_treats_missing_file_as_empty() {
    let plan = plan(
        "_headers",
        HeadersFileRead::NotFound,
        &[fix("X-Frame-Options", "DENY")],
    )
    .unwrap();
    assert_eq!(plan.before, "");
    assert!(plan.after.contains("X-Frame-Options: DENY"));
    assert!(!plan.is_noop());
}

#[test]
fn plan_reads_existing_file() {
    let plan = plan(
        "_headers",
        HeadersFileRead::Contents("/*\n  X-Content-Type-Options: nosniff\n".to_string()),
        &[fix("X-Frame-Options", "DENY")],
    )
    .unwrap();
    assert!(plan.before.contains("X-Content-Type-Options"));
    assert!(plan.after.contains("X-Content-Type-Options"));
    assert!(plan.after.contains("X-Frame-Options: DENY"));
}

#[test]
fn plan_is_a_noop_when_the_file_already_has_the_suggested_fixes() {
    let plan = plan(
        "_headers",
        HeadersFileRead::Contents("/*\n  X-Frame-Options: DENY\n".to_string()),
        &[fix("X-Frame-Options", "DENY")],
    )
    .unwrap();
    assert!(!plan.fixes.is_empty());
    assert!(plan.is_noop());
}

#[test]
fn plan_with_no_fixes_is_a_noop() {
    let plan = plan(
        "_headers",
        HeadersFileRead::Contents("/*\n  X-Content-Type-Options: nosniff\n".to_string()),
        &[],
    )
    .unwrap();
    assert!(plan.is_noop());
}

#[test]
fn a_plan_in_place_plans_no_further_change() {
    let fixes = [fix("X-Frame-Options", "DENY"), fix("Referrer-Policy", "no-referrer")];
    let first = plan(
        "_headers",
        HeadersFileRead::Contents("/a\n  X: 1\n".to_string()),
        &fixes,
    )
    .unwrap();
    assert!(!first.is_noop());
    let second = plan("_headers", HeadersFileRead::Contents(first.after), &fixes).unwrap();
    assert!(second.is_noop());
}

#[test]
fn a_file_that_cannot_be_read_is_an_error() {
    let outcome = plan(
        "_headers",
        HeadersFileRead::Failed("permission denied".to_string()),
        &[],
    );
    assert_eq!(outcome.err(), Some("permission denied".to_string()));
}

#[test]
fn a_plan_describes_its_changes() {
    let plan = plan(
        "site/_headers",
        HeadersFileRead::NotFound,
        &[fix("X-Frame-Options", "DENY")],
    )
    .unwrap();
    assert_eq!(
        plan.describe("example.com"),
        "Proposed changes to site/_headers:\n\n  + X-Frame-Options: DENY\n      test\n\n\
         --- before ---\n\n--- after ---\n/*\n  X-Frame-Options: DENY\n\n\n\
         No files were changed -- outpost fix only ever prints what to change. \
         Apply it yourself and commit it however you normally would.\n"
    );
}

#[test]
fn a_plan_without_changes_says_so() {
    let plan = plan(
        "_headers",
        HeadersFileRead::Contents("/*\n  X-Frame-Options: DENY\n".to_string()),
        &[fix("X-Frame-Options", "DENY")],
    )
    .unwrap();
    assert_eq!(
        plan.describe("example.com"),
        "_headers already has these headers -- nothing to change.\n\
         (The live site at example.com doesn't have them yet -- this just means an \
         earlier run already wrote the fix locally. If a pull request is still \
         open from that run, that's the one to merge.)\n"
    );
}

fn good_headers() -> HeaderMap {
    let mut h = HeaderMap::new();
    h.insert(
        "strict-transport-security",
        HeaderValue::from_static("max-age=31536000; includeSubDomains"),
    );
    h.insert(
        "x-content-type-options",
        HeaderValue::from_static("nosniff"),
    );
    h.insert("referrer-policy", HeaderValue::from_static("no-referrer"));
    h.insert("x-frame-options", HeaderValue::from_static("DENY"));
    h
}

#[test]
fn a_good_page_needs_no_file() {
    let step = page_fetched(
        "example.com",
        &HeadersConfig::default(),
        &HeaderFetch::Response(good_headers()),
    );
    match step {
        FixStep::Print(s) => {
            assert_eq!(s, "No fixable header issues found for example.com.\n")
        }
        _ => panic!("nothing to fix"),
    }
}

#[test]
fn findings_ask_for_the_file_and_end_in_a_plan() {
    let mut headers = good_headers();
    headers.remove("x-frame-options");
    let step = page_fetched(
        "example.com",
        &HeadersConfig::default(),
        &HeaderFetch::Response(headers),
    );
    let fixes = match step {
        FixStep::ReadFile(fixes) => fixes,
        _ => panic!("one finding"),
    };
    assert_eq!(fixes.len(), 1);
    match file_read("example.com", "_headers", HeadersFileRead::NotFound, &fixes) {
        FixStep::Print(s) => assert!(s.contains("+ X-Frame-Options: DENY")),
        _ => panic!("a plan"),
    }
    match file_read(
        "example.com",
        "_headers",
        HeadersFileRead::Failed("denied".to_string()),
        &fixes,
    ) {
        FixStep::Trouble(s) => assert_eq!(s, "could not read _headers: denied"),
        _ => panic!("trouble"),
    }
}

#[test]
fn a_page_that_cannot_be_fetched_is_trouble() {
    match page_fetched(
        "example.com",
        &HeadersConfig::default(),
        &HeaderFetch::Unreachable("refused".to_string()),
    ) {
        FixStep::Trouble(s) => {
            assert_eq!(s, "could not fetch https://example.com/: refused")
        }
        _ => panic!("trouble"),
    }
    match page_fetched(
        "example.com",
        &HeadersConfig::default(),
        &HeaderFetch::NoClient("none".to_string()),
    ) {
        FixStep::Trouble(s) => assert_eq!(s, "could not build HTTP client: none"),
        _ => panic!("trouble"),
    }
}
