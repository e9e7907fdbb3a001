use outpost::config::HeadersConfig;
use outpost::headers::{
    check, check_url, evaluate, evaluate_hsts, get_header, policy_has_directive, site_url, suggest_fixes,
    HeaderFetch,
};
use outpost::headers_file::apply_fixes;
use outpost::report::Status;
use reqwest::header::{HeaderMap, HeaderName, HeaderValue};

fn cfg() -> HeadersConfig {
    HeadersConfig {
        require: vec![
            "strict-transport-security".to_string(),
            "x-content-type-options".to_string(),
            "referrer-policy".to_string(),
        ],
        hsts_min_max_age_seconds: 15_552_000,
        hsts_require_include_subdomains: true,
        hsts_require_preload: false,
        require_frame_protection: true,
        timeout_seconds: 10,
    }
}

fn good_headers() -> HeaderMap {
    let mut h = HeaderMap::new();
    h.insert(
        "strict-transport-security",
        HeaderValue::from_static("max-age=31536000; includeSubDomains; preload"),
    );
    h.insert(
        "x-content-type-options",
        HeaderValue::from_static("nosniff"),
    );
    h.insert("referrer-policy", HeaderValue::from_static("no-referrer"));
    h.insert("x-frame-options", HeaderValue::from_static("DENY"));
    h.insert(
        "content-security-policy",
        HeaderValue::from_static("default-src 'self'; frame-ancestors 'none'"),
    );
    h
}

#[test]
fn passes_with_full_header_set() {
    let result = evaluate(&good_headers(), &cfg());
    assert_eq!(result.status, Status::Pass);
}

#[test]
fn fails_when_hsts_missing() {
    let mut headers = good_headers();
    headers.remove("strict-transport-security");
    let result = evaluate(&headers, &cfg());
    assert_eq!(result.status, Status::Fail);
    assert!(result
        .details
        .iter()
        .any(|d| d.contains("strict-transport-security")));
}

#[test]
fn fails_when_hsts_max_age_too_low() {
    let mut headers = good_headers();
    headers.insert(
        "strict-transport-security",
        HeaderValue::from_static("max-age=60"),
    );
    let result = evaluate(&headers, &cfg());
    assert_eq!(result.status, Status::Fail);
    assert!(result
        .details
        .iter()
        .any(|d| d.contains("below the required minimum")));
}

#[test]
fn fails_when_no_clickjacking_protection() {
    let mut headers = good_headers();
    headers.remove("x-frame-options");
    headers.remove("content-security-policy");
    let result = evaluate(&headers, &cfg());
    assert_eq!(result.status, Status::Fail);
    assert!(result.details.iter().any(|d| d.contains("clickjacking")));
}

#[test]
fn frame_ancestors_in_csp_satisfies_frame_protection_without_xfo() {
    let mut headers = good_headers();
    headers.remove("x-frame-options");
    let result = evaluate(&headers, &cfg());
    assert_eq!(result.status, Status::Pass);
}

#[test]
fn warns_on_unsafe_url_referrer_policy() {
    let mut headers = good_headers();
    headers.insert("referrer-policy", HeaderValue::from_static("unsafe-url"));
    let result = evaluate(&headers, &cfg());
    assert_eq!(result.status, Status::Warn);
}

#[test]
fn fails_on_non_nosniff_content_type_options() {
    let mut headers = good_headers();
    headers.insert("x-content-type-options", HeaderValue::from_static("sniff"));
    let result = evaluate(&headers, &cfg());
    assert_eq!(result.status, Status::Fail);
}

#[test]
fn headers_check_fails_against_mock_server_missing_required_headers() {
    let mut headers = HeaderMap::new();
    headers.insert("content-type", HeaderValue::from_static("text/html"));
    let cfg = HeadersConfig::default();
    let result = check_url(
        "http://127.0.0.1:8080/",
        &cfg,
        &HeaderFetch::Response(headers),
    );
    assert_eq!(result.status, Status::Fail);
    assert!(result
        .details
        .iter()
        .any(|d| d.contains("strict-transport-security")));
}

#[test]
fn headers_check_passes_against_mock_server_with_full_header_set() {
    let mut headers = HeaderMap::new();
    headers.insert(
        "strict-transport-security",
        HeaderValue::from_static("max-age=31536000; includeSubDomains"),
    );
    headers.insert(
        "x-content-type-options",
        HeaderValue::from_static("nosniff"),
    );
    headers.insert("referrer-policy", HeaderValue::from_static("no-referrer"));
    headers.insert("x-frame-options", HeaderValue::from_static("DENY"));
    let cfg = HeadersConfig::default();
    let result = check_url(
        "http://127.0.0.1:8080/",
        &cfg,
        &HeaderFetch::Response(headers),
    );
    assert_eq!(result.status, Status::Pass);
}

#[test]
fn headers_check_skips_on_unreachable_host() {
    let cfg = HeadersConfig::default();
    let result = check_url(
        "http://127.0.0.1:1/",
        &cfg,
        &HeaderFetch::Unreachable("connection refused".to_string()),
    );
    assert_eq!(result.status, Status::Skip);
    assert_eq!(
        result.summary,
        "could not fetch http://127.0.0.1:1/: connection refused"
    );
}

#[test]
fn no_client_skips_the_check() {
    let result = check(
        "example.com",
        &cfg(),
        &HeaderFetch::NoClient("no TLS backend".to_string()),
    );
    assert_eq!(result.status, Status::Skip);
    assert_eq!(result.summary, "could not build HTTP client: no TLS backend");
}

#[test]
fn the_front_page_is_served_over_https() {
    assert_eq!(site_url("example.com"), "https://example.com/");
    let result = check(
        "example.com",
        &cfg(),
        &HeaderFetch::Unreachable("timeout".to_string()),
    );
    assert_eq!(
        result.summary,
        "could not fetch https://example.com/: timeout"
    );
}

#[test]
fn summary_counts_required_headers() {
    let mut headers = good_headers();
    headers.remove("referrer-policy");
    let result = evaluate(&headers, &cfg());
    assert_eq!(result.summary, "2/3 required headers present");
    assert_eq!(
        result.details[0],
        "missing required header: referrer-policy"
    );
}

#[test]
fn required_names_are_compared_in_lower_case() {
    let mut cfg = cfg();
    cfg.require = vec!["X-Missing".to_string(), "Referrer-Policy".to_string()];
    let result = evaluate(&good_headers(), &cfg);
    assert_eq!(result.status, Status::Fail);
    assert_eq!(result.summary, "1/2 required headers present");
    assert_eq!(result.details[0], "missing required header: x-missing");
}

#[test]
fn headers_are_found_by_name_and_only_where_visible() {
    let mut headers = good_headers();
    assert_eq!(
        get_header(&headers, "x-frame-options"),
        Some("DENY".to_string())
    );
    assert_eq!(
        get_header(&headers, "X-Frame-Options"),
        Some("DENY".to_string())
    );
    assert_eq!(get_header(&headers, "permissions-policy"), None);
    assert_eq!(get_header(&headers, "not a name"), None);
    headers.insert(
        "x-frame-options",
        HeaderValue::from_bytes(b"DEN\xff").unwrap(),
    );
    assert_eq!(get_header(&headers, "x-frame-options"), None);
    headers.insert(
        "x-frame-options",
        HeaderValue::from_bytes(b"a\tb").unwrap(),
    );
    assert_eq!(
        get_header(&headers, "x-frame-options"),
        Some("a\tb".to_string())
    );
}

#[test]
fn the_first_of_several_values_counts() {
    let mut headers = HeaderMap::new();
    let name = HeaderName::from_static("x-frame-options");
    headers.append(name.clone(), HeaderValue::from_static("DENY"));
    headers.append(name, HeaderValue::from_static("ALLOWALL"));
    assert_eq!(
        get_header(&headers, "x-frame-options"),
        Some("DENY".to_string())
    );
}

#[test]
fn hsts_notes_and_issues() {
    let mut cfg = cfg();
    assert_eq!(
        evaluate_hsts("max-age=31536000; INCLUDESUBDOMAINS", &cfg),
        Ok(vec![
            "hsts ok: max-age=31536000, includeSubDomains=true, preload=false".to_string()
        ])
    );
    assert_eq!(
        evaluate_hsts("includeSubDomains", &cfg),
        Err("strict-transport-security has no parseable max-age".to_string())
    );
    assert_eq!(
        evaluate_hsts("max-age=ten; includeSubDomains", &cfg),
        Err("strict-transport-security has no parseable max-age".to_string())
    );
    assert_eq!(
        evaluate_hsts("max-age=60; includeSubDomains", &cfg),
        Err(
            "strict-transport-security max-age=60 is below the required minimum of 15552000"
                .to_string()
        )
    );
    assert_eq!(
        evaluate_hsts("max-age=15552000", &cfg),
        Err("strict-transport-security is missing includeSubDomains".to_string())
    );
    cfg.hsts_require_preload = true;
    assert_eq!(
        evaluate_hsts("max-age=15552000; includeSubDomains", &cfg),
        Err("strict-transport-security is missing preload".to_string())
    );
}

#[test]
fn hsts_takes_the_last_max_age() {
    let cfg = cfg();
    assert!(evaluate_hsts("max-age=1; max-age= +31536000 ;includeSubDomains", &cfg).is_ok());
    assert!(evaluate_hsts("max-age=31536000; max-age=x; includeSubDomains", &cfg).is_err());
    assert!(evaluate_hsts("max-age=9223372036854775808; includeSubDomains", &cfg).is_err());
    assert!(evaluate_hsts("Max-Age=31536000; includeSubDomains", &cfg).is_err());
}

#[test]
fn values_are_trimmed_and_compared_ignoring_case() {
    let mut headers = good_headers();
    headers.insert(
        "x-content-type-options",
        HeaderValue::from_static(" NoSniff "),
    );
    headers.insert("x-frame-options", HeaderValue::from_static("SameOrigin"));
    headers.remove("content-security-policy");
    assert_eq!(evaluate(&headers, &cfg()).status, Status::Pass);
    headers.insert("x-frame-options", HeaderValue::from_static("ALLOWALL"));
    assert_eq!(evaluate(&headers, &cfg()).status, Status::Fail);
    let mut relaxed = cfg();
    relaxed.require_frame_protection = false;
    assert_eq!(evaluate(&headers, &relaxed).status, Status::Pass);
}

#[test]
fn frame_ancestors_counts_as_a_directive_only() {
    let mut headers = HeaderMap::new();
    headers.insert(
        "strict-transport-security",
        HeaderValue::from_static("max-age=31536000; includeSubDomains"),
    );
    headers.insert(
        "x-content-type-options",
        HeaderValue::from_static("nosniff"),
    );
    headers.insert("referrer-policy", HeaderValue::from_static("no-referrer"));
    headers.insert(
        "content-security-policy",
        HeaderValue::from_static("default-src 'self'; report-uri /frame-ancestors"),
    );
    let cfg = HeadersConfig::default();
    let result = evaluate(&headers, &cfg);
    assert_eq!(result.status, Status::Fail);
    assert!(result.details.iter().any(|d| d.contains("clickjacking")));
    let fixes = suggest_fixes(&headers, &cfg);
    assert_eq!(fixes.len(), 1);
    assert_eq!(fixes[0].header, "X-Frame-Options");

    headers.insert(
        "content-security-policy",
        HeaderValue::from_static("default-src 'self';\tFrame-Ancestors 'none'"),
    );
    assert_eq!(evaluate(&headers, &cfg).status, Status::Pass);
    assert!(suggest_fixes(&headers, &cfg).is_empty());
}

#[test]
fn frame_ancestors_counts_in_any_policy_of_a_list() {
    let mut headers = good_headers();
    headers.remove("x-frame-options");
    headers.insert(
        "content-security-policy",
        HeaderValue::from_static("default-src 'self', frame-ancestors 'none'"),
    );
    let result = evaluate(&headers, &HeadersConfig::default());
    assert_eq!(result.status, Status::Pass);
    assert!(suggest_fixes(&headers, &HeadersConfig::default()).is_empty());

    headers.insert(
        "content-security-policy",
        HeaderValue::from_static("default-src 'self', report-uri /frame-ancestors"),
    );
    let result = evaluate(&headers, &HeadersConfig::default());
    assert_eq!(result.status, Status::Fail);
    assert!(result.details.iter().any(|d| d.contains("clickjacking")));
}

#[test]
fn directives_are_found_by_their_first_word() {
    assert!(policy_has_directive("a 'self',frame-ancestors 'none'; b", "frame-ancestors"));
    assert!(policy_has_directive("a; frame-ancestors, b", "frame-ancestors"));
    assert!(!policy_has_directive("a x,y frame-ancestors;", "frame-ancestors"));
    assert!(policy_has_directive("frame-ancestors", "frame-ancestors"));
    assert!(policy_has_directive(" ; FRAME-ANCESTORS 'none';", "frame-ancestors"));
    assert!(!policy_has_directive("frame-ancestors-x 'none'", "frame-ancestors"));
    assert!(!policy_has_directive("script-src frame-ancestors", "frame-ancestors"));
    assert!(!policy_has_directive("", "frame-ancestors"));
}

#[test]
fn nothing_is_suggested_for_a_good_header_set() {
    assert!(suggest_fixes(&good_headers(), &cfg()).is_empty());
}

#[test]
fn suggested_fixes_clear_the_findings() {
    let headers = HeaderMap::new();
    let fixes = suggest_fixes(&headers, &cfg());
    let names: Vec<&str> = fixes.iter().map(|f| f.header.as_str()).collect();
    assert_eq!(
        names,
        vec![
            "Strict-Transport-Security",
            "X-Content-Type-Options",
            "Referrer-Policy",
            "X-Frame-Options"
        ]
    );
    assert_eq!(fixes[0].value, "max-age=31536000; includeSubDomains");
    assert_eq!(
        fixes[0].reason,
        "missing required header: strict-transport-security"
    );

    let mut fixed = headers;
    for f in &fixes {
        fixed.insert(
            HeaderName::from_bytes(f.header.to_lowercase().as_bytes()).unwrap(),
            HeaderValue::from_str(&f.value).unwrap(),
        );
    }
    assert_eq!(evaluate(&fixed, &cfg()).status, Status::Pass);
    assert!(suggest_fixes(&fixed, &cfg()).is_empty());

    let file = apply_fixes("", &fixes);
    assert_eq!(apply_fixes(&file, &fixes), file);
}

#[test]
fn weak_values_are_replaced() {
    let mut headers = good_headers();
    headers.insert(
        "strict-transport-security",
        HeaderValue::from_static("max-age=60"),
    );
    headers.insert("referrer-policy", HeaderValue::from_static("unsafe-url"));
    let mut strict = cfg();
    strict.hsts_min_max_age_seconds = 63_072_000;
    strict.hsts_require_preload = true;
    let fixes = suggest_fixes(&headers, &strict);
    assert_eq!(fixes.len(), 2);
    assert_eq!(
        fixes[0].value,
        "max-age=63072000; includeSubDomains; preload"
    );
    assert_eq!(fixes[1].header, "Referrer-Policy");
    assert_eq!(fixes[1].value, "no-referrer");
}
