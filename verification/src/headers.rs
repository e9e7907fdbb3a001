//! HTTP security header check.
//!
//! Verifies the presence and, for a few well-known headers, the value of
//! browser-enforced security policy headers. A Content-Security-Policy is
//! checked for presence and for a `frame-ancestors` directive only: it is a
//! signal, not a full audit.

use crate::config::{HeadersConfig, HeadersConfigView};
use crate::report::{self, CheckResult, CheckResultView, Status};
use crate::text;
use reqwest::header::{HeaderMap, HeaderValue};
use vstd::prelude::*;

verus! {

// ---------------------------------------------------------------------
// Header sets
// ---------------------------------------------------------------------

/// The header set of an HTTP response.
#[verifier::external_type_specification]
#[verifier::external_body]
#[verifier::reject_recursive_types(T)]
pub struct ExHeaderMap<T>(HeaderMap<T>);

/// The value of an HTTP header.
#[verifier::external_type_specification]
#[verifier::external_body]
pub struct ExHeaderValue(HeaderValue);

/// What a header set holds: for each name in lower case, the bytes of the
/// first value that a lookup by that name finds.
pub uninterp spec fn header_contents(headers: HeaderMap<HeaderValue>) -> Map<Seq<char>, Seq<u8>>;

/// `HeaderMap::get` of the `http` crate, with the value's bytes copied: the
/// first value under a name, whatever the case of its ASCII letters. A text
/// that is no header name is under no name.
#[verifier::external_body]
fn first_value(headers: &HeaderMap<HeaderValue>, name: &str) -> (r: Option<Vec<u8>>)
    ensures
        r is Some <==> header_contents(*headers).contains_key(text::ascii_lower(name@)),
        r is Some ==> r->0@ == header_contents(*headers)[text::ascii_lower(name@)],
{
    headers.get(name).map(|v| v.as_bytes().to_vec())
}

/// Whether a byte of a header value is visible ASCII, a space or a tab.
pub open spec fn is_visible(b: u8) -> bool {
    32 <= b < 127 || b == 9
}

/// The text of a header value: its bytes as characters, where all of them are
/// visible ASCII.
pub open spec fn value_text(bytes: Seq<u8>) -> Option<Seq<char>> {
    if forall|i: int| 0 <= i < bytes.len() ==> is_visible(#[trigger] bytes[i]) {
        Some(Seq::new(bytes.len(), |i: int| bytes[i] as char))
    } else {
        None
    }
}

/// The text of the header `name`, where there is one.
pub open spec fn header_text(headers: Map<Seq<char>, Seq<u8>>, name: Seq<char>) -> Option<
    Seq<char>,
> {
    if headers.contains_key(text::ascii_lower(name)) {
        value_text(headers[text::ascii_lower(name)])
    } else {
        None
    }
}

/// The text of a header value.
fn visible_text(bytes: &Vec<u8>) -> (r: Option<String>)
    ensures
        r is Some <==> value_text(bytes@) is Some,
        r is Some ==> r->0@ == value_text(bytes@)->0,
{
    let mut s = String::new();
    for i in 0..bytes.len()
        invariant
            s@ == Seq::new(i as nat, |j: int| bytes@[j] as char),
            forall|j: int| 0 <= j < i ==> is_visible(#[trigger] bytes@[j]),
    {
        let b: u8 = bytes[i];
        if !((32 <= b && b < 127) || b == 9) {
            assert(!is_visible(bytes@[i as int]));
            return None;
        }
        s.push(b as char);
        assert(s@ =~= Seq::new((i + 1) as nat, |j: int| bytes@[j] as char));
    }
    assert(s@ =~= value_text(bytes@)->0);
    Some(s)
}

/// The text of the header `name`, where there is one.
pub fn get_header(headers: &HeaderMap<HeaderValue>, name: &str) -> (r: Option<String>)
    ensures
        r is Some <==> header_text(header_contents(*headers), name@) is Some,
        r is Some ==> r->0@ == header_text(header_contents(*headers), name@)->0,
{
    match first_value(headers, name) {
        Some(bytes) => visible_text(&bytes),
        None => None,
    }
}

/// One header to set, and why.
#[derive(Debug, Clone)]
pub struct HeaderFix {
    pub header: String,
    pub value: String,
    pub reason: String,
}

/// The texts of a [`HeaderFix`].
pub struct HeaderFixView {
    pub header: Seq<char>,
    pub value: Seq<char>,
    pub reason: Seq<char>,
}

impl View for HeaderFix {
    type V = HeaderFixView;

    open spec fn view(&self) -> HeaderFixView {
        HeaderFixView { header: self.header@, value: self.value@, reason: self.reason@ }
    }
}

/// The texts of a list of fixes.
pub open spec fn fix_views(v: Seq<HeaderFix>) -> Seq<HeaderFixView> {
    Seq::new(v.len(), |i: int| v[i]@)
}

/// A copy of a list of fixes.
pub(crate) fn clone_fixes(v: &[HeaderFix]) -> (r: Vec<HeaderFix>)
    ensures
        fix_views(r@) == fix_views(v@),
{
    let mut r: Vec<HeaderFix> = Vec::new();
    for i in 0..v.len()
        invariant
            fix_views(r@) == fix_views(v@).take(i as int),
    {
        let ghost before = r@;
        let f = HeaderFix {
            header: v[i].header.clone(),
            value: v[i].value.clone(),
            reason: v[i].reason.clone(),
        };
        r.push(f);
        assert(fix_views(r@) =~= fix_views(before).push(v@[i as int]@));
        assert(fix_views(v@).take(i + 1) =~= fix_views(v@).take(i as int).push(v@[i as int]@));
    }
    assert(fix_views(v@).take(v@.len() as int) =~= fix_views(v@));
    r
}

// ---------------------------------------------------------------------
// Strict-Transport-Security
// ---------------------------------------------------------------------

/// What a Strict-Transport-Security header says.
#[verifier::ext_equal]
pub struct HstsView {
    pub max_age: Option<i64>,
    pub include_subdomains: bool,
    pub preload: bool,
}

/// What a header says after one more directive.
pub open spec fn with_directive(hsts: HstsView, raw: Seq<char>) -> HstsView {
    let part = text::trimmed(raw);
    if "max-age="@.is_prefix_of(part) {
        HstsView {
            max_age: text::i64_of(text::trimmed(part.skip("max-age="@.len() as int))),
            ..hsts
        }
    } else if text::same_ignoring_case(part, "includeSubDomains"@) {
        HstsView { include_subdomains: true, ..hsts }
    } else if text::same_ignoring_case(part, "preload"@) {
        HstsView { preload: true, ..hsts }
    } else {
        hsts
    }
}

/// What a list of directives says; of several `max-age` the last one counts.
pub open spec fn hsts_of_parts(parts: Seq<Seq<char>>) -> HstsView
    decreases parts.len(),
{
    if parts.len() == 0 {
        HstsView { max_age: None, include_subdomains: false, preload: false }
    } else {
        with_directive(hsts_of_parts(parts.drop_last()), parts.last())
    }
}

/// What the value of a Strict-Transport-Security header says.
pub open spec fn hsts_of(value: Seq<char>) -> HstsView {
    hsts_of_parts(text::pieces(value, ';'))
}

/// The note on a Strict-Transport-Security header that meets the policy, or
/// the first reason why it does not.
pub open spec fn hsts_outcome(value: Seq<char>, cfg: HeadersConfigView) -> Result<
    Seq<char>,
    Seq<char>,
> {
    let hsts = hsts_of(value);
    match hsts.max_age {
        None => Err("strict-transport-security has no parseable max-age"@),
        Some(age) => if age < cfg.hsts_min_max_age_seconds {
            Err(
                "strict-transport-security max-age="@ + text::decimal_int(age as int)
                    + " is below the required minimum of "@ + text::decimal_int(
                    cfg.hsts_min_max_age_seconds as int,
                ),
            )
        } else if cfg.hsts_require_include_subdomains && !hsts.include_subdomains {
            Err("strict-transport-security is missing includeSubDomains"@)
        } else if cfg.hsts_require_preload && !hsts.preload {
            Err("strict-transport-security is missing preload"@)
        } else {
            Ok(
                "hsts ok: max-age="@ + text::decimal_int(age as int) + ", includeSubDomains="@
                    + text::bool_word(hsts.include_subdomains) + ", preload="@ + text::bool_word(
                    hsts.preload,
                ),
            )
        },
    }
}

/// Checks the value of a Strict-Transport-Security header against the policy:
/// notes where it meets it, else the reason why it does not.
pub fn evaluate_hsts(value: &str, cfg: &HeadersConfig) -> (r: Result<Vec<String>, String>)
    ensures
        match hsts_outcome(value@, cfg@) {
            Ok(note) => r matches Ok(notes) && text::texts(notes@) == seq![note],
            Err(why) => r matches Err(issue) && issue@ == why,
        },
{
    let chars = text::to_chars(value);
    let parts = text::split_on(chars.as_slice(), ';');
    let max_age_key = text::to_chars("max-age=");
    let subdomains_key = text::to_chars("includeSubDomains");
    let preload_key = text::to_chars("preload");
    let mut max_age: Option<i64> = None;
    let mut include_subdomains: bool = false;
    let mut preload: bool = false;
    let ghost all = text::char_texts(parts@);
    assert(all.take(0) =~= Seq::<Seq<char>>::empty());
    for i in 0..parts.len()
        invariant
            all == text::char_texts(parts@),
            max_age_key@ == "max-age="@,
            subdomains_key@ == "includeSubDomains"@,
            preload_key@ == "preload"@,
            (HstsView { max_age, include_subdomains, preload }) == hsts_of_parts(
                all.take(i as int),
            ),
    {
        proof {
            assert(all.take(i + 1).drop_last() =~= all.take(i as int));
            assert(all.take(i + 1).last() == parts@[i as int]@);
        }
        let part = text::trim(parts[i].as_slice());
        match text::strip_prefix(part, max_age_key.as_slice()) {
            Some(rest) => {
                max_age = text::parse_i64(text::trim(rest));
            },
            None => {
                if text::eq_ignore_ascii_case(part, subdomains_key.as_slice()) {
                    include_subdomains = true;
                } else if text::eq_ignore_ascii_case(part, preload_key.as_slice()) {
                    preload = true;
                }
            },
        }
    }
    assert(all.take(all.len() as int) =~= all);
    let age: i64 = match max_age {
        Some(age) => age,
        None => {
            return Err("strict-transport-security has no parseable max-age".to_owned());
        },
    };
    if age < cfg.hsts_min_max_age_seconds {
        return Err(
            "strict-transport-security max-age=".to_owned().concat(
                text::show_i64(age).as_str(),
            ).concat(" is below the required minimum of ").concat(
                text::show_i64(cfg.hsts_min_max_age_seconds).as_str(),
            ),
        );
    }
    if cfg.hsts_require_include_subdomains && !include_subdomains {
        return Err("strict-transport-security is missing includeSubDomains".to_owned());
    }
    if cfg.hsts_require_preload && !preload {
        return Err("strict-transport-security is missing preload".to_owned());
    }
    let mut notes: Vec<String> = Vec::new();
    notes.push(
        "hsts ok: max-age=".to_owned().concat(text::show_i64(age).as_str()).concat(
            ", includeSubDomains=",
        ).concat(text::show_bool(include_subdomains)).concat(", preload=").concat(
            text::show_bool(preload),
        ),
    );
    assert(text::texts(notes@) =~= seq![hsts_outcome(value@, cfg@)->Ok_0]);
    Ok(notes)
}

// ---------------------------------------------------------------------
// The check
// ---------------------------------------------------------------------

/// The name of this check.
pub const CHECK_NAME: &'static str = "headers";

/// The details on required headers that are missing, in the order of the
/// configuration.
pub open spec fn missing_details(
    headers: Map<Seq<char>, Seq<u8>>,
    require: Seq<Seq<char>>,
) -> Seq<Seq<char>>
    decreases require.len(),
{
    if require.len() == 0 {
        Seq::empty()
    } else {
        let before = missing_details(headers, require.drop_last());
        let name = text::lowercase(require.last());
        if header_text(headers, name) is None {
            before.push("missing required header: "@ + name)
        } else {
            before
        }
    }
}

/// The detail on Strict-Transport-Security, where the header is there.
pub open spec fn hsts_details(
    headers: Map<Seq<char>, Seq<u8>>,
    cfg: HeadersConfigView,
) -> Seq<Seq<char>> {
    match header_text(headers, "strict-transport-security"@) {
        Some(value) => match hsts_outcome(value, cfg) {
            Ok(note) => seq![note],
            Err(why) => seq![why],
        },
        None => Seq::empty(),
    }
}

/// Whether Strict-Transport-Security is there and does not meet the policy.
pub open spec fn hsts_fails(headers: Map<Seq<char>, Seq<u8>>, cfg: HeadersConfigView) -> bool {
    match header_text(headers, "strict-transport-security"@) {
        Some(value) => hsts_outcome(value, cfg) is Err,
        None => false,
    }
}

/// A value without white space around it, in lower case.
pub open spec fn normalized(value: Seq<char>) -> Seq<char> {
    text::lowercase(text::trimmed(value))
}

/// Whether X-Content-Type-Options is there with another value than `nosniff`.
pub open spec fn sniffing_fails(headers: Map<Seq<char>, Seq<u8>>) -> bool {
    match header_text(headers, "x-content-type-options"@) {
        Some(value) => normalized(value) != "nosniff"@,
        None => false,
    }
}

/// The detail on X-Content-Type-Options, where its value is wrong.
pub open spec fn sniffing_details(headers: Map<Seq<char>, Seq<u8>>) -> Seq<Seq<char>> {
    if sniffing_fails(headers) {
        seq![
            "x-content-type-options has non-standard value '"@ + header_text(
                headers,
                "x-content-type-options"@,
            )->0 + "' (expected 'nosniff')"@,
        ]
    } else {
        Seq::empty()
    }
}

/// Whether Referrer-Policy is `unsafe-url`.
pub open spec fn referrer_warns(headers: Map<Seq<char>, Seq<u8>>) -> bool {
    match header_text(headers, "referrer-policy"@) {
        Some(value) => normalized(value) == "unsafe-url"@,
        None => false,
    }
}

/// The detail on a Referrer-Policy that leaks.
pub open spec fn referrer_details(headers: Map<Seq<char>, Seq<u8>>) -> Seq<Seq<char>> {
    if referrer_warns(headers) {
        seq!["referrer-policy is 'unsafe-url', which leaks the full referrer cross-origin"@]
    } else {
        Seq::empty()
    }
}

/// Whether one policy has a directive: one of its parts between semicolons
/// begins with the directive's name, ignoring case.
pub open spec fn policy_sets(policy: Seq<char>, name: Seq<char>) -> bool {
    exists|i: int|
        0 <= i < text::pieces(policy, ';').len() && text::same_ignoring_case(
            text::first_word(text::trimmed(#[trigger] text::pieces(policy, ';')[i])),
            name,
        )
}

/// Whether a Content-Security-Policy, which is a list of policies with commas
/// between them, has a directive in one of them.
pub open spec fn has_directive(policies: Seq<char>, name: Seq<char>) -> bool {
    exists|i: int|
        0 <= i < text::pieces(policies, ',').len() && policy_sets(
            #[trigger] text::pieces(policies, ',')[i],
            name,
        )
}

/// Whether the response may not be framed at will: X-Frame-Options is `DENY`
/// or `SAMEORIGIN`, or the Content-Security-Policy has a `frame-ancestors`
/// directive.
pub open spec fn frame_protected(headers: Map<Seq<char>, Seq<u8>>) -> bool {
    ||| match header_text(headers, "x-frame-options"@) {
        Some(value) => normalized(value) == "deny"@ || normalized(value) == "sameorigin"@,
        None => false,
    }
    ||| match header_text(headers, "content-security-policy"@) {
        Some(value) => has_directive(value, "frame-ancestors"@),
        None => false,
    }
}

/// Whether clickjacking protection is required and missing.
pub open spec fn frame_fails(headers: Map<Seq<char>, Seq<u8>>, cfg: HeadersConfigView) -> bool {
    cfg.require_frame_protection && !frame_protected(headers)
}

/// The detail on missing clickjacking protection.
pub open spec fn frame_details(
    headers: Map<Seq<char>, Seq<u8>>,
    cfg: HeadersConfigView,
) -> Seq<Seq<char>> {
    if frame_fails(headers, cfg) {
        seq![
            "no clickjacking protection: missing X-Frame-Options (DENY/SAMEORIGIN) and no CSP frame-ancestors directive"@,
        ]
    } else {
        Seq::empty()
    }
}

/// How many required headers are there.
pub open spec fn present(headers: Map<Seq<char>, Seq<u8>>, require: Seq<Seq<char>>) -> nat
    decreases require.len(),
{
    if require.len() == 0 {
        0
    } else {
        present(headers, require.drop_last()) + if header_text(
            headers,
            text::lowercase(require.last()),
        ) is Some {
            1nat
        } else {
            0nat
        }
    }
}

/// Whether the check finds a failure.
pub open spec fn fails(headers: Map<Seq<char>, Seq<u8>>, cfg: HeadersConfigView) -> bool {
    ||| missing_details(headers, cfg.require).len() > 0
    ||| hsts_fails(headers, cfg)
    ||| sniffing_fails(headers)
    ||| frame_fails(headers, cfg)
}

/// What a header set amounts to.
pub open spec fn evaluated(
    headers: Map<Seq<char>, Seq<u8>>,
    cfg: HeadersConfigView,
) -> CheckResultView {
    CheckResultView {
        check: CHECK_NAME@,
        status: report::verdict(fails(headers, cfg), referrer_warns(headers)),
        summary: text::decimal(present(headers, cfg.require)) + "/"@ + text::decimal(
            cfg.require.len(),
        ) + " required headers present"@,
        details: missing_details(headers, cfg.require) + hsts_details(headers, cfg)
            + sniffing_details(headers) + referrer_details(headers) + frame_details(headers, cfg),
    }
}

/// How many required headers are there.
fn present_count(headers: &HeaderMap<HeaderValue>, cfg: &HeadersConfig) -> (r: usize)
    ensures
        r == present(header_contents(*headers), cfg@.require),
{
    let mut n: usize = 0;
    let ghost all = cfg@.require;
    for i in 0..cfg.require.len()
        invariant
            all == cfg@.require,
            n <= i,
            n == present(header_contents(*headers), all.take(i as int)),
    {
        assert(all.take(i + 1).drop_last() =~= all.take(i as int));
        assert(all.take(i + 1).last() == cfg.require@[i as int]@);
        let name = text::to_lowercase(cfg.require[i].as_str());
        if get_header(headers, name.as_str()).is_some() {
            n = n + 1;
        }
    }
    assert(all.take(all.len() as int) =~= all);
    n
}

/// The details on required headers that are missing.
fn missing(headers: &HeaderMap<HeaderValue>, cfg: &HeadersConfig) -> (r: Vec<String>)
    ensures
        text::texts(r@) == missing_details(header_contents(*headers), cfg@.require),
{
    let mut details: Vec<String> = Vec::new();
    let ghost all = cfg@.require;
    assert(all.take(0) =~= Seq::<Seq<char>>::empty());
    assert(text::texts(details@) =~= Seq::<Seq<char>>::empty());
    for i in 0..cfg.require.len()
        invariant
            all == cfg@.require,
            text::texts(details@) == missing_details(header_contents(*headers), all.take(i as int)),
    {
        assert(all.take(i + 1).drop_last() =~= all.take(i as int));
        assert(all.take(i + 1).last() == cfg.require@[i as int]@);
        let name = text::to_lowercase(cfg.require[i].as_str());
        if get_header(headers, name.as_str()).is_none() {
            text::push_text(
                &mut details,
                "missing required header: ".to_owned().concat(name.as_str()),
            );
        }
    }
    assert(all.take(all.len() as int) =~= all);
    details
}

/// A value without white space around it, in lower case.
fn normalize(value: &str) -> (r: String)
    ensures
        r@ == normalized(value@),
{
    let chars = text::to_chars(value);
    text::to_lowercase(text::from_chars(text::trim(chars.as_slice())).as_str())
}

/// Whether one policy has a directive.
fn is_set_by_policy(policy: &[char], name: &[char]) -> (r: bool)
    ensures
        r == policy_sets(policy@, name@),
{
    let parts = text::split_on(policy, ';');
    let ghost all = text::pieces(policy@, ';');
    for i in 0..parts.len()
        invariant
            all == text::pieces(policy@, ';'),
            all == text::char_texts(parts@),
            forall|j: int|
                0 <= j < i ==> !text::same_ignoring_case(
                    text::first_word(text::trimmed(#[trigger] all[j])),
                    name@,
                ),
    {
        assert(all[i as int] == parts@[i as int]@);
        let word = text::take_word(text::trim(parts[i].as_slice()));
        if text::eq_ignore_ascii_case(word, name) {
            return true;
        }
    }
    false
}

/// Whether a Content-Security-Policy has a directive.
pub fn policy_has_directive(policy: &str, name: &str) -> (r: bool)
    ensures
        r == has_directive(policy@, name@),
{
    let chars = text::to_chars(policy);
    let name_chars = text::to_chars(name);
    let policies = text::split_on(chars.as_slice(), ',');
    let ghost all = text::pieces(policy@, ',');
    for i in 0..policies.len()
        invariant
            all == text::pieces(policy@, ','),
            all == text::char_texts(policies@),
            name_chars@ == name@,
            forall|j: int| 0 <= j < i ==> !policy_sets(#[trigger] all[j], name@),
    {
        assert(all[i as int] == policies@[i as int]@);
        if is_set_by_policy(policies[i].as_slice(), name_chars.as_slice()) {
            return true;
        }
    }
    false
}

/// Whether the response may not be framed at will.
fn is_frame_protected(headers: &HeaderMap<HeaderValue>) -> (r: bool)
    ensures
        r == frame_protected(header_contents(*headers)),
{
    let has_frame_ancestors: bool = match get_header(headers, "content-security-policy") {
        Some(v) => policy_has_directive(v.as_str(), "frame-ancestors"),
        None => false,
    };
    let frame_options_ok: bool = match get_header(headers, "x-frame-options") {
        Some(v) => {
            let v = normalize(v.as_str());
            text::same_text(v.as_str(), "deny") || text::same_text(v.as_str(), "sameorigin")
        },
        None => false,
    };
    frame_options_ok || has_frame_ancestors
}

/// Checks a header set against the configured requirements.
pub fn evaluate(headers: &HeaderMap<HeaderValue>, cfg: &HeadersConfig) -> (r: CheckResult)
    ensures
        r@ == evaluated(header_contents(*headers), cfg@),
{
    let ghost map = header_contents(*headers);
    let mut details = missing(headers, cfg);
    let mut failed: bool = details.len() > 0;
    let mut warned: bool = false;
    let ghost d0 = text::texts(details@);

    match get_header(headers, "strict-transport-security") {
        Some(hsts) => match evaluate_hsts(hsts.as_str(), cfg) {
            Ok(notes) => text::append_texts(&mut details, notes),
            Err(issue) => {
                failed = true;
                text::push_text(&mut details, issue);
            },
        },
        None => {},
    }
    let ghost d1 = text::texts(details@);
    assert(d1 =~= d0 + hsts_details(map, cfg@));

    match get_header(headers, "x-content-type-options") {
        Some(value) => {
            if !text::same_text(normalize(value.as_str()).as_str(), "nosniff") {
                failed = true;
                text::push_text(
                    &mut details,
                    "x-content-type-options has non-standard value '".to_owned().concat(
                        value.as_str(),
                    ).concat("' (expected 'nosniff')"),
                );
            }
        },
        None => {},
    }
    let ghost d2 = text::texts(details@);
    assert(d2 =~= d1 + sniffing_details(map));

    match get_header(headers, "referrer-policy") {
        Some(value) => {
            if text::same_text(normalize(value.as_str()).as_str(), "unsafe-url") {
                warned = true;
                text::push_text(
                    &mut details,
                    "referrer-policy is 'unsafe-url', which leaks the full referrer cross-origin".to_owned(),
                );
            }
        },
        None => {},
    }
    let ghost d3 = text::texts(details@);
    assert(d3 =~= d2 + referrer_details(map));

    if cfg.require_frame_protection && !is_frame_protected(headers) {
        failed = true;
        text::push_text(
            &mut details,
            "no clickjacking protection: missing X-Frame-Options (DENY/SAMEORIGIN) and no CSP frame-ancestors directive".to_owned(),
        );
    }
    assert(text::texts(details@) =~= d3 + frame_details(map, cfg@));

    let summary = text::show_usize(present_count(headers, cfg)).concat("/").concat(
        text::show_usize(cfg.require.len()).as_str(),
    ).concat(" required headers present");
    CheckResult::decided(CHECK_NAME, failed, warned, summary.as_str(), details)
}

/// What came of fetching a page.
pub enum HeaderFetch {
    /// No HTTP client could be set up, for this reason.
    NoClient(String),
    /// The page could not be fetched, for this reason.
    Unreachable(String),
    /// The header set of the response.
    Response(HeaderMap<HeaderValue>),
}

/// What fetching `url` amounts to.
pub open spec fn checked(
    url: Seq<char>,
    cfg: HeadersConfigView,
    fetch: HeaderFetch,
) -> CheckResultView {
    match fetch {
        HeaderFetch::NoClient(why) => report::bare(
            CHECK_NAME@,
            Status::Skip,
            "could not build HTTP client: "@ + why@,
        ),
        HeaderFetch::Unreachable(why) => report::bare(
            CHECK_NAME@,
            Status::Skip,
            "could not fetch "@ + url + ": "@ + why@,
        ),
        HeaderFetch::Response(headers) => evaluated(header_contents(headers), cfg),
    }
}

/// The front page of a domain.
pub open spec fn front_page(domain: Seq<char>) -> Seq<char> {
    "https://"@ + domain + "/"@
}

/// The front page of a domain.
pub fn site_url(domain: &str) -> (r: String)
    ensures
        r@ == front_page(domain@),
{
    "https://".to_owned().concat(domain).concat("/")
}

/// The result of the header check on the front page of a domain.
pub fn check(domain: &str, cfg: &HeadersConfig, fetch: &HeaderFetch) -> (r: CheckResult)
    ensures
        r@ == checked(front_page(domain@), cfg@, *fetch),
{
    check_url(site_url(domain).as_str(), cfg, fetch)
}

/// The result of the header check on the page at `url`.
pub fn check_url(url: &str, cfg: &HeadersConfig, fetch: &HeaderFetch) -> (r: CheckResult)
    ensures
        r@ == checked(url@, cfg@, *fetch),
{
    match fetch {
        HeaderFetch::NoClient(why) => CheckResult::skip(
            CHECK_NAME,
            "could not build HTTP client: ".to_owned().concat(why.as_str()).as_str(),
        ),
        HeaderFetch::Unreachable(why) => CheckResult::skip(
            CHECK_NAME,
            "could not fetch ".to_owned().concat(url).concat(": ").concat(why.as_str()).as_str(),
        ),
        HeaderFetch::Response(headers) => evaluate(headers, cfg),
    }
}

// ---------------------------------------------------------------------
// Fixes
// ---------------------------------------------------------------------

/// A year in seconds: the `max-age` to propose where the configured minimum
/// asks for no more.
pub const PROPOSED_MAX_AGE: i64 = 31_536_000;

/// Whether `name` is a required header that is missing.
pub open spec fn is_missing(
    headers: Map<Seq<char>, Seq<u8>>,
    require: Seq<Seq<char>>,
    name: Seq<char>,
) -> bool {
    &&& header_text(headers, name) is None
    &&& exists|i: int| 0 <= i < require.len() && text::lowercase(#[trigger] require[i]) == name
}

/// The `max-age` to propose.
pub open spec fn proposed_max_age(cfg: HeadersConfigView) -> i64 {
    if cfg.hsts_min_max_age_seconds > PROPOSED_MAX_AGE {
        cfg.hsts_min_max_age_seconds
    } else {
        PROPOSED_MAX_AGE
    }
}

/// A Strict-Transport-Security value that meets the policy.
pub open spec fn proposed_hsts(cfg: HeadersConfigView) -> Seq<char> {
    "max-age="@ + text::decimal_int(proposed_max_age(cfg) as int) + (
    if cfg.hsts_require_include_subdomains {
        "; includeSubDomains"@
    } else {
        ""@
    }) + (if cfg.hsts_require_preload {
        "; preload"@
    } else {
        ""@
    })
}

/// The finding on a header: that it is missing, or what is wrong with it.
pub open spec fn finding(
    headers: Map<Seq<char>, Seq<u8>>,
    name: Seq<char>,
    wrong: Seq<Seq<char>>,
) -> Seq<char> {
    if header_text(headers, name) is None || wrong.len() == 0 {
        "missing required header: "@ + name
    } else {
        wrong[0]
    }
}

/// The fix for Strict-Transport-Security, where it is missing or too weak.
pub open spec fn hsts_fix(headers: Map<Seq<char>, Seq<u8>>, cfg: HeadersConfigView) -> Seq<
    HeaderFixView,
> {
    if hsts_fails(headers, cfg) || is_missing(
        headers,
        cfg.require,
        "strict-transport-security"@,
    ) {
        seq![
            HeaderFixView {
                header: "Strict-Transport-Security"@,
                value: proposed_hsts(cfg),
                reason: finding(
                    headers,
                    "strict-transport-security"@,
                    hsts_details(headers, cfg),
                ),
            },
        ]
    } else {
        Seq::empty()
    }
}

/// The fix for X-Content-Type-Options, where it is missing or wrong.
pub open spec fn sniffing_fix(headers: Map<Seq<char>, Seq<u8>>, cfg: HeadersConfigView) -> Seq<
    HeaderFixView,
> {
    if sniffing_fails(headers) || is_missing(headers, cfg.require, "x-content-type-options"@) {
        seq![
            HeaderFixView {
                header: "X-Content-Type-Options"@,
                value: "nosniff"@,
                reason: finding(headers, "x-content-type-options"@, sniffing_details(headers)),
            },
        ]
    } else {
        Seq::empty()
    }
}

/// The fix for Referrer-Policy, where it is missing or leaks.
pub open spec fn referrer_fix(headers: Map<Seq<char>, Seq<u8>>, cfg: HeadersConfigView) -> Seq<
    HeaderFixView,
> {
    if referrer_warns(headers) || is_missing(headers, cfg.require, "referrer-policy"@) {
        seq![
            HeaderFixView {
                header: "Referrer-Policy"@,
                value: "no-referrer"@,
                reason: finding(headers, "referrer-policy"@, referrer_details(headers)),
            },
        ]
    } else {
        Seq::empty()
    }
}

/// The fix for missing clickjacking protection.
pub open spec fn frame_fix(headers: Map<Seq<char>, Seq<u8>>, cfg: HeadersConfigView) -> Seq<
    HeaderFixView,
> {
    if frame_fails(headers, cfg) {
        seq![
            HeaderFixView {
                header: "X-Frame-Options"@,
                value: "DENY"@,
                reason: frame_details(headers, cfg)[0],
            },
        ]
    } else {
        Seq::empty()
    }
}

/// The headers to set so that the findings on them go away.
pub open spec fn suggested(headers: Map<Seq<char>, Seq<u8>>, cfg: HeadersConfigView) -> Seq<
    HeaderFixView,
> {
    hsts_fix(headers, cfg) + sniffing_fix(headers, cfg) + referrer_fix(headers, cfg) + frame_fix(
        headers,
        cfg,
    )
}

/// Whether `name` is a required header that is missing.
fn lacks(headers: &HeaderMap<HeaderValue>, cfg: &HeadersConfig, name: &str) -> (r: bool)
    ensures
        r == is_missing(header_contents(*headers), cfg@.require, name@),
{
    if get_header(headers, name).is_some() {
        return false;
    }
    for i in 0..cfg.require.len()
        invariant
            header_text(header_contents(*headers), name@) is None,
            forall|j: int| 0 <= j < i ==> text::lowercase(#[trigger] cfg@.require[j]) != name@,
    {
        let required = text::to_lowercase(cfg.require[i].as_str());
        if text::same_text(required.as_str(), name) {
            assert(text::lowercase(cfg@.require[i as int]) == name@);
            return true;
        }
        assert(cfg@.require[i as int] == cfg.require@[i as int]@);
    }
    false
}

/// The finding that a required header is missing.
fn missing_finding(name: &str) -> (r: String)
    ensures
        r@ == "missing required header: "@ + name@,
{
    "missing required header: ".to_owned().concat(name)
}

/// Appends a fix.
fn push_fix(fixes: &mut Vec<HeaderFix>, header: &str, value: &str, reason: String)
    ensures
        fix_views(final(fixes)@) == fix_views(old(fixes)@).push(
            HeaderFixView { header: header@, value: value@, reason: reason@ },
        ),
{
    fixes.push(HeaderFix { header: header.to_owned(), value: value.to_owned(), reason });
    assert(fix_views(fixes@) =~= fix_views(old(fixes)@).push(
        HeaderFixView { header: header@, value: value@, reason: reason@ },
    ));
}

/// A Strict-Transport-Security value that meets the policy.
fn propose_hsts(cfg: &HeadersConfig) -> (r: String)
    ensures
        r@ == proposed_hsts(cfg@),
{
    let age: i64 = if cfg.hsts_min_max_age_seconds > PROPOSED_MAX_AGE {
        cfg.hsts_min_max_age_seconds
    } else {
        PROPOSED_MAX_AGE
    };
    let subdomains = if cfg.hsts_require_include_subdomains {
        "; includeSubDomains"
    } else {
        ""
    };
    let preload = if cfg.hsts_require_preload {
        "; preload"
    } else {
        ""
    };
    "max-age=".to_owned().concat(text::show_i64(age).as_str()).concat(subdomains).concat(preload)
}

/// The headers to set so that the findings on them go away.
pub fn suggest_fixes(headers: &HeaderMap<HeaderValue>, cfg: &HeadersConfig) -> (r: Vec<HeaderFix>)
    ensures
        fix_views(r@) == suggested(header_contents(*headers), cfg@),
{
    let ghost map = header_contents(*headers);
    let mut fixes: Vec<HeaderFix> = Vec::new();

    match get_header(headers, "strict-transport-security") {
        Some(value) => match evaluate_hsts(value.as_str(), cfg) {
            Ok(_) => {},
            Err(issue) => push_fix(
                &mut fixes,
                "Strict-Transport-Security",
                propose_hsts(cfg).as_str(),
                issue,
            ),
        },
        None => {
            if lacks(headers, cfg, "strict-transport-security") {
                push_fix(
                    &mut fixes,
                    "Strict-Transport-Security",
                    propose_hsts(cfg).as_str(),
                    missing_finding("strict-transport-security"),
                );
            }
        },
    }
    assert(fix_views(fixes@) =~= hsts_fix(map, cfg@));

    let ghost f1 = fix_views(fixes@);
    match get_header(headers, "x-content-type-options") {
        Some(value) => {
            if !text::same_text(normalize(value.as_str()).as_str(), "nosniff") {
                push_fix(
                    &mut fixes,
                    "X-Content-Type-Options",
                    "nosniff",
                    "x-content-type-options has non-standard value '".to_owned().concat(
                        value.as_str(),
                    ).concat("' (expected 'nosniff')"),
                );
            }
        },
        None => {
            if lacks(headers, cfg, "x-content-type-options") {
                push_fix(
                    &mut fixes,
                    "X-Content-Type-Options",
                    "nosniff",
                    missing_finding("x-content-type-options"),
                );
            }
        },
    }
    assert(fix_views(fixes@) =~= f1 + sniffing_fix(map, cfg@));

    let ghost f2 = fix_views(fixes@);
    match get_header(headers, "referrer-policy") {
        Some(value) => {
            if text::same_text(normalize(value.as_str()).as_str(), "unsafe-url") {
                push_fix(
                    &mut fixes,
                    "Referrer-Policy",
                    "no-referrer",
                    "referrer-policy is 'unsafe-url', which leaks the full referrer cross-origin".to_owned(),
                );
            }
        },
        None => {
            if lacks(headers, cfg, "referrer-policy") {
                push_fix(
                    &mut fixes,
                    "Referrer-Policy",
                    "no-referrer",
                    missing_finding("referrer-policy"),
                );
            }
        },
    }
    assert(fix_views(fixes@) =~= f2 + referrer_fix(map, cfg@));

    let ghost f3 = fix_views(fixes@);
    if cfg.require_frame_protection && !is_frame_protected(headers) {
        push_fix(
            &mut fixes,
            "X-Frame-Options",
            "DENY",
            "no clickjacking protection: missing X-Frame-Options (DENY/SAMEORIGIN) and no CSP frame-ancestors directive".to_owned(),
        );
    }
    assert(fix_views(fixes@) =~= f3 + frame_fix(map, cfg@));
    fixes
}

} // verus!
