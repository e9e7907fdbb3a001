//! TLS / certificate chain check.
//!
//! Looks at the negotiated protocol version, at the expiry of the leaf
//! certificate and at the negotiated cipher suite. Weak cipher suites are never
//! offered, so the setting that would allow them has no effect on the
//! connection. Where it is set the check says so, and a connection that would
//! pass is reported as skipped.

use crate::clock;
use crate::config::{TlsConfig, TlsVersion};
use crate::report::{self, CheckResult, CheckResultView, Status};
use crate::text;
use rustls_pki_types::ServerName;
use vstd::prelude::*;

verus! {

/// The name of this check.
pub const CHECK_NAME: &'static str = "tls";

/// How long the TCP connection and the handshake may each take, in seconds.
pub const CONNECT_TIMEOUT_SECONDS: u64 = 10;

/// The port of HTTPS.
pub const HTTPS_PORT: u16 = 443;

// ---------------------------------------------------------------------
// Connecting
// ---------------------------------------------------------------------

/// What one TLS handshake shows of a domain.
pub struct TlsConnectionInfo {
    pub protocol_version: String,
    pub cipher_suite: String,
    /// Leaf-first raw DER certificate chain as presented by the server.
    pub chain_der: Vec<Vec<u8>>,
}

/// The contents of a [`TlsConnectionInfo`].
#[verifier::ext_equal]
pub struct TlsConnectionInfoView {
    pub protocol_version: Seq<char>,
    pub cipher_suite: Seq<char>,
    pub chain_der: Seq<Seq<u8>>,
}

/// The contents of a certificate chain.
pub open spec fn chain_view(chain: Seq<Vec<u8>>) -> Seq<Seq<u8>> {
    Seq::new(chain.len(), |i: int| chain[i]@)
}

impl View for TlsConnectionInfo {
    type V = TlsConnectionInfoView;

    open spec fn view(&self) -> TlsConnectionInfoView {
        TlsConnectionInfoView {
            protocol_version: self.protocol_version@,
            cipher_suite: self.cipher_suite@,
            chain_der: chain_view(self.chain_der@),
        }
    }
}

/// Why a connection failed.
#[derive(Debug)]
pub enum TlsConnectError {
    /// The host could not be reached, for this reason.
    Network(String, String),
    /// The handshake failed, for this reason.
    Handshake(String),
}

/// The contents of a [`TlsConnectError`].
pub enum TlsConnectErrorView {
    Network(Seq<char>, Seq<char>),
    Handshake(Seq<char>),
}

impl View for TlsConnectError {
    type V = TlsConnectErrorView;

    open spec fn view(&self) -> TlsConnectErrorView {
        match self {
            TlsConnectError::Network(host, why) => TlsConnectErrorView::Network(host@, why@),
            TlsConnectError::Handshake(why) => TlsConnectErrorView::Handshake(why@),
        }
    }
}

impl TlsConnectError {
    /// The message for this error.
    pub fn message(&self) -> (r: String)
        ensures
            r@ == (match self@ {
                TlsConnectErrorView::Network(host, why) => "network error connecting to "@ + host
                    + ":443: "@ + why,
                TlsConnectErrorView::Handshake(why) => "TLS handshake failed: "@ + why,
            }),
    {
        match self {
            TlsConnectError::Network(host, why) => "network error connecting to ".to_owned().concat(
                host.as_str(),
            ).concat(":443: ").concat(why.as_str()),
            TlsConnectError::Handshake(why) => "TLS handshake failed: ".to_owned().concat(
                why.as_str(),
            ),
        }
    }
}

/// What was negotiated on a connection.
pub struct Negotiated {
    pub protocol_version: Option<String>,
    pub cipher_suite: Option<String>,
    pub chain_der: Vec<Vec<u8>>,
}

/// What happened while connecting.
pub enum ConnectEvent {
    /// The TCP connection took too long.
    TcpTimedOut,
    /// The TCP connection failed, for this reason.
    TcpFailed(String),
    /// The TCP connection stands.
    TcpConnected,
    /// The handshake took too long.
    HandshakeTimedOut,
    /// The handshake failed, for this reason.
    HandshakeFailed(String),
    /// The handshake is done.
    Established(Negotiated),
}

/// What to do next while connecting.
pub enum ConnectStep {
    /// Start the handshake.
    Handshake,
    /// Stop: this is what the connection shows.
    Connected(TlsConnectionInfo),
    /// Stop: the connection failed.
    Failed(TlsConnectError),
}

/// The contents of a [`ConnectStep`].
pub enum ConnectStepView {
    Handshake,
    Connected(TlsConnectionInfoView),
    Failed(TlsConnectErrorView),
}

impl View for ConnectStep {
    type V = ConnectStepView;

    open spec fn view(&self) -> ConnectStepView {
        match self {
            ConnectStep::Handshake => ConnectStepView::Handshake,
            ConnectStep::Connected(info) => ConnectStepView::Connected(info@),
            ConnectStep::Failed(e) => ConnectStepView::Failed(e@),
        }
    }
}

/// Why a text is no server name; none where it is one.
pub uninterp spec fn server_name_fault(name: Seq<char>) -> Option<Seq<char>>;

/// `ServerName::try_from` of the `rustls-pki-types` crate: whether a text is a
/// DNS name or an IP address, and the message of its error where it is neither.
/// The outcome is only named.
#[verifier::external_body]
fn check_server_name(name: &str) -> (r: Option<String>)
    ensures
        r is Some <==> server_name_fault(name@) is Some,
        r is Some ==> r->0@ == server_name_fault(name@)->0,
{
    match ServerName::try_from(name.to_string()) {
        Ok(_) => None,
        Err(e) => Some(e.to_string()),
    }
}

/// The given text, or `unknown`.
pub open spec fn or_unknown(s: Option<String>) -> Seq<char> {
    match s {
        Some(s) => s@,
        None => "unknown"@,
    }
}

/// The next step after a TCP connection: the handshake, unless the server name
/// has a fault.
pub open spec fn after_tcp(sni: Seq<char>, fault: Option<Seq<char>>) -> ConnectStepView {
    match fault {
        Some(why) => ConnectStepView::Failed(
            TlsConnectErrorView::Handshake("invalid server name "@ + sni + ": "@ + why),
        ),
        None => ConnectStepView::Handshake,
    }
}

/// The next step after an event. A server without certificates is refused.
pub open spec fn connect_step(
    sni: Seq<char>,
    host: Seq<char>,
    event: ConnectEvent,
) -> ConnectStepView {
    match event {
        ConnectEvent::TcpTimedOut => ConnectStepView::Failed(
            TlsConnectErrorView::Network(host, "connection timed out"@),
        ),
        ConnectEvent::TcpFailed(why) => ConnectStepView::Failed(
            TlsConnectErrorView::Network(host, why@),
        ),
        ConnectEvent::TcpConnected => after_tcp(sni, server_name_fault(sni)),
        ConnectEvent::HandshakeTimedOut => ConnectStepView::Failed(
            TlsConnectErrorView::Handshake("handshake timed out"@),
        ),
        ConnectEvent::HandshakeFailed(why) => ConnectStepView::Failed(
            TlsConnectErrorView::Handshake(why@),
        ),
        ConnectEvent::Established(n) => if n.chain_der@.len() == 0 {
            ConnectStepView::Failed(
                TlsConnectErrorView::Handshake("server presented no certificates"@),
            )
        } else {
            ConnectStepView::Connected(
                TlsConnectionInfoView {
                    protocol_version: or_unknown(n.protocol_version),
                    cipher_suite: or_unknown(n.cipher_suite),
                    chain_der: chain_view(n.chain_der@),
                },
            )
        },
    }
}

/// The given text, or `unknown`.
fn known(s: Option<String>) -> (r: String)
    ensures
        r@ == or_unknown(s),
{
    match s {
        Some(s) => s,
        None => "unknown".to_owned(),
    }
}

/// The next step after a TCP connection, given the fault of the server name.
pub fn tcp_connected(sni: &str, fault: Option<String>) -> (r: ConnectStep)
    ensures
        r@ == after_tcp(
            sni@,
            match fault {
                Some(why) => Some(why@),
                None => None,
            },
        ),
{
    match fault {
        Some(why) => ConnectStep::Failed(
            TlsConnectError::Handshake(
                "invalid server name ".to_owned().concat(sni).concat(": ").concat(why.as_str()),
            ),
        ),
        None => ConnectStep::Handshake,
    }
}

/// The next step after an event on a connection to `host` with the server name
/// `sni`.
pub fn connect_to(sni: &str, host: &str, event: ConnectEvent) -> (r: ConnectStep)
    ensures
        r@ == connect_step(sni@, host@, event),
{
    match event {
        ConnectEvent::TcpTimedOut => ConnectStep::Failed(
            TlsConnectError::Network(host.to_owned(), "connection timed out".to_owned()),
        ),
        ConnectEvent::TcpFailed(why) => ConnectStep::Failed(
            TlsConnectError::Network(host.to_owned(), why),
        ),
        ConnectEvent::TcpConnected => tcp_connected(sni, check_server_name(sni)),
        ConnectEvent::HandshakeTimedOut => ConnectStep::Failed(
            TlsConnectError::Handshake("handshake timed out".to_owned()),
        ),
        ConnectEvent::HandshakeFailed(why) => ConnectStep::Failed(TlsConnectError::Handshake(why)),
        ConnectEvent::Established(n) => {
            if n.chain_der.len() == 0 {
                ConnectStep::Failed(
                    TlsConnectError::Handshake("server presented no certificates".to_owned()),
                )
            } else {
                ConnectStep::Connected(
                    TlsConnectionInfo {
                        protocol_version: known(n.protocol_version),
                        cipher_suite: known(n.cipher_suite),
                        chain_der: n.chain_der,
                    },
                )
            }
        },
    }
}

/// The next step after an event on a connection to a domain.
pub fn connect(domain: &str, event: ConnectEvent) -> (r: ConnectStep)
    ensures
        r@ == connect_step(domain@, domain@, event),
{
    connect_to(domain, domain, event)
}

/// What a failed connection amounts to.
pub open spec fn error_result(domain: Seq<char>, e: TlsConnectErrorView) -> CheckResultView {
    match e {
        TlsConnectErrorView::Network(_, why) => report::bare(
            CHECK_NAME@,
            Status::Skip,
            "could not reach "@ + domain + ":443: "@ + why,
        ),
        TlsConnectErrorView::Handshake(why) => CheckResultView {
            check: CHECK_NAME@,
            status: Status::Fail,
            summary: "TLS handshake with "@ + domain + " failed: "@ + why,
            details: seq![
                "this includes certificate chain validation failures: an untrusted issuer, expired chain, hostname mismatch, or an interception proxy would all surface here"@,
            ],
        },
    }
}

/// What a failed connection amounts to: a host that cannot be reached is
/// skipped; a failed handshake, a rejected certificate chain among them, fails.
pub fn error_to_result(domain: &str, e: TlsConnectError) -> (r: CheckResult)
    ensures
        r@ == error_result(domain@, e@),
{
    match e {
        TlsConnectError::Network(_, why) => CheckResult::skip(
            CHECK_NAME,
            "could not reach ".to_owned().concat(domain).concat(":443: ").concat(
                why.as_str(),
            ).as_str(),
        ),
        TlsConnectError::Handshake(why) => {
            let r = CheckResult::fail(
                CHECK_NAME,
                "TLS handshake with ".to_owned().concat(domain).concat(" failed: ").concat(
                    why.as_str(),
                ).as_str(),
            ).with_detail(
                "this includes certificate chain validation failures: an untrusted issuer, expired chain, hostname mismatch, or an interception proxy would all surface here",
            );
            assert(r@ =~= error_result(domain@, e@));
            r
        },
    }
}

// ---------------------------------------------------------------------
// The leaf certificate
// ---------------------------------------------------------------------

/// What the check reads of the leaf certificate.
pub struct LeafCertificate {
    /// The end of its validity, in seconds since the Unix epoch.
    pub not_after: i64,
    /// The same as text, where it is a date in range.
    pub not_after_text: Option<String>,
    pub subject: String,
    pub issuer: String,
}

/// The contents of a [`LeafCertificate`].
#[verifier::ext_equal]
pub struct LeafCertificateView {
    pub not_after: i64,
    pub not_after_text: Option<Seq<char>>,
    pub subject: Seq<char>,
    pub issuer: Seq<char>,
}

impl View for LeafCertificate {
    type V = LeafCertificateView;

    open spec fn view(&self) -> LeafCertificateView {
        LeafCertificateView {
            not_after: self.not_after,
            not_after_text: match self.not_after_text {
                Some(s) => Some(s@),
                None => None,
            },
            subject: self.subject@,
            issuer: self.issuer@,
        }
    }
}

/// What a DER certificate holds: the end of its validity, its subject and its
/// issuer; none where it is no certificate.
pub uninterp spec fn certificate_of(der: Seq<u8>) -> Option<(i64, Seq<char>, Seq<char>)>;

/// The contents of what was read of a certificate.
pub open spec fn certificate_view(cert: Option<(i64, String, String)>) -> Option<
    (i64, Seq<char>, Seq<char>),
> {
    match cert {
        Some((not_after, subject, issuer)) => Some((not_after, subject@, issuer@)),
        None => None,
    }
}

/// `parse_x509_certificate` of the `x509-parser` crate, and of its result the
/// end of validity in seconds since the Unix epoch and the texts of subject and
/// issuer. The outcome is only named.
#[verifier::external_body]
fn parse_certificate(der: &[u8]) -> (r: Option<(i64, String, String)>)
    ensures
        certificate_view(r) == certificate_of(der@),
{
    match x509_parser::parse_x509_certificate(der) {
        Ok((_, cert)) => Some((
            cert.validity().not_after.timestamp(),
            cert.subject().to_string(),
            cert.issuer().to_string(),
        )),
        Err(_) => None,
    }
}

/// What the check reads of the first certificate of a chain.
pub open spec fn leaf_of(chain: Seq<Seq<u8>>) -> Option<LeafCertificateView> {
    if chain.len() == 0 {
        None
    } else {
        match certificate_of(chain[0]) {
            Some((not_after, subject, issuer)) => Some(
                LeafCertificateView {
                    not_after,
                    not_after_text: clock::rfc3339_text(not_after),
                    subject,
                    issuer,
                },
            ),
            None => None,
        }
    }
}

/// The contents of an optional leaf certificate.
pub open spec fn leaf_view(leaf: Option<LeafCertificate>) -> Option<LeafCertificateView> {
    match leaf {
        Some(l) => Some(l@),
        None => None,
    }
}

/// Reads the first certificate of a chain.
fn read_leaf(info: &TlsConnectionInfo) -> (r: Option<LeafCertificate>)
    ensures
        leaf_view(r) == leaf_of(info@.chain_der),
{
    if info.chain_der.len() == 0 {
        return None;
    }
    match parse_certificate(info.chain_der[0].as_slice()) {
        Some((not_after, subject, issuer)) => {
            let leaf = LeafCertificate {
                not_after,
                not_after_text: clock::rfc3339(not_after),
                subject,
                issuer,
            };
            assert(leaf@ =~= leaf_of(info@.chain_der)->0);
            Some(leaf)
        },
        None => None,
    }
}

// ---------------------------------------------------------------------
// The check
// ---------------------------------------------------------------------

/// The protocol version that a negotiated version's name stands for.
pub open spec fn version_of(name: Seq<char>) -> Option<TlsVersion> {
    if text::contains_text(name, "TLSv1_3"@) {
        Some(TlsVersion::Tls13)
    } else if text::contains_text(name, "TLSv1_2"@) {
        Some(TlsVersion::Tls12)
    } else {
        None
    }
}

/// The protocol version that a negotiated version's name stands for.
pub fn parse_negotiated_version(s: &str) -> (r: Option<TlsVersion>)
    ensures
        r == version_of(s@),
{
    if text::text_contains(s, "TLSv1_3") {
        Some(TlsVersion::Tls13)
    } else if text::text_contains(s, "TLSv1_2") {
        Some(TlsVersion::Tls12)
    } else {
        None
    }
}

/// Whether a known version below the minimum was negotiated.
pub open spec fn version_fails(info: TlsConnectionInfoView, cfg: TlsConfig) -> bool {
    version_of(info.protocol_version) matches Some(v) && v.older_than(cfg.min_version)
}

/// The detail on the negotiated version, where there is something to say.
pub open spec fn version_details(info: TlsConnectionInfoView, cfg: TlsConfig) -> Seq<Seq<char>> {
    match version_of(info.protocol_version) {
        Some(v) => if v.older_than(cfg.min_version) {
            seq![
                "negotiated "@ + v.name() + " is below the configured minimum of "@
                    + cfg.min_version.name(),
            ]
        } else {
            Seq::empty()
        },
        None => seq!["could not parse negotiated protocol version"@],
    }
}

/// The seconds of a day.
pub const SECONDS_PER_DAY: i64 = 86_400;

/// The whole days in a number of seconds.
pub open spec fn days(seconds: int) -> int {
    seconds / SECONDS_PER_DAY as int
}

/// Whether a certificate has expired, or expires before the configured number
/// of whole days.
pub open spec fn expiry_fails(leaf: LeafCertificateView, cfg: TlsConfig, now: i64) -> bool {
    let left = leaf.not_after - now;
    left <= 0 || days(left) < cfg.expiry_warning_days
}

/// The detail on the expiry of a certificate.
pub open spec fn expiry_detail(leaf: LeafCertificateView, cfg: TlsConfig, now: i64) -> Seq<char> {
    let left = leaf.not_after - now;
    if left <= 0 {
        "certificate EXPIRED "@ + text::decimal_int(days(-left)) + " day(s) ago"@
    } else if days(left) < cfg.expiry_warning_days {
        "certificate expires in "@ + text::decimal_int(days(left)) + " day(s), inside the "@
            + text::decimal_int(cfg.expiry_warning_days as int) + "-day warning window"@
    } else {
        "certificate valid for "@ + text::decimal_int(days(left)) + " more day(s)"@
    }
}

/// The details on the leaf certificate.
pub open spec fn leaf_details(
    leaf: Option<LeafCertificateView>,
    cfg: TlsConfig,
    now: i64,
) -> Seq<Seq<char>> {
    match leaf {
        Some(l) => seq![expiry_detail(l, cfg, now)] + (match l.not_after_text {
            Some(t) => seq!["not_after: "@ + t],
            None => Seq::empty(),
        }) + seq!["subject: "@ + l.subject, "issuer: "@ + l.issuer],
        None => seq!["could not parse leaf certificate for expiry inspection"@],
    }
}

/// The note on a setting without effect.
pub open spec fn weak_cipher_details(cfg: TlsConfig) -> Seq<Seq<char>> {
    if cfg.allow_weak_ciphers {
        seq![
            "allow_weak_ciphers=true has no effect: rustls does not implement weak cipher suites"@,
        ]
    } else {
        Seq::empty()
    }
}

/// Whether the check finds a failure.
pub open spec fn fails(
    info: TlsConnectionInfoView,
    cfg: TlsConfig,
    leaf: Option<LeafCertificateView>,
    now: i64,
) -> bool {
    version_fails(info, cfg) || (leaf matches Some(l) && expiry_fails(l, cfg, now))
}

/// The status of a connection. A setting without effect keeps it from passing.
pub open spec fn status_of(
    info: TlsConnectionInfoView,
    cfg: TlsConfig,
    leaf: Option<LeafCertificateView>,
    now: i64,
) -> Status {
    if fails(info, cfg, leaf, now) {
        Status::Fail
    } else if version_of(info.protocol_version) is None || leaf is None {
        Status::Warn
    } else if cfg.allow_weak_ciphers {
        Status::Skip
    } else {
        Status::Pass
    }
}

/// What a connection amounts to at the time `now`, given its leaf certificate.
pub open spec fn evaluated(
    domain: Seq<char>,
    info: TlsConnectionInfoView,
    cfg: TlsConfig,
    leaf: Option<LeafCertificateView>,
    now: i64,
) -> CheckResultView {
    CheckResultView {
        check: CHECK_NAME@,
        status: status_of(info, cfg, leaf, now),
        summary: domain + ": "@ + info.protocol_version + " / leaf cert inspected"@,
        details: seq![
            "negotiated protocol: "@ + info.protocol_version,
            "negotiated cipher suite: "@ + info.cipher_suite,
        ] + version_details(info, cfg) + leaf_details(leaf, cfg, now) + weak_cipher_details(cfg),
    }
}

/// The details on a leaf certificate, and whether its expiry fails the check.
fn inspect_leaf(leaf: &LeafCertificate, cfg: &TlsConfig, now: i64) -> (r: (bool, Vec<String>))
    ensures
        r.0 == expiry_fails(leaf@, *cfg, now),
        text::texts(r.1@) == leaf_details(Some(leaf@), *cfg, now),
{
    let mut details: Vec<String> = Vec::new();
    let left: i128 = leaf.not_after as i128 - now as i128;
    let failed: bool;
    if left <= 0 {
        failed = true;
        let ago: u128 = (-left) as u128 / 86_400;
        text::push_text(
            &mut details,
            "certificate EXPIRED ".to_owned().concat(text::show_u128(ago).as_str()).concat(
                " day(s) ago",
            ),
        );
    } else {
        let whole: u128 = left as u128 / 86_400;
        if (whole as i128) < cfg.expiry_warning_days as i128 {
            failed = true;
            text::push_text(
                &mut details,
                "certificate expires in ".to_owned().concat(
                    text::show_u128(whole).as_str(),
                ).concat(" day(s), inside the ").concat(
                    text::show_i64(cfg.expiry_warning_days).as_str(),
                ).concat("-day warning window"),
            );
        } else {
            failed = false;
            text::push_text(
                &mut details,
                "certificate valid for ".to_owned().concat(text::show_u128(whole).as_str()).concat(
                    " more day(s)",
                ),
            );
        }
    }
    assert(text::texts(details@) =~= seq![expiry_detail(leaf@, *cfg, now)]);
    match &leaf.not_after_text {
        Some(t) => text::push_text(&mut details, "not_after: ".to_owned().concat(t.as_str())),
        None => {},
    }
    text::push_text(&mut details, "subject: ".to_owned().concat(leaf.subject.as_str()));
    text::push_text(&mut details, "issuer: ".to_owned().concat(leaf.issuer.as_str()));
    assert(text::texts(details@) =~= leaf_details(Some(leaf@), *cfg, now));
    (failed, details)
}

/// What a connection amounts to at the time `now`, given its leaf certificate.
pub fn evaluate_with_leaf(
    domain: &str,
    info: &TlsConnectionInfo,
    cfg: &TlsConfig,
    leaf: &Option<LeafCertificate>,
    now: i64,
) -> (r: CheckResult)
    ensures
        r@ == evaluated(domain@, info@, *cfg, leaf_view(*leaf), now),
{
    let mut details: Vec<String> = Vec::new();
    text::push_text(
        &mut details,
        "negotiated protocol: ".to_owned().concat(info.protocol_version.as_str()),
    );
    text::push_text(
        &mut details,
        "negotiated cipher suite: ".to_owned().concat(info.cipher_suite.as_str()),
    );
    let ghost d0 = text::texts(details@);
    assert(d0 =~= seq![
        "negotiated protocol: "@ + info@.protocol_version,
        "negotiated cipher suite: "@ + info@.cipher_suite,
    ]);
    let mut failed: bool = false;
    let mut warned: bool = false;

    match parse_negotiated_version(info.protocol_version.as_str()) {
        Some(v) => {
            if v.is_older_than(cfg.min_version) {
                failed = true;
                text::push_text(
                    &mut details,
                    "negotiated ".to_owned().concat(v.label()).concat(
                        " is below the configured minimum of ",
                    ).concat(cfg.min_version.label()),
                );
            }
        },
        None => {
            warned = true;
            text::push_text(
                &mut details,
                "could not parse negotiated protocol version".to_owned(),
            );
        },
    }
    let ghost d1 = text::texts(details@);
    assert(d1 =~= d0 + version_details(info@, *cfg));

    match leaf {
        Some(l) => {
            let (expired, more) = inspect_leaf(l, cfg, now);
            if expired {
                failed = true;
            }
            text::append_texts(&mut details, more);
        },
        None => {
            warned = true;
            text::push_text(
                &mut details,
                "could not parse leaf certificate for expiry inspection".to_owned(),
            );
        },
    }
    let ghost d2 = text::texts(details@);
    assert(d2 =~= d1 + leaf_details(leaf_view(*leaf), *cfg, now));

    if cfg.allow_weak_ciphers {
        text::push_text(
            &mut details,
            "allow_weak_ciphers=true has no effect: rustls does not implement weak cipher suites".to_owned(),
        );
    }
    assert(text::texts(details@) =~= d2 + weak_cipher_details(*cfg));

    let summary = domain.to_owned().concat(": ").concat(info.protocol_version.as_str()).concat(
        " / leaf cert inspected",
    );
    if cfg.allow_weak_ciphers && !failed && !warned {
        let r = CheckResult::skip(CHECK_NAME, summary.as_str()).with_details(details);
        assert(r@ =~= evaluated(domain@, info@, *cfg, leaf_view(*leaf), now));
        r
    } else {
        CheckResult::decided(CHECK_NAME, failed, warned, summary.as_str(), details)
    }
}

/// What a connection amounts to at the time `now`.
pub fn evaluate_at(
    domain: &str,
    info: &TlsConnectionInfo,
    cfg: &TlsConfig,
    now: clock::Moment,
) -> (r: CheckResult)
    ensures
        r@ == evaluated(domain@, info@, *cfg, leaf_of(info@.chain_der), now.seconds),
{
    let leaf = read_leaf(info);
    evaluate_with_leaf(domain, info, cfg, &leaf, now.seconds)
}

/// What a connection amounts to now.
pub fn evaluate(domain: &str, info: &TlsConnectionInfo, cfg: &TlsConfig) -> (r: CheckResult)
    ensures
        exists|now: i64|
            r@ == #[trigger] evaluated(domain@, info@, *cfg, leaf_of(info@.chain_der), now),
{
    let now = clock::now();
    let r = evaluate_at(domain, info, cfg, now);
    assert(r@ == evaluated(domain@, info@, *cfg, leaf_of(info@.chain_der), now.seconds));
    r
}

/// The result of the TLS check, given what came of connecting.
pub fn check(
    domain: &str,
    cfg: &TlsConfig,
    connection: Result<TlsConnectionInfo, TlsConnectError>,
) -> (r: CheckResult)
    ensures
        match connection {
            Ok(info) => exists|now: i64|
                r@ == #[trigger] evaluated(domain@, info@, *cfg, leaf_of(info@.chain_der), now),
            Err(e) => r@ == error_result(domain@, e@),
        },
{
    match connection {
        Ok(info) => evaluate(domain, &info, cfg),
        Err(e) => error_to_result(domain, e),
    }
}

// ---------------------------------------------------------------------
// Laws
// ---------------------------------------------------------------------

/// A version below the minimum fails the check whatever the certificate.
pub proof fn law_old_version_fails(
    domain: Seq<char>,
    info: TlsConnectionInfoView,
    cfg: TlsConfig,
    leaf: Option<LeafCertificateView>,
    now: i64,
)
    requires
        version_of(info.protocol_version) == Some(TlsVersion::Tls12),
        cfg.min_version == TlsVersion::Tls13,
    ensures
        evaluated(domain, info, cfg, leaf, now).status == Status::Fail,
{
}

/// An expired certificate fails the check, also without a warning window, and
/// it still fails at any later time.
pub proof fn law_expired_stays_failed(
    domain: Seq<char>,
    info: TlsConnectionInfoView,
    cfg: TlsConfig,
    leaf: LeafCertificateView,
    now: i64,
    later: i64,
)
    requires
        leaf.not_after <= now <= later,
    ensures
        evaluated(domain, info, cfg, Some(leaf), now).status == Status::Fail,
        evaluated(domain, info, cfg, Some(leaf), later).status == Status::Fail,
{
}

/// As time goes by a certificate only gets worse: once its expiry fails the
/// check, it fails it at any later time.
pub proof fn law_expiry_only_gets_worse(
    leaf: LeafCertificateView,
    cfg: TlsConfig,
    now: i64,
    later: i64,
)
    requires
        now <= later,
        expiry_fails(leaf, cfg, now),
    ensures
        expiry_fails(leaf, cfg, later),
{
}

/// The check passes exactly where a known version of at least the minimum was
/// negotiated, a readable leaf certificate is valid for at least the configured
/// number of whole days, and a second at the least, and weak cipher suites are
/// not asked for.
pub proof fn law_pass_iff(
    domain: Seq<char>,
    info: TlsConnectionInfoView,
    cfg: TlsConfig,
    leaf: Option<LeafCertificateView>,
    now: i64,
)
    ensures
        evaluated(domain, info, cfg, leaf, now).status == Status::Pass <==> {
            &&& version_of(info.protocol_version) is Some
            &&& !version_of(info.protocol_version)->0.older_than(cfg.min_version)
            &&& leaf is Some
            &&& leaf->0.not_after > now
            &&& leaf->0.not_after - now >= cfg.expiry_warning_days * SECONDS_PER_DAY
            &&& !cfg.allow_weak_ciphers
        },
{
}

/// Asking for weak cipher suites is reported: the note is the last detail, and
/// a connection that would pass is skipped. A failure or a warning stays.
pub proof fn law_weak_cipher_setting_is_reported(
    domain: Seq<char>,
    info: TlsConnectionInfoView,
    cfg: TlsConfig,
    leaf: Option<LeafCertificateView>,
    now: i64,
)
    requires
        cfg.allow_weak_ciphers,
    ensures
        ({
            let plain = evaluated(
                domain,
                info,
                TlsConfig { allow_weak_ciphers: false, ..cfg },
                leaf,
                now,
            );
            let r = evaluated(domain, info, cfg, leaf, now);
            &&& r.status == if plain.status == Status::Pass {
                Status::Skip
            } else {
                plain.status
            }
            &&& r.details == plain.details + weak_cipher_details(cfg)
            &&& r.summary == plain.summary
        }),
{
    let cleared = TlsConfig { allow_weak_ciphers: false, ..cfg };
    let plain = evaluated(domain, info, cleared, leaf, now);
    let r = evaluated(domain, info, cfg, leaf, now);
    assert(version_details(info, cleared) == version_details(info, cfg));
    assert(leaf_details(leaf, cleared, now) == leaf_details(leaf, cfg, now));
    assert(r.details =~= plain.details + weak_cipher_details(cfg));
}

/// A failed connection is skipped where the host could not be reached, and
/// fails where the handshake failed.
pub proof fn law_unreachable_skips_handshake_fails(domain: Seq<char>, e: TlsConnectErrorView)
    ensures
        error_result(domain, e).status == Status::Skip <==> e is Network,
        error_result(domain, e).status == Status::Fail <==> e is Handshake,
{
}

/// A connection that stands shows at least one certificate.
pub proof fn law_connected_has_a_leaf(sni: Seq<char>, host: Seq<char>, event: ConnectEvent)
    ensures
        connect_step(sni, host, event) matches ConnectStepView::Connected(info)
            ==> info.chain_der.len() > 0,
{
}

} // verus!
