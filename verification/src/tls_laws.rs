//! What the TLS check makes of a connection, in terms of what was negotiated and
//! of the first certificate alone.

use crate::clock;
use crate::config::{TlsConfig, TlsVersion};
use crate::report::Status;
use crate::text;
use crate::text_laws;
use crate::tls;
use crate::tls::{
    ConnectEvent, ConnectStep, ConnectStepView, LeafCertificate, LeafCertificateView,
    TlsConnectError, TlsConnectErrorView, TlsConnectionInfo, TlsConnectionInfoView,
};
use vstd::prelude::*;

verus! {

// ---------------------------------------------------------------------
// The leaf certificate
// ---------------------------------------------------------------------

/// What the check reads of a chain is what it reads of its first certificate
/// alone, whatever follows.
pub proof fn law_only_the_first_certificate_is_read(chain: Seq<Seq<u8>>, other: Seq<Seq<u8>>)
    requires
        chain.len() > 0,
        other.len() > 0,
        chain[0] == other[0],
    ensures
        tls::leaf_of(chain) == tls::leaf_of(other),
        tls::leaf_of(chain) == tls::leaf_of(seq![chain[0]]),
{
}

/// Of the first certificate the end of validity, the subject and the issuer are
/// read, each as the certificate has it; of one that cannot be read, nothing.
pub proof fn law_leaf_is_the_first_certificate(chain: Seq<Seq<u8>>)
    ensures
        tls::leaf_of(chain) is Some <==> chain.len() > 0 && tls::certificate_of(chain[0]) is Some,
        chain.len() > 0 ==> (tls::certificate_of(chain[0]) matches Some(cert) ==> {
            let leaf = tls::leaf_of(chain)->0;
            &&& (leaf.not_after, leaf.subject, leaf.issuer) == cert
            &&& leaf.not_after_text == clock::rfc3339_text(leaf.not_after)
        }),
{
}

/// A connection is read as it stands: its texts and its certificates in order.
pub proof fn law_connection_is_read_in_full(info: TlsConnectionInfo, i: int)
    ensures
        info@.protocol_version == info.protocol_version@,
        info@.cipher_suite == info.cipher_suite@,
        info@.chain_der.len() == info.chain_der@.len(),
        0 <= i < info.chain_der@.len() ==> info@.chain_der[i] == info.chain_der@[i]@,
{
}

// ---------------------------------------------------------------------
// The check
// ---------------------------------------------------------------------

/// A version is known exactly by the text that names it, anywhere in what was
/// negotiated; TLS 1.3 comes first.
pub proof fn law_version_is_named(a: Seq<char>, b: Seq<char>, s: Seq<char>)
    ensures
        tls::version_of(a + "TLSv1_3"@ + b) == Some(TlsVersion::Tls13),
        tls::version_of(s) == Some(TlsVersion::Tls13) <==> exists|x: Seq<char>, y: Seq<char>|
            s == #[trigger] (x + "TLSv1_3"@ + y),
        tls::version_of(s) == Some(TlsVersion::Tls12) <==> !(exists|x: Seq<char>, y: Seq<char>|
            s == #[trigger] (x + "TLSv1_3"@ + y)) && exists|x: Seq<char>, y: Seq<char>|
            s == #[trigger] (x + "TLSv1_2"@ + y),
{
    text_laws::law_contains_text_iff(a + "TLSv1_3"@ + b, "TLSv1_3"@);
    text_laws::law_contains_text_iff(s, "TLSv1_3"@);
    text_laws::law_contains_text_iff(s, "TLSv1_2"@);
}

/// When the check fails, warns, is skipped and passes, in that order: a version
/// below the minimum, or a certificate that is past its end or has fewer whole
/// days left than asked for, fails; what cannot be read warns; a setting without
/// effect skips.
pub proof fn law_status_iff(
    domain: Seq<char>,
    info: TlsConnectionInfoView,
    cfg: TlsConfig,
    leaf: Option<LeafCertificateView>,
    now: i64,
)
    ensures
        ({
            let status = tls::evaluated(domain, info, cfg, leaf, now).status;
            let version = tls::version_of(info.protocol_version);
            let too_old = version == Some(TlsVersion::Tls12) && cfg.min_version
                == TlsVersion::Tls13;
            let expires = leaf is Some && (leaf->0.not_after <= now || leaf->0.not_after - now
                < cfg.expiry_warning_days * 86_400);
            let unread = version is None || leaf is None;
            &&& status == Status::Fail <==> too_old || expires
            &&& status == Status::Warn <==> !too_old && !expires && unread
            &&& status == Status::Skip <==> !too_old && !expires && !unread
                && cfg.allow_weak_ciphers
            &&& status == Status::Pass <==> !too_old && !expires && !unread
                && !cfg.allow_weak_ciphers
        }),
{
}

/// What the details say, in order: what was negotiated, what is wrong with the
/// version, the expiry, the end of validity, subject and issuer of the
/// certificate, and the note on weak cipher suites.
pub proof fn law_details_in_order(
    domain: Seq<char>,
    info: TlsConnectionInfoView,
    cfg: TlsConfig,
    leaf: LeafCertificateView,
    now: i64,
)
    ensures
        ({
            let r = tls::evaluated(domain, info, cfg, Some(leaf), now);
            let version = tls::version_of(info.protocol_version);
            let fine = version is Some && !(version == Some(TlsVersion::Tls12) && cfg.min_version
                == TlsVersion::Tls13);
            let k: int = if fine {
                2
            } else {
                3
            };
            let m: int = if leaf.not_after_text is Some {
                k + 2
            } else {
                k + 1
            };
            &&& r.check == "tls"@
            &&& r.summary == domain + ": "@ + info.protocol_version + " / leaf cert inspected"@
            &&& r.details.len() == m + 2 + if cfg.allow_weak_ciphers {
                1int
            } else {
                0int
            }
            &&& r.details[0] == "negotiated protocol: "@ + info.protocol_version
            &&& r.details[1] == "negotiated cipher suite: "@ + info.cipher_suite
            &&& version is None ==> r.details[2] == "could not parse negotiated protocol version"@
            &&& version is Some && !fine ==> r.details[2]
                == "negotiated "@ + "TLS 1.2"@ + " is below the configured minimum of "@
                + "TLS 1.3"@
            &&& leaf.not_after_text matches Some(t) ==> r.details[k + 1] == "not_after: "@ + t
            &&& r.details[m] == "subject: "@ + leaf.subject
            &&& r.details[m + 1] == "issuer: "@ + leaf.issuer
            &&& cfg.allow_weak_ciphers ==> r.details[m + 2]
                == "allow_weak_ciphers=true has no effect: rustls does not implement weak cipher suites"@
        }),
{
}

/// What is said of the expiry: the number is that of the whole days left, or
/// past, so many days of 86 400 seconds and no more.
pub proof fn law_expiry_is_counted_in_days(
    domain: Seq<char>,
    info: TlsConnectionInfoView,
    cfg: TlsConfig,
    leaf: LeafCertificateView,
    now: i64,
    n: nat,
)
    ensures
        ({
            let r = tls::evaluated(domain, info, cfg, Some(leaf), now);
            let left = leaf.not_after - now;
            let version = tls::version_of(info.protocol_version);
            let fine = version is Some && !(version == Some(TlsVersion::Tls12) && cfg.min_version
                == TlsVersion::Tls13);
            let detail = if fine {
                r.details[2]
            } else {
                r.details[3]
            };
            &&& left <= 0 && n * 86_400 <= -left < (n + 1) * 86_400 ==> detail
                == "certificate EXPIRED "@ + text::decimal(n) + " day(s) ago"@
            &&& left > 0 && n * 86_400 <= left < (n + 1) * 86_400 && n < cfg.expiry_warning_days
                ==> detail == "certificate expires in "@ + text::decimal(n)
                + " day(s), inside the "@ + text::decimal_int(cfg.expiry_warning_days as int)
                + "-day warning window"@
            &&& left > 0 && n * 86_400 <= left < (n + 1) * 86_400 && n >= cfg.expiry_warning_days
                ==> detail == "certificate valid for "@ + text::decimal(n) + " more day(s)"@
        }),
{
}

/// Without a readable certificate the check says so, after what is said of the
/// version.
pub proof fn law_unreadable_certificate_is_reported(
    domain: Seq<char>,
    info: TlsConnectionInfoView,
    cfg: TlsConfig,
    now: i64,
)
    ensures
        tls::evaluated(domain, info, cfg, None, now).details.contains(
            "could not parse leaf certificate for expiry inspection"@,
        ),
{
    let r = tls::evaluated(domain, info, cfg, None, now);
    let k: int = 2 + tls::version_details(info, cfg).len() as int;
    assert(r.details[k] == "could not parse leaf certificate for expiry inspection"@);
}

// ---------------------------------------------------------------------
// Connecting
// ---------------------------------------------------------------------

/// What each event on a connection leads to.
pub proof fn law_connection_events(sni: Seq<char>, host: Seq<char>, event: ConnectEvent)
    ensures
        ({
            let step = tls::connect_step(sni, host, event);
            match event {
                ConnectEvent::TcpTimedOut => step == ConnectStepView::Failed(
                    TlsConnectErrorView::Network(host, "connection timed out"@),
                ),
                ConnectEvent::TcpFailed(why) => step == ConnectStepView::Failed(
                    TlsConnectErrorView::Network(host, why@),
                ),
                ConnectEvent::TcpConnected => match tls::server_name_fault(sni) {
                    None => step is Handshake,
                    Some(why) => step == ConnectStepView::Failed(
                        TlsConnectErrorView::Handshake(
                            "invalid server name "@ + sni + ": "@ + why,
                        ),
                    ),
                },
                ConnectEvent::HandshakeTimedOut => step == ConnectStepView::Failed(
                    TlsConnectErrorView::Handshake("handshake timed out"@),
                ),
                ConnectEvent::HandshakeFailed(why) => step == ConnectStepView::Failed(
                    TlsConnectErrorView::Handshake(why@),
                ),
                ConnectEvent::Established(n) => {
                    &&& n.chain_der@.len() == 0 ==> step == ConnectStepView::Failed(
                        TlsConnectErrorView::Handshake("server presented no certificates"@),
                    )
                    &&& n.chain_der@.len() > 0 ==> (step matches ConnectStepView::Connected(info)
                        && info.chain_der.len() == n.chain_der@.len() && (forall|i: int|
                        0 <= i < n.chain_der@.len() ==> #[trigger] info.chain_der[i]
                            == n.chain_der@[i]@) && info.protocol_version == (
                    match n.protocol_version {
                        Some(v) => v@,
                        None => "unknown"@,
                    }) && info.cipher_suite == (match n.cipher_suite {
                        Some(v) => v@,
                        None => "unknown"@,
                    }))
                },
            }
        }),
{
}

/// What a failed connection is reported as.
pub proof fn law_failed_connections_are_reported(domain: Seq<char>, host: Seq<char>, why: Seq<char>)
    ensures
        ({
            let r = tls::error_result(domain, TlsConnectErrorView::Network(host, why));
            &&& r.check == "tls"@
            &&& r.status == Status::Skip
            &&& r.summary == "could not reach "@ + domain + ":443: "@ + why
            &&& r.details.len() == 0
        }),
        ({
            let r = tls::error_result(domain, TlsConnectErrorView::Handshake(why));
            &&& r.check == "tls"@
            &&& r.status == Status::Fail
            &&& r.summary == "TLS handshake with "@ + domain + " failed: "@ + why
            &&& r.details.len() == 1
        }),
{
}

/// Steps, errors and certificates are read as they stand.
pub proof fn law_connection_steps_are_read_in_full(
    info: TlsConnectionInfo,
    e: TlsConnectError,
    host: String,
    why: String,
    leaf: LeafCertificate,
)
    ensures
        ConnectStep::Handshake@ is Handshake,
        ConnectStep::Connected(info)@ == ConnectStepView::Connected(info@),
        ConnectStep::Failed(e)@ == ConnectStepView::Failed(e@),
        TlsConnectError::Network(host, why)@ == TlsConnectErrorView::Network(host@, why@),
        TlsConnectError::Handshake(why)@ == TlsConnectErrorView::Handshake(why@),
        tls::leaf_view(Some(leaf)) == Some(leaf@),
        tls::leaf_view(None) is None,
        leaf@.not_after == leaf.not_after,
        leaf@.subject == leaf.subject@,
        leaf@.issuer == leaf.issuer@,
        leaf.not_after_text is None <==> leaf@.not_after_text is None,
        leaf.not_after_text matches Some(t) ==> leaf@.not_after_text == Some(t@),
{
}

/// Connections go to the port of HTTPS and may take ten seconds.
pub proof fn law_connection_limits()
    ensures
        tls::HTTPS_PORT == 443,
        tls::CONNECT_TIMEOUT_SECONDS == 10,
{
}

} // verus!
