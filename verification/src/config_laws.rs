//! What resolving a configuration amounts to, setting by setting.

use crate::config;
use crate::config::{
    Config, ConfigError, ConfigView, CtConfig, DefaultsView, DomainEntryView, EffectiveDomain,
    EffectiveDomainView, HeadersConfig, TlsVersion,
};
use vstd::prelude::*;

verus! {

/// Whether a setting is what an override gives, or the default where it gives
/// nothing.
pub open spec fn overrides<T>(given: Option<T>, default: T, setting: T) -> bool {
    &&& given matches Some(v) ==> setting == v
    &&& given is None ==> setting == default
}

/// An override of a check wins over the default, whether it switches the check
/// on or off.
pub proof fn law_check_override_wins(entry: DomainEntryView, defaults: DefaultsView, b: bool)
    ensures
        entry.checks.dns == Some(b) ==> config::resolved(entry, defaults).checks.dns == b,
        entry.checks.tls == Some(b) ==> config::resolved(entry, defaults).checks.tls == b,
        entry.checks.ct == Some(b) ==> config::resolved(entry, defaults).checks.ct == b,
        entry.checks.headers == Some(b) ==> config::resolved(entry, defaults).checks.headers == b,
        entry.checks.dns is None ==> config::resolved(entry, defaults).checks.dns
            == defaults.checks.dns,
        entry.checks.tls is None ==> config::resolved(entry, defaults).checks.tls
            == defaults.checks.tls,
        entry.checks.ct is None ==> config::resolved(entry, defaults).checks.ct
            == defaults.checks.ct,
        entry.checks.headers is None ==> config::resolved(entry, defaults).checks.headers
            == defaults.checks.headers,
{
}

/// Every other setting is what its override gives, and the default where none
/// is given; the name of the domain stays.
pub proof fn law_setting_override_wins(entry: DomainEntryView, defaults: DefaultsView)
    ensures
        ({
            let d = config::resolved(entry, defaults);
            &&& d.name == entry.name
            &&& overrides(entry.tls.min_version, defaults.tls.min_version, d.tls.min_version)
            &&& overrides(
                entry.tls.expiry_warning_days,
                defaults.tls.expiry_warning_days,
                d.tls.expiry_warning_days,
            )
            &&& overrides(
                entry.tls.allow_weak_ciphers,
                defaults.tls.allow_weak_ciphers,
                d.tls.allow_weak_ciphers,
            )
            &&& overrides(entry.headers.require, defaults.headers.require, d.headers.require)
            &&& overrides(
                entry.headers.hsts_min_max_age_seconds,
                defaults.headers.hsts_min_max_age_seconds,
                d.headers.hsts_min_max_age_seconds,
            )
            &&& overrides(
                entry.headers.hsts_require_include_subdomains,
                defaults.headers.hsts_require_include_subdomains,
                d.headers.hsts_require_include_subdomains,
            )
            &&& overrides(
                entry.headers.hsts_require_preload,
                defaults.headers.hsts_require_preload,
                d.headers.hsts_require_preload,
            )
            &&& overrides(
                entry.headers.require_frame_protection,
                defaults.headers.require_frame_protection,
                d.headers.require_frame_protection,
            )
            &&& overrides(
                entry.headers.timeout_seconds,
                defaults.headers.timeout_seconds,
                d.headers.timeout_seconds,
            )
            &&& overrides(
                entry.ct.allowed_issuers,
                defaults.ct.allowed_issuers,
                d.ct.allowed_issuers,
            )
            &&& overrides(
                entry.ct.pinned_fingerprints,
                defaults.ct.pinned_fingerprints,
                d.ct.pinned_fingerprints,
            )
            &&& overrides(
                entry.ct.fail_on_unknown_issuer,
                defaults.ct.fail_on_unknown_issuer,
                d.ct.fail_on_unknown_issuer,
            )
            &&& overrides(
                entry.ct.timeout_seconds,
                defaults.ct.timeout_seconds,
                d.ct.timeout_seconds,
            )
            &&& overrides(entry.ct.crtsh_url, defaults.ct.crtsh_url, d.ct.crtsh_url)
        }),
{
}

/// Every domain of a configuration is resolved, in its place, from its own entry
/// and the defaults.
pub proof fn law_every_domain_is_resolved(cfg: ConfigView, i: int)
    ensures
        config::effective(cfg).len() == cfg.domains.len(),
        0 <= i < cfg.domains.len() ==> {
            let d: EffectiveDomainView = config::effective(cfg)[i];
            &&& d.name == cfg.domains[i].name
            &&& overrides(cfg.domains[i].checks.ct, cfg.defaults.checks.ct, d.checks.ct)
            &&& d == config::resolved(cfg.domains[i], cfg.defaults)
        },
{
}

/// A configuration is read as it stands: its entries in their order, and the
/// lists of a check's settings entry by entry.
pub proof fn law_configuration_is_read_in_full(cfg: Config, i: int, j: int)
    ensures
        cfg@.domains.len() == cfg.domains@.len(),
        cfg@.state_file == cfg.state_file@,
        0 <= i < cfg.domains@.len() ==> {
            let entry = cfg.domains@[i];
            let view = cfg@.domains[i];
            &&& view.name == entry.name@
            &&& view.checks == entry.checks
            &&& view.tls == entry.tls
            &&& view.headers.hsts_min_max_age_seconds == entry.headers.hsts_min_max_age_seconds
            &&& view.headers.hsts_require_include_subdomains
                == entry.headers.hsts_require_include_subdomains
            &&& view.headers.hsts_require_preload == entry.headers.hsts_require_preload
            &&& view.headers.require_frame_protection == entry.headers.require_frame_protection
            &&& view.headers.timeout_seconds == entry.headers.timeout_seconds
            &&& view.ct.fail_on_unknown_issuer == entry.ct.fail_on_unknown_issuer
            &&& view.ct.timeout_seconds == entry.ct.timeout_seconds
            &&& view.headers.require is None <==> entry.headers.require is None
            &&& view.ct.allowed_issuers is None <==> entry.ct.allowed_issuers is None
            &&& view.ct.pinned_fingerprints is None <==> entry.ct.pinned_fingerprints is None
            &&& view.ct.crtsh_url is None <==> entry.ct.crtsh_url is None
            &&& entry.ct.crtsh_url matches Some(url) ==> view.ct.crtsh_url == Some(url@)
            &&& entry.ct.allowed_issuers matches Some(v) ==> {
                &&& view.ct.allowed_issuers->0.len() == v@.len()
                &&& 0 <= j < v@.len() ==> view.ct.allowed_issuers->0[j] == v@[j]@
            }
            &&& entry.ct.pinned_fingerprints matches Some(v) ==> {
                &&& view.ct.pinned_fingerprints->0.len() == v@.len()
                &&& 0 <= j < v@.len() ==> view.ct.pinned_fingerprints->0[j] == v@[j]@
            }
            &&& entry.headers.require matches Some(v) ==> {
                &&& view.headers.require->0.len() == v@.len()
                &&& 0 <= j < v@.len() ==> view.headers.require->0[j] == v@[j]@
            }
        },
        cfg@.defaults.checks == cfg.defaults.checks,
        cfg@.defaults.tls == cfg.defaults.tls,
        cfg@.defaults.headers == cfg.defaults.headers@,
        cfg@.defaults.ct == cfg.defaults.ct@,
{
}

/// The settings of the header check are read as they stand.
pub proof fn law_header_settings_are_read_in_full(cfg: HeadersConfig, i: int)
    ensures
        cfg@.require.len() == cfg.require@.len(),
        0 <= i < cfg.require@.len() ==> cfg@.require[i] == cfg.require@[i]@,
        cfg@.hsts_min_max_age_seconds == cfg.hsts_min_max_age_seconds,
        cfg@.hsts_require_include_subdomains == cfg.hsts_require_include_subdomains,
        cfg@.hsts_require_preload == cfg.hsts_require_preload,
        cfg@.require_frame_protection == cfg.require_frame_protection,
        cfg@.timeout_seconds == cfg.timeout_seconds,
{
}

/// The settings of the Certificate Transparency check are read as they stand.
pub proof fn law_ct_settings_are_read_in_full(cfg: CtConfig, i: int)
    ensures
        cfg@.allowed_issuers.len() == cfg.allowed_issuers@.len(),
        0 <= i < cfg.allowed_issuers@.len() ==> cfg@.allowed_issuers[i] == cfg.allowed_issuers@[i]@,
        cfg@.pinned_fingerprints.len() == cfg.pinned_fingerprints@.len(),
        0 <= i < cfg.pinned_fingerprints@.len() ==> cfg@.pinned_fingerprints[i]
            == cfg.pinned_fingerprints@[i]@,
        cfg@.fail_on_unknown_issuer == cfg.fail_on_unknown_issuer,
        cfg@.timeout_seconds == cfg.timeout_seconds,
        cfg@.crtsh_url == cfg.crtsh_url@,
{
}

/// The settings that hold where nothing is configured: every check runs, TLS 1.2
/// is enough, two weeks before expiry are too late, half a year of HSTS with
/// subdomains is asked for, and an unknown issuer fails.
pub proof fn law_built_in_settings()
    ensures
        ({
            let d = config::built_in();
            &&& d.checks.dns && d.checks.tls && d.checks.ct && d.checks.headers
            &&& d.tls.min_version == TlsVersion::Tls12
            &&& d.tls.expiry_warning_days == 14
            &&& !d.tls.allow_weak_ciphers
            &&& d.headers.require.len() == 3
            &&& d.headers.require[0] == "strict-transport-security"@
            &&& d.headers.require[1] == "x-content-type-options"@
            &&& d.headers.require[2] == "referrer-policy"@
            &&& d.headers.hsts_min_max_age_seconds == 180 * 24 * 60 * 60
            &&& d.headers.hsts_require_include_subdomains
            &&& !d.headers.hsts_require_preload
            &&& d.headers.require_frame_protection
            &&& d.headers.timeout_seconds == 10
            &&& d.ct.allowed_issuers.len() == 0
            &&& d.ct.pinned_fingerprints.len() == 0
            &&& d.ct.fail_on_unknown_issuer
            &&& d.ct.timeout_seconds == 15
            &&& d.ct.crtsh_url == "https://crt.sh/"@
        }),
{
}

/// Of the two versions the one is older than the other, and none than itself.
pub proof fn law_versions_are_ordered(a: TlsVersion, b: TlsVersion)
    ensures
        a.older_than(b) <==> a == TlsVersion::Tls12 && b == TlsVersion::Tls13,
        a == b || a.older_than(b) || b.older_than(a),
        a.name() == b.name() ==> a == b,
{
    reveal_strlit("TLS 1.2");
    reveal_strlit("TLS 1.3");
    assert("TLS 1.2"@[6] != "TLS 1.3"@[6]);
}

/// Resolved settings are read as they stand.
pub proof fn law_resolved_settings_are_read_in_full(
    d: EffectiveDomain,
    v: Seq<EffectiveDomain>,
    i: int,
)
    ensures
        d@.name == d.name@,
        d@.checks == d.checks,
        d@.tls == d.tls,
        d@.headers == d.headers@,
        d@.ct == d.ct@,
        config::effective_views(v).len() == v.len(),
        0 <= i < v.len() ==> config::effective_views(v)[i] == v[i]@,
{
}

/// What is said of a file that cannot be used names the file.
pub proof fn law_config_errors_name_the_file(path: String, why: String)
    ensures
        config::config_error_text(ConfigError::Read(path, why)) == "reading config file "@ + path@,
        config::config_error_text(ConfigError::Parse(path, why)) == "parsing config file "@ + path@,
        config::config_error_text(ConfigError::NoDomains(path)) == "config file "@ + path@
            + " defines no [[domains]] entries"@,
{
}

} // verus!
