//! Configuration (`outpost.toml`): its schema, its defaults, and the settings
//! that hold for each domain.

use crate::text;
use vstd::prelude::*;

verus! {

/// The value of an override, or the default where nothing is overridden.
pub open spec fn either<T>(given: Option<T>, default: T) -> T {
    match given {
        Some(v) => v,
        None => default,
    }
}

/// The texts of an optional list of strings.
pub open spec fn option_texts(v: Option<Vec<String>>) -> Option<Seq<Seq<char>>> {
    match v {
        Some(v) => Some(text::texts(v@)),
        None => None,
    }
}

/// The text of an optional string.
pub open spec fn option_text(s: Option<String>) -> Option<Seq<char>> {
    match s {
        Some(s) => Some(s@),
        None => None,
    }
}

/// The given list, or the default where none is given.
fn texts_or(given: &Option<Vec<String>>, default: &Vec<String>) -> (r: Vec<String>)
    ensures
        text::texts(r@) == either(option_texts(*given), text::texts(default@)),
{
    match given {
        Some(v) => text::clone_texts(v),
        None => text::clone_texts(default),
    }
}

/// The given text, or the default where none is given.
fn text_or(given: &Option<String>, default: &String) -> (r: String)
    ensures
        r@ == either(option_text(*given), default@),
{
    match given {
        Some(s) => s.clone(),
        None => default.clone(),
    }
}

// ---------------------------------------------------------------------
// Which checks run
// ---------------------------------------------------------------------

fn default_true() -> (r: bool)
    ensures
        r,
{
    true
}

/// Which checks run.
#[derive(Debug, Clone, Copy)]
pub struct ChecksEnabled {
    pub dns: bool,
    pub tls: bool,
    pub ct: bool,
    pub headers: bool,
}

/// By default every check runs.
pub open spec fn default_checks() -> ChecksEnabled {
    ChecksEnabled { dns: true, tls: true, ct: true, headers: true }
}

impl Default for ChecksEnabled {
    fn default() -> (r: Self)
        ensures
            r == default_checks(),
    {
        ChecksEnabled {
            dns: default_true(),
            tls: default_true(),
            ct: default_true(),
            headers: default_true(),
        }
    }
}

/// Partial override of [`ChecksEnabled`] for a single domain.
#[derive(Debug, Clone)]
pub struct ChecksOverride {
    pub dns: Option<bool>,
    pub tls: Option<bool>,
    pub ct: Option<bool>,
    pub headers: Option<bool>,
}

/// No override.
pub open spec fn no_checks_override() -> ChecksOverride {
    ChecksOverride { dns: None, tls: None, ct: None, headers: None }
}

impl Default for ChecksOverride {
    fn default() -> (r: Self)
        ensures
            r == no_checks_override(),
    {
        ChecksOverride { dns: None, tls: None, ct: None, headers: None }
    }
}

// ---------------------------------------------------------------------
// TLS
// ---------------------------------------------------------------------

/// A TLS protocol version, the older one first.
#[derive(Debug, Clone, Copy, PartialEq, Eq, PartialOrd, Ord, Structural)]
pub enum TlsVersion {
    Tls12,
    Tls13,
}

impl TlsVersion {
    /// The name of a version.
    pub open spec fn name(self) -> Seq<char> {
        match self {
            TlsVersion::Tls12 => "TLS 1.2"@,
            TlsVersion::Tls13 => "TLS 1.3"@,
        }
    }

    /// The name of a version.
    pub fn label(self) -> (r: &'static str)
        ensures
            r@ == self.name(),
    {
        match self {
            TlsVersion::Tls12 => "TLS 1.2",
            TlsVersion::Tls13 => "TLS 1.3",
        }
    }

    /// Whether this version is older than `other`.
    pub open spec fn older_than(self, other: TlsVersion) -> bool {
        self == TlsVersion::Tls12 && other == TlsVersion::Tls13
    }

    /// Whether this version is older than `other`.
    pub fn is_older_than(self, other: TlsVersion) -> (r: bool)
        ensures
            r == self.older_than(other),
    {
        match (self, other) {
            (TlsVersion::Tls12, TlsVersion::Tls13) => true,
            _ => false,
        }
    }
}

/// Settings of the TLS check.
#[derive(Debug, Clone)]
pub struct TlsConfig {
    pub min_version: TlsVersion,
    pub expiry_warning_days: i64,
    pub allow_weak_ciphers: bool,
}

fn default_tls_min_version() -> (r: TlsVersion)
    ensures
        r == TlsVersion::Tls12,
{
    TlsVersion::Tls12
}

fn default_expiry_warning_days() -> (r: i64)
    ensures
        r == 14,
{
    14
}

/// The default settings of the TLS check.
pub open spec fn default_tls() -> TlsConfig {
    TlsConfig {
        min_version: TlsVersion::Tls12,
        expiry_warning_days: 14,
        allow_weak_ciphers: false,
    }
}

impl Default for TlsConfig {
    fn default() -> (r: Self)
        ensures
            r == default_tls(),
    {
        TlsConfig {
            min_version: default_tls_min_version(),
            expiry_warning_days: default_expiry_warning_days(),
            allow_weak_ciphers: false,
        }
    }
}

/// Partial override of [`TlsConfig`] for a single domain.
#[derive(Debug, Clone)]
pub struct TlsOverride {
    pub min_version: Option<TlsVersion>,
    pub expiry_warning_days: Option<i64>,
    pub allow_weak_ciphers: Option<bool>,
}

/// No override.
pub open spec fn no_tls_override() -> TlsOverride {
    TlsOverride { min_version: None, expiry_warning_days: None, allow_weak_ciphers: None }
}

impl Default for TlsOverride {
    fn default() -> (r: Self)
        ensures
            r == no_tls_override(),
    {
        TlsOverride { min_version: None, expiry_warning_days: None, allow_weak_ciphers: None }
    }
}

// ---------------------------------------------------------------------
// HTTP headers
// ---------------------------------------------------------------------

/// Settings of the HTTP header check.
#[derive(Debug, Clone)]
pub struct HeadersConfig {
    /// Header names that must be present.
    pub require: Vec<String>,
    /// Minimum `max-age` accepted for Strict-Transport-Security.
    pub hsts_min_max_age_seconds: i64,
    pub hsts_require_include_subdomains: bool,
    pub hsts_require_preload: bool,
    /// Require either X-Frame-Options or a CSP `frame-ancestors` directive.
    pub require_frame_protection: bool,
    pub timeout_seconds: u64,
}

/// The contents of a [`HeadersConfig`].
#[verifier::ext_equal]
pub struct HeadersConfigView {
    pub require: Seq<Seq<char>>,
    pub hsts_min_max_age_seconds: i64,
    pub hsts_require_include_subdomains: bool,
    pub hsts_require_preload: bool,
    pub require_frame_protection: bool,
    pub timeout_seconds: u64,
}

impl View for HeadersConfig {
    type V = HeadersConfigView;

    open spec fn view(&self) -> HeadersConfigView {
        HeadersConfigView {
            require: text::texts(self.require@),
            hsts_min_max_age_seconds: self.hsts_min_max_age_seconds,
            hsts_require_include_subdomains: self.hsts_require_include_subdomains,
            hsts_require_preload: self.hsts_require_preload,
            require_frame_protection: self.require_frame_protection,
            timeout_seconds: self.timeout_seconds,
        }
    }
}

/// The headers that are required by default.
pub open spec fn default_require() -> Seq<Seq<char>> {
    seq!["strict-transport-security"@, "x-content-type-options"@, "referrer-policy"@]
}

fn default_required_headers() -> (r: Vec<String>)
    ensures
        text::texts(r@) == default_require(),
{
    let mut r: Vec<String> = Vec::new();
    r.push("strict-transport-security".to_owned());
    r.push("x-content-type-options".to_owned());
    r.push("referrer-policy".to_owned());
    assert(text::texts(r@) =~= default_require());
    r
}

/// 180 days.
fn default_hsts_max_age() -> (r: i64)
    ensures
        r == 15_552_000,
{
    15_552_000
}

fn default_http_timeout() -> (r: u64)
    ensures
        r == 10,
{
    10
}

/// The default settings of the HTTP header check.
pub open spec fn default_headers() -> HeadersConfigView {
    HeadersConfigView {
        require: default_require(),
        hsts_min_max_age_seconds: 15_552_000,
        hsts_require_include_subdomains: true,
        hsts_require_preload: false,
        require_frame_protection: true,
        timeout_seconds: 10,
    }
}

impl Default for HeadersConfig {
    fn default() -> (r: Self)
        ensures
            r@ == default_headers(),
    {
        HeadersConfig {
            require: default_required_headers(),
            hsts_min_max_age_seconds: default_hsts_max_age(),
            hsts_require_include_subdomains: default_true(),
            hsts_require_preload: false,
            require_frame_protection: default_true(),
            timeout_seconds: default_http_timeout(),
        }
    }
}

/// Partial override of [`HeadersConfig`] for a single domain.
#[derive(Debug, Clone)]
pub struct HeadersOverride {
    pub require: Option<Vec<String>>,
    pub hsts_min_max_age_seconds: Option<i64>,
    pub hsts_require_include_subdomains: Option<bool>,
    pub hsts_require_preload: Option<bool>,
    pub require_frame_protection: Option<bool>,
    pub timeout_seconds: Option<u64>,
}

/// The contents of a [`HeadersOverride`].
#[verifier::ext_equal]
pub struct HeadersOverrideView {
    pub require: Option<Seq<Seq<char>>>,
    pub hsts_min_max_age_seconds: Option<i64>,
    pub hsts_require_include_subdomains: Option<bool>,
    pub hsts_require_preload: Option<bool>,
    pub require_frame_protection: Option<bool>,
    pub timeout_seconds: Option<u64>,
}

impl View for HeadersOverride {
    type V = HeadersOverrideView;

    open spec fn view(&self) -> HeadersOverrideView {
        HeadersOverrideView {
            require: option_texts(self.require),
            hsts_min_max_age_seconds: self.hsts_min_max_age_seconds,
            hsts_require_include_subdomains: self.hsts_require_include_subdomains,
            hsts_require_preload: self.hsts_require_preload,
            require_frame_protection: self.require_frame_protection,
            timeout_seconds: self.timeout_seconds,
        }
    }
}

/// No override.
pub open spec fn no_headers_override() -> HeadersOverrideView {
    HeadersOverrideView {
        require: None,
        hsts_min_max_age_seconds: None,
        hsts_require_include_subdomains: None,
        hsts_require_preload: None,
        require_frame_protection: None,
        timeout_seconds: None,
    }
}

impl Default for HeadersOverride {
    fn default() -> (r: Self)
        ensures
            r@ == no_headers_override(),
    {
        HeadersOverride {
            require: None,
            hsts_min_max_age_seconds: None,
            hsts_require_include_subdomains: None,
            hsts_require_preload: None,
            require_frame_protection: None,
            timeout_seconds: None,
        }
    }
}

// ---------------------------------------------------------------------
// Certificate Transparency
// ---------------------------------------------------------------------

/// Settings of the Certificate Transparency check.
#[derive(Debug, Clone)]
pub struct CtConfig {
    /// CA organization names that may issue certificates for this domain.
    pub allowed_issuers: Vec<String>,
    /// SHA-256 fingerprints (hex, no colons) that the live leaf certificate
    /// may have.
    pub pinned_fingerprints: Vec<String>,
    /// Fail the check when a logged certificate's issuer is not allowed.
    pub fail_on_unknown_issuer: bool,
    pub timeout_seconds: u64,
    pub crtsh_url: String,
}

/// The contents of a [`CtConfig`].
#[verifier::ext_equal]
pub struct CtConfigView {
    pub allowed_issuers: Seq<Seq<char>>,
    pub pinned_fingerprints: Seq<Seq<char>>,
    pub fail_on_unknown_issuer: bool,
    pub timeout_seconds: u64,
    pub crtsh_url: Seq<char>,
}

impl View for CtConfig {
    type V = CtConfigView;

    open spec fn view(&self) -> CtConfigView {
        CtConfigView {
            allowed_issuers: text::texts(self.allowed_issuers@),
            pinned_fingerprints: text::texts(self.pinned_fingerprints@),
            fail_on_unknown_issuer: self.fail_on_unknown_issuer,
            timeout_seconds: self.timeout_seconds,
            crtsh_url: self.crtsh_url@,
        }
    }
}

fn default_crtsh_timeout() -> (r: u64)
    ensures
        r == 15,
{
    15
}

fn default_crtsh_url() -> (r: String)
    ensures
        r@ == "https://crt.sh/"@,
{
    "https://crt.sh/".to_owned()
}

/// The default settings of the Certificate Transparency check.
pub open spec fn default_ct() -> CtConfigView {
    CtConfigView {
        allowed_issuers: Seq::empty(),
        pinned_fingerprints: Seq::empty(),
        fail_on_unknown_issuer: true,
        timeout_seconds: 15,
        crtsh_url: "https://crt.sh/"@,
    }
}

impl Default for CtConfig {
    fn default() -> (r: Self)
        ensures
            r@ == default_ct(),
    {
        let r = CtConfig {
            allowed_issuers: Vec::new(),
            pinned_fingerprints: Vec::new(),
            fail_on_unknown_issuer: default_true(),
            timeout_seconds: default_crtsh_timeout(),
            crtsh_url: default_crtsh_url(),
        };
        assert(r@ =~= default_ct());
        r
    }
}

/// Partial override of [`CtConfig`] for a single domain.
#[derive(Debug, Clone)]
pub struct CtOverride {
    pub allowed_issuers: Option<Vec<String>>,
    pub pinned_fingerprints: Option<Vec<String>>,
    pub fail_on_unknown_issuer: Option<bool>,
    pub timeout_seconds: Option<u64>,
    pub crtsh_url: Option<String>,
}

/// The contents of a [`CtOverride`].
#[verifier::ext_equal]
pub struct CtOverrideView {
    pub allowed_issuers: Option<Seq<Seq<char>>>,
    pub pinned_fingerprints: Option<Seq<Seq<char>>>,
    pub fail_on_unknown_issuer: Option<bool>,
    pub timeout_seconds: Option<u64>,
    pub crtsh_url: Option<Seq<char>>,
}

impl View for CtOverride {
    type V = CtOverrideView;

    open spec fn view(&self) -> CtOverrideView {
        CtOverrideView {
            allowed_issuers: option_texts(self.allowed_issuers),
            pinned_fingerprints: option_texts(self.pinned_fingerprints),
            fail_on_unknown_issuer: self.fail_on_unknown_issuer,
            timeout_seconds: self.timeout_seconds,
            crtsh_url: option_text(self.crtsh_url),
        }
    }
}

/// No override.
pub open spec fn no_ct_override() -> CtOverrideView {
    CtOverrideView {
        allowed_issuers: None,
        pinned_fingerprints: None,
        fail_on_unknown_issuer: None,
        timeout_seconds: None,
        crtsh_url: None,
    }
}

impl Default for CtOverride {
    fn default() -> (r: Self)
        ensures
            r@ == no_ct_override(),
    {
        CtOverride {
            allowed_issuers: None,
            pinned_fingerprints: None,
            fail_on_unknown_issuer: None,
            timeout_seconds: None,
            crtsh_url: None,
        }
    }
}

// ---------------------------------------------------------------------
// Defaults and domains
// ---------------------------------------------------------------------

/// The `[defaults]` table.
#[derive(Debug, Clone)]
pub struct Defaults {
    pub checks: ChecksEnabled,
    pub tls: TlsConfig,
    pub headers: HeadersConfig,
    pub ct: CtConfig,
}

/// The contents of [`Defaults`].
#[verifier::ext_equal]
pub struct DefaultsView {
    pub checks: ChecksEnabled,
    pub tls: TlsConfig,
    pub headers: HeadersConfigView,
    pub ct: CtConfigView,
}

impl View for Defaults {
    type V = DefaultsView;

    open spec fn view(&self) -> DefaultsView {
        DefaultsView {
            checks: self.checks,
            tls: self.tls,
            headers: self.headers@,
            ct: self.ct@,
        }
    }
}

/// The settings that hold where a configuration says nothing.
pub open spec fn built_in() -> DefaultsView {
    DefaultsView {
        checks: default_checks(),
        tls: default_tls(),
        headers: default_headers(),
        ct: default_ct(),
    }
}

impl Default for Defaults {
    fn default() -> (r: Self)
        ensures
            r@ == built_in(),
    {
        Defaults {
            checks: ChecksEnabled::default(),
            tls: TlsConfig::default(),
            headers: HeadersConfig::default(),
            ct: CtConfig::default(),
        }
    }
}

/// One `[[domains]]` entry: a domain name plus optional overrides.
#[derive(Debug, Clone)]
pub struct DomainEntry {
    pub name: String,
    pub checks: ChecksOverride,
    pub tls: TlsOverride,
    pub headers: HeadersOverride,
    pub ct: CtOverride,
}

/// The contents of a [`DomainEntry`].
#[verifier::ext_equal]
pub struct DomainEntryView {
    pub name: Seq<char>,
    pub checks: ChecksOverride,
    pub tls: TlsOverride,
    pub headers: HeadersOverrideView,
    pub ct: CtOverrideView,
}

impl View for DomainEntry {
    type V = DomainEntryView;

    open spec fn view(&self) -> DomainEntryView {
        DomainEntryView {
            name: self.name@,
            checks: self.checks,
            tls: self.tls,
            headers: self.headers@,
            ct: self.ct@,
        }
    }
}

/// The contents of a list of entries.
pub open spec fn entry_views(v: Seq<DomainEntry>) -> Seq<DomainEntryView> {
    Seq::new(v.len(), |i: int| v[i]@)
}

/// Fully resolved configuration for a single domain.
#[derive(Debug, Clone)]
pub struct EffectiveDomain {
    pub name: String,
    pub checks: ChecksEnabled,
    pub tls: TlsConfig,
    pub headers: HeadersConfig,
    pub ct: CtConfig,
}

/// The contents of an [`EffectiveDomain`].
#[verifier::ext_equal]
pub struct EffectiveDomainView {
    pub name: Seq<char>,
    pub checks: ChecksEnabled,
    pub tls: TlsConfig,
    pub headers: HeadersConfigView,
    pub ct: CtConfigView,
}

impl View for EffectiveDomain {
    type V = EffectiveDomainView;

    open spec fn view(&self) -> EffectiveDomainView {
        EffectiveDomainView {
            name: self.name@,
            checks: self.checks,
            tls: self.tls,
            headers: self.headers@,
            ct: self.ct@,
        }
    }
}

/// The contents of a list of resolved domains.
pub open spec fn effective_views(v: Seq<EffectiveDomain>) -> Seq<EffectiveDomainView> {
    Seq::new(v.len(), |i: int| v[i]@)
}

/// Which checks run for a domain.
pub open spec fn resolved_checks(given: ChecksOverride, default: ChecksEnabled) -> ChecksEnabled {
    ChecksEnabled {
        dns: either(given.dns, default.dns),
        tls: either(given.tls, default.tls),
        ct: either(given.ct, default.ct),
        headers: either(given.headers, default.headers),
    }
}

/// The TLS settings of a domain.
pub open spec fn resolved_tls(given: TlsOverride, default: TlsConfig) -> TlsConfig {
    TlsConfig {
        min_version: either(given.min_version, default.min_version),
        expiry_warning_days: either(given.expiry_warning_days, default.expiry_warning_days),
        allow_weak_ciphers: either(given.allow_weak_ciphers, default.allow_weak_ciphers),
    }
}

/// The HTTP header settings of a domain.
pub open spec fn resolved_headers(
    given: HeadersOverrideView,
    default: HeadersConfigView,
) -> HeadersConfigView {
    HeadersConfigView {
        require: either(given.require, default.require),
        hsts_min_max_age_seconds: either(
            given.hsts_min_max_age_seconds,
            default.hsts_min_max_age_seconds,
        ),
        hsts_require_include_subdomains: either(
            given.hsts_require_include_subdomains,
            default.hsts_require_include_subdomains,
        ),
        hsts_require_preload: either(given.hsts_require_preload, default.hsts_require_preload),
        require_frame_protection: either(
            given.require_frame_protection,
            default.require_frame_protection,
        ),
        timeout_seconds: either(given.timeout_seconds, default.timeout_seconds),
    }
}

/// The Certificate Transparency settings of a domain.
pub open spec fn resolved_ct(given: CtOverrideView, default: CtConfigView) -> CtConfigView {
    CtConfigView {
        allowed_issuers: either(given.allowed_issuers, default.allowed_issuers),
        pinned_fingerprints: either(given.pinned_fingerprints, default.pinned_fingerprints),
        fail_on_unknown_issuer: either(
            given.fail_on_unknown_issuer,
            default.fail_on_unknown_issuer,
        ),
        timeout_seconds: either(given.timeout_seconds, default.timeout_seconds),
        crtsh_url: either(given.crtsh_url, default.crtsh_url),
    }
}

/// The settings that hold for a domain: each override where it is given, the
/// default elsewhere.
pub open spec fn resolved(entry: DomainEntryView, defaults: DefaultsView) -> EffectiveDomainView {
    EffectiveDomainView {
        name: entry.name,
        checks: resolved_checks(entry.checks, defaults.checks),
        tls: resolved_tls(entry.tls, defaults.tls),
        headers: resolved_headers(entry.headers, defaults.headers),
        ct: resolved_ct(entry.ct, defaults.ct),
    }
}

impl ChecksOverride {
    fn resolve(&self, default: &ChecksEnabled) -> (r: ChecksEnabled)
        ensures
            r == resolved_checks(*self, *default),
    {
        ChecksEnabled {
            dns: self.dns.unwrap_or(default.dns),
            tls: self.tls.unwrap_or(default.tls),
            ct: self.ct.unwrap_or(default.ct),
            headers: self.headers.unwrap_or(default.headers),
        }
    }
}

impl TlsOverride {
    fn resolve(&self, default: &TlsConfig) -> (r: TlsConfig)
        ensures
            r == resolved_tls(*self, *default),
    {
        TlsConfig {
            min_version: self.min_version.unwrap_or(default.min_version),
            expiry_warning_days: self.expiry_warning_days.unwrap_or(default.expiry_warning_days),
            allow_weak_ciphers: self.allow_weak_ciphers.unwrap_or(default.allow_weak_ciphers),
        }
    }
}

impl HeadersOverride {
    fn resolve(&self, default: &HeadersConfig) -> (r: HeadersConfig)
        ensures
            r@ == resolved_headers(self@, default@),
    {
        HeadersConfig {
            require: texts_or(&self.require, &default.require),
            hsts_min_max_age_seconds: self.hsts_min_max_age_seconds.unwrap_or(
                default.hsts_min_max_age_seconds,
            ),
            hsts_require_include_subdomains: self.hsts_require_include_subdomains.unwrap_or(
                default.hsts_require_include_subdomains,
            ),
            hsts_require_preload: self.hsts_require_preload.unwrap_or(default.hsts_require_preload),
            require_frame_protection: self.require_frame_protection.unwrap_or(
                default.require_frame_protection,
            ),
            timeout_seconds: self.timeout_seconds.unwrap_or(default.timeout_seconds),
        }
    }
}

impl CtOverride {
    fn resolve(&self, default: &CtConfig) -> (r: CtConfig)
        ensures
            r@ == resolved_ct(self@, default@),
    {
        CtConfig {
            allowed_issuers: texts_or(&self.allowed_issuers, &default.allowed_issuers),
            pinned_fingerprints: texts_or(&self.pinned_fingerprints, &default.pinned_fingerprints),
            fail_on_unknown_issuer: self.fail_on_unknown_issuer.unwrap_or(
                default.fail_on_unknown_issuer,
            ),
            timeout_seconds: self.timeout_seconds.unwrap_or(default.timeout_seconds),
            crtsh_url: text_or(&self.crtsh_url, &default.crtsh_url),
        }
    }
}

impl DomainEntry {
    /// The settings that hold for this domain.
    pub fn resolve(&self, defaults: &Defaults) -> (r: EffectiveDomain)
        ensures
            r@ == resolved(self@, defaults@),
    {
        EffectiveDomain {
            name: self.name.clone(),
            checks: self.checks.resolve(&defaults.checks),
            tls: self.tls.resolve(&defaults.tls),
            headers: self.headers.resolve(&defaults.headers),
            ct: self.ct.resolve(&defaults.ct),
        }
    }
}

// ---------------------------------------------------------------------
// The configuration file
// ---------------------------------------------------------------------

/// Top-level `outpost.toml` document.
#[derive(Debug, Clone)]
pub struct Config {
    /// Where the Certificate Transparency baseline is persisted.
    pub state_file: String,
    /// Defaults applied to every domain unless overridden.
    pub defaults: Defaults,
    /// Domains to scan.
    pub domains: Vec<DomainEntry>,
}

/// The contents of a [`Config`].
#[verifier::ext_equal]
pub struct ConfigView {
    pub state_file: Seq<char>,
    pub defaults: DefaultsView,
    pub domains: Seq<DomainEntryView>,
}

impl View for Config {
    type V = ConfigView;

    open spec fn view(&self) -> ConfigView {
        ConfigView {
            state_file: self.state_file@,
            defaults: self.defaults@,
            domains: entry_views(self.domains@),
        }
    }
}

/// The settings that hold for each domain of a configuration, in its order.
pub open spec fn effective(cfg: ConfigView) -> Seq<EffectiveDomainView> {
    Seq::new(cfg.domains.len(), |i: int| resolved(cfg.domains[i], cfg.defaults))
}

/// What came of reading a configuration file.
pub enum ConfigFile {
    /// The file could not be read, for this reason.
    Unreadable(String),
    /// Its contents are no valid document, for this reason.
    Unparseable(String),
    /// The document.
    Document(Config),
}

/// Why a configuration file cannot be used.
#[derive(Debug, Clone)]
pub enum ConfigError {
    /// The file at the path could not be read, for this reason.
    Read(String, String),
    /// The file at the path is no valid document, for this reason.
    Parse(String, String),
    /// The file at the path names no domain.
    NoDomains(String),
}

/// The message for a [`ConfigError`].
pub open spec fn config_error_text(e: ConfigError) -> Seq<char> {
    match e {
        ConfigError::Read(path, _) => "reading config file "@ + path@,
        ConfigError::Parse(path, _) => "parsing config file "@ + path@,
        ConfigError::NoDomains(path) => "config file "@ + path@
            + " defines no [[domains]] entries"@,
    }
}

impl ConfigError {
    /// The message for this error.
    pub fn message(&self) -> (r: String)
        ensures
            r@ == config_error_text(*self),
    {
        match self {
            ConfigError::Read(path, _) => "reading config file ".to_owned().concat(path.as_str()),
            ConfigError::Parse(path, _) => "parsing config file ".to_owned().concat(path.as_str()),
            ConfigError::NoDomains(path) => "config file ".to_owned().concat(path.as_str()).concat(
                " defines no [[domains]] entries",
            ),
        }
    }
}

fn default_state_file() -> (r: String)
    ensures
        r@ == "outpost.state.json"@,
{
    "outpost.state.json".to_owned()
}

impl Default for Config {
    fn default() -> (r: Self)
        ensures
            r@ == (ConfigView {
                state_file: "outpost.state.json"@,
                defaults: built_in(),
                domains: Seq::empty(),
            }),
    {
        let r = Config {
            state_file: default_state_file(),
            defaults: Defaults::default(),
            domains: Vec::new(),
        };
        assert(r@.domains =~= Seq::<DomainEntryView>::empty());
        r
    }
}

impl Config {
    /// The configuration in the file at `path`, given what came of reading it.
    /// A document without domains is refused.
    pub fn load(path: &str, file: ConfigFile) -> (r: Result<Config, ConfigError>)
        ensures
            match file {
                ConfigFile::Unreadable(why) => r matches Err(ConfigError::Read(p, w)) && p@ == path@
                    && w@ == why@,
                ConfigFile::Unparseable(why) => r matches Err(ConfigError::Parse(p, w)) && p@
                    == path@ && w@ == why@,
                ConfigFile::Document(cfg) => if cfg@.domains.len() == 0 {
                    r matches Err(ConfigError::NoDomains(p)) && p@ == path@
                } else {
                    r == Ok::<Config, ConfigError>(cfg)
                },
            },
    {
        match file {
            ConfigFile::Unreadable(why) => Err(ConfigError::Read(path.to_owned(), why)),
            ConfigFile::Unparseable(why) => Err(ConfigError::Parse(path.to_owned(), why)),
            ConfigFile::Document(cfg) => {
                if cfg.domains.len() == 0 {
                    Err(ConfigError::NoDomains(path.to_owned()))
                } else {
                    Ok(cfg)
                }
            },
        }
    }

    /// The settings that hold for each domain, in the order of the file.
    pub fn effective_domains(&self) -> (r: Vec<EffectiveDomain>)
        ensures
            effective_views(r@) == effective(self@),
    {
        let mut r: Vec<EffectiveDomain> = Vec::new();
        let ghost all = effective(self@);
        assert(effective_views(r@) =~= all.take(0));
        for i in 0..self.domains.len()
            invariant
                all == effective(self@),
                effective_views(r@) == all.take(i as int),
        {
            let ghost before = r@;
            let d = self.domains[i].resolve(&self.defaults);
            r.push(d);
            assert(effective_views(r@) =~= effective_views(before).push(d@));
            assert(all.take(i + 1) =~= all.take(i as int).push(all[i as int]));
        }
        assert(all.take(all.len() as int) =~= all);
        r
    }
}

// ---------------------------------------------------------------------
// Laws
// ---------------------------------------------------------------------

/// A domain without overrides has the defaults.
pub proof fn law_no_override_is_default(name: Seq<char>, defaults: DefaultsView)
    ensures
        resolved(
            DomainEntryView {
                name,
                checks: no_checks_override(),
                tls: no_tls_override(),
                headers: no_headers_override(),
                ct: no_ct_override(),
            },
            defaults,
        ) == (EffectiveDomainView {
            name,
            checks: defaults.checks,
            tls: defaults.tls,
            headers: defaults.headers,
            ct: defaults.ct,
        }),
{
}

/// The overrides of one domain bear on that domain alone: another entry in its
/// place changes the settings at that place and no others.
pub proof fn law_overrides_are_per_domain(cfg: ConfigView, i: int, entry: DomainEntryView)
    requires
        0 <= i < cfg.domains.len(),
    ensures
        effective(ConfigView { domains: cfg.domains.update(i, entry), ..cfg }) == effective(
            cfg,
        ).update(i, resolved(entry, cfg.defaults)),
{
    assert(effective(ConfigView { domains: cfg.domains.update(i, entry), ..cfg }) =~= effective(
        cfg,
    ).update(i, resolved(entry, cfg.defaults)));
}

} // verus!
