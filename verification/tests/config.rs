use outpost::config::{
    ChecksEnabled, ChecksOverride, Config, ConfigError, ConfigFile, CtConfig, CtOverride, Defaults,
    DomainEntry, HeadersConfig, HeadersOverride, TlsConfig, TlsOverride, TlsVersion,
};
use toml::{Table, Value};

fn table(t: &Table, key: &str) -> Table {
    match t.get(key) {
        Some(Value::Table(t)) => t.clone(),
        _ => Table::new(),
    }
}

fn flag(t: &Table, key: &str) -> Option<bool> {
    t.get(key).and_then(|v| v.as_bool())
}

fn number(t: &Table, key: &str) -> Option<i64> {
    t.get(key).and_then(|v| v.as_integer())
}

fn text(t: &Table, key: &str) -> Option<String> {
    t.get(key).and_then(|v| v.as_str()).map(String::from)
}

fn list(t: &Table, key: &str) -> Option<Vec<String>> {
    t.get(key).and_then(|v| v.as_array()).map(|a| {
        a.iter()
            .map(|v| v.as_str().unwrap().to_string())
            .collect()
    })
}

fn version(t: &Table, key: &str) -> Option<TlsVersion> {
    text(t, key).map(|v| match v.as_str() {
        "1.2" => TlsVersion::Tls12,
        "1.3" => TlsVersion::Tls13,
        _ => panic!("no such version"),
    })
}

fn entry(t: &Table) -> DomainEntry {
    let checks = table(t, "checks");
    let tls = table(t, "tls");
    let ct = table(t, "ct");
    DomainEntry {
        name: text(t, "name").unwrap(),
        checks: ChecksOverride {
            dns: flag(&checks, "dns"),
            tls: flag(&checks, "tls"),
            ct: flag(&checks, "ct"),
            headers: flag(&checks, "headers"),
        },
        tls: TlsOverride {
            min_version: version(&tls, "min_version"),
            expiry_warning_days: number(&tls, "expiry_warning_days"),
            allow_weak_ciphers: flag(&tls, "allow_weak_ciphers"),
        },
        headers: HeadersOverride::default(),
        ct: CtOverride {
            allowed_issuers: list(&ct, "allowed_issuers"),
            ..CtOverride::default()
        },
    }
}

fn document(raw: &str) -> Config {
    let root: Table = raw.parse().unwrap();
    let defaults = table(&root, "defaults");
    let tls = table(&defaults, "tls");
    let ct = table(&defaults, "ct");
    let mut cfg = Config::default();
    if let Some(path) = text(&root, "state_file") {
        cfg.state_file = path;
    }
    if let Some(v) = version(&tls, "min_version") {
        cfg.defaults.tls.min_version = v;
    }
    if let Some(n) = number(&tls, "expiry_warning_days") {
        cfg.defaults.tls.expiry_warning_days = n;
    }
    if let Some(v) = list(&ct, "allowed_issuers") {
        cfg.defaults.ct.allowed_issuers = v;
    }
    if let Some(Value::Array(domains)) = root.get("domains") {
        cfg.domains = domains
            .iter()
            .map(|d| entry(d.as_table().unwrap()))
            .collect();
    }
    cfg
}

#[test]
fn parses_minimal_config() {
    let toml_str = r#"
            [[domains]]
            name = "example.com"
        "#;
    let cfg = document(toml_str);
    assert_eq!(cfg.domains.len(), 1);
    assert_eq!(cfg.domains[0].name, "example.com");
    let effective = cfg.effective_domains();
    assert!(effective[0].checks.dns);
    assert!(effective[0].checks.tls);
    assert!(effective[0].checks.ct);
    assert!(effective[0].checks.headers);
    assert_eq!(effective[0].tls.min_version, TlsVersion::Tls12);
    assert_eq!(effective[0].tls.expiry_warning_days, 14);
}

#[test]
fn per_domain_overrides_win_over_defaults() {
    let toml_str = r#"
            [defaults.tls]
            min_version = "1.2"
            expiry_warning_days = 14

            [defaults.ct]
            allowed_issuers = ["Let's Encrypt"]

            [[domains]]
            name = "strict.example.com"
            [domains.tls]
            min_version = "1.3"
            [domains.checks]
            ct = false
            [domains.ct]
            allowed_issuers = ["DigiCert Inc"]

            [[domains]]
            name = "default.example.com"
        "#;
    let cfg = document(toml_str);
    let effective = cfg.effective_domains();

    let strict = effective
        .iter()
        .find(|d| d.name == "strict.example.com")
        .unwrap();
    assert_eq!(strict.tls.min_version, TlsVersion::Tls13);
    assert!(!strict.checks.ct);
    assert_eq!(strict.ct.allowed_issuers, vec!["DigiCert Inc".to_string()]);

    let default_domain = effective
        .iter()
        .find(|d| d.name == "default.example.com")
        .unwrap();
    assert_eq!(default_domain.tls.min_version, TlsVersion::Tls12);
    assert!(default_domain.checks.ct);
    assert_eq!(
        default_domain.ct.allowed_issuers,
        vec!["Let's Encrypt".to_string()]
    );
}

#[test]
fn rejects_config_with_no_domains() {
    let cfg = document("state_file = \"outpost.state.json\"\n");
    let err = Config::load("outpost.toml", ConfigFile::Document(cfg)).unwrap_err();
    assert!(err.message().contains("no [[domains]]"));
    assert_eq!(
        err.message(),
        "config file outpost.toml defines no [[domains]] entries"
    );
}

#[test]
fn files_that_cannot_be_used_are_told_apart() {
    let err = Config::load("a.toml", ConfigFile::Unreadable("gone".to_string())).unwrap_err();
    assert_eq!(err.message(), "reading config file a.toml");
    assert!(matches!(err, ConfigError::Read(p, why) if p == "a.toml" && why == "gone"));
    let err = Config::load("a.toml", ConfigFile::Unparseable("bad".to_string())).unwrap_err();
    assert_eq!(err.message(), "parsing config file a.toml");
    assert!(matches!(err, ConfigError::Parse(p, why) if p == "a.toml" && why == "bad"));
}

#[test]
fn a_document_with_domains_is_loaded() {
    let cfg = document("[[domains]]\nname = \"a.example\"\n");
    let loaded = Config::load("outpost.toml", ConfigFile::Document(cfg)).unwrap();
    assert_eq!(loaded.domains.len(), 1);
    assert_eq!(loaded.state_file, "outpost.state.json");
}

#[test]
fn built_in_defaults() {
    let checks = ChecksEnabled::default();
    assert!(checks.dns && checks.tls && checks.ct && checks.headers);
    let tls = TlsConfig::default();
    assert_eq!(tls.min_version, TlsVersion::Tls12);
    assert_eq!(tls.expiry_warning_days, 14);
    assert!(!tls.allow_weak_ciphers);
    let headers = HeadersConfig::default();
    assert_eq!(
        headers.require,
        vec![
            "strict-transport-security",
            "x-content-type-options",
            "referrer-policy"
        ]
    );
    assert_eq!(headers.hsts_min_max_age_seconds, 15_552_000);
    assert!(headers.hsts_require_include_subdomains);
    assert!(!headers.hsts_require_preload);
    assert!(headers.require_frame_protection);
    assert_eq!(headers.timeout_seconds, 10);
    let ct = CtConfig::default();
    assert!(ct.allowed_issuers.is_empty());
    assert!(ct.pinned_fingerprints.is_empty());
    assert!(ct.fail_on_unknown_issuer);
    assert_eq!(ct.timeout_seconds, 15);
    assert_eq!(ct.crtsh_url, "https://crt.sh/");
}

#[test]
fn every_setting_can_be_overridden() {
    let entry = DomainEntry {
        name: "a.example".to_string(),
        checks: ChecksOverride {
            dns: Some(false),
            tls: None,
            ct: None,
            headers: Some(false),
        },
        tls: TlsOverride {
            min_version: None,
            expiry_warning_days: Some(30),
            allow_weak_ciphers: Some(true),
        },
        headers: HeadersOverride {
            require: Some(vec!["x".to_string()]),
            hsts_min_max_age_seconds: Some(1),
            hsts_require_include_subdomains: Some(false),
            hsts_require_preload: Some(true),
            require_frame_protection: Some(false),
            timeout_seconds: Some(2),
        },
        ct: CtOverride {
            allowed_issuers: Some(vec!["y".to_string()]),
            pinned_fingerprints: Some(vec!["z".to_string()]),
            fail_on_unknown_issuer: Some(false),
            timeout_seconds: Some(3),
            crtsh_url: Some("u".to_string()),
        },
    };
    let d = entry.resolve(&Defaults::default());
    assert_eq!(d.name, "a.example");
    assert!(!d.checks.dns && d.checks.tls && d.checks.ct && !d.checks.headers);
    assert_eq!(d.tls.min_version, TlsVersion::Tls12);
    assert_eq!(d.tls.expiry_warning_days, 30);
    assert!(d.tls.allow_weak_ciphers);
    assert_eq!(d.headers.require, vec!["x"]);
    assert_eq!(d.headers.hsts_min_max_age_seconds, 1);
    assert!(!d.headers.hsts_require_include_subdomains);
    assert!(d.headers.hsts_require_preload);
    assert!(!d.headers.require_frame_protection);
    assert_eq!(d.headers.timeout_seconds, 2);
    assert_eq!(d.ct.allowed_issuers, vec!["y"]);
    assert_eq!(d.ct.pinned_fingerprints, vec!["z"]);
    assert!(!d.ct.fail_on_unknown_issuer);
    assert_eq!(d.ct.timeout_seconds, 3);
    assert_eq!(d.ct.crtsh_url, "u");
}

#[test]
fn versions_are_ordered_and_named() {
    assert!(TlsVersion::Tls12.is_older_than(TlsVersion::Tls13));
    assert!(!TlsVersion::Tls13.is_older_than(TlsVersion::Tls12));
    assert!(!TlsVersion::Tls12.is_older_than(TlsVersion::Tls12));
    assert!(TlsVersion::Tls12 < TlsVersion::Tls13);
    assert_eq!(TlsVersion::Tls12.label(), "TLS 1.2");
    assert_eq!(TlsVersion::Tls13.label(), "TLS 1.3");
}
