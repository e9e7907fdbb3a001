//! Front-door hygiene checks for a domain: DNSSEC, TLS, Certificate
//! Transparency and HTTP security headers.
//!
//! Each check decides over values that were observed beforehand; nothing in
//! this crate reads a file or opens a connection.

pub mod clock;
pub mod config;
pub mod config_laws;
pub mod ct;
pub mod ct_laws;
pub mod dns;
pub mod dns_laws;
pub mod fix;
pub mod fix_laws;
pub mod headers;
pub mod headers_check_laws;
pub mod headers_file;
pub mod headers_file_laws;
pub mod headers_laws;
pub mod report;
pub mod report_laws;
pub mod run;
pub mod run_laws;
pub mod text;
pub mod text_laws;
pub mod tls;
pub mod tls_laws;
