//! Running the checks of a domain.
//!
//! A run goes through the four checks in a fixed order. Each step takes what
//! came of the work asked for last and answers with the work to do next, so the
//! caller does nothing but that work.

use crate::clock::{self, Moment};
use crate::config::{Config, ConfigError, ConfigView, EffectiveDomain, EffectiveDomainView};
use crate::config::{ChecksEnabled, CtConfig, HeadersConfig, TlsConfig, TlsVersion};
use crate::config;
use crate::ct::{self, BaselineState, CtFetch, DomainBaselineView};
use crate::dns::{self, DnsEvent, DnsStep, DnsStepView};
use crate::headers::{self, HeaderFetch};
use crate::report::{self, CheckResult, CheckResultView, DomainReport, DomainReportView, Status};
use crate::text;
use crate::tls::{self, ConnectEvent, ConnectStep, ConnectStepView};
use vstd::prelude::*;

verus! {

// ---------------------------------------------------------------------
// Settings
// ---------------------------------------------------------------------

/// The settings of a domain that no configuration names.
pub open spec fn default_settings(name: Seq<char>) -> EffectiveDomainView {
    EffectiveDomainView {
        name,
        checks: config::default_checks(),
        tls: config::default_tls(),
        headers: config::default_headers(),
        ct: config::default_ct(),
    }
}

/// The settings of a domain that no configuration names.
pub fn default_domain(name: &str) -> (r: EffectiveDomain)
    ensures
        r@ == default_settings(name@),
{
    EffectiveDomain {
        name: name.to_owned(),
        checks: ChecksEnabled::default(),
        tls: TlsConfig::default(),
        headers: HeadersConfig::default(),
        ct: CtConfig::default(),
    }
}

/// The first of the given settings that are for a domain, or the default ones.
pub open spec fn first_named(all: Seq<EffectiveDomainView>, name: Seq<char>) -> EffectiveDomainView
    decreases all.len(),
{
    if all.len() == 0 {
        default_settings(name)
    } else if all[0].name == name {
        all[0]
    } else {
        first_named(all.skip(1), name)
    }
}

/// The settings of a domain under a configuration, where there is one.
pub open spec fn settings(cfg: Option<ConfigView>, name: Seq<char>) -> EffectiveDomainView {
    match cfg {
        Some(cfg) => first_named(config::effective(cfg), name),
        None => default_settings(name),
    }
}

/// The contents of an optional configuration.
pub open spec fn opt_config(cfg: Option<&Config>) -> Option<ConfigView> {
    match cfg {
        Some(cfg) => Some(cfg@),
        None => None,
    }
}

/// The settings of a domain under a configuration, where there is one.
pub fn domain_settings(cfg: Option<&Config>, name: &str) -> (r: EffectiveDomain)
    ensures
        r@ == settings(opt_config(cfg), name@),
{
    match cfg {
        Some(c) => {
            let mut all = c.effective_domains();
            let ghost views = config::effective_views(all@);
            assert(views.skip(0) =~= views);
            let n: usize = all.len();
            for i in 0..n
                invariant
                    n == all@.len(),
                    views == config::effective_views(all@),
                    views == config::effective(c@),
                    opt_config(cfg) == Some(c@),
                    first_named(views, name@) == first_named(views.skip(i as int), name@),
            {
                assert(views.skip(i as int)[0] == all@[i as int]@);
                assert(views.skip(i as int).skip(1) =~= views.skip(i + 1));
                if text::same_text(all[i].name.as_str(), name) {
                    return all.swap_remove(i);
                }
            }
            default_domain(name)
        },
        None => default_domain(name),
    }
}

/// What a scan may change in the settings of a domain.
#[derive(Debug, Clone, Copy)]
pub struct ScanOptions {
    pub no_dns: bool,
    pub no_tls: bool,
    pub no_ct: bool,
    pub no_headers: bool,
    pub tls_min_version: Option<TlsVersion>,
    pub expiry_warning_days: Option<i64>,
}

/// Settings with the changes of a scan: checks are switched off and never on,
/// and what is given takes the place of what is configured.
pub open spec fn with_options(d: EffectiveDomainView, o: ScanOptions) -> EffectiveDomainView {
    EffectiveDomainView {
        checks: ChecksEnabled {
            dns: d.checks.dns && !o.no_dns,
            tls: d.checks.tls && !o.no_tls,
            ct: d.checks.ct && !o.no_ct,
            headers: d.checks.headers && !o.no_headers,
        },
        tls: TlsConfig {
            min_version: config::either(o.tls_min_version, d.tls.min_version),
            expiry_warning_days: config::either(o.expiry_warning_days, d.tls.expiry_warning_days),
            ..d.tls
        },
        ..d
    }
}

impl ScanOptions {
    /// Makes the changes of this scan.
    pub fn apply(&self, d: &mut EffectiveDomain)
        ensures
            final(d)@ == with_options(old(d)@, *self),
    {
        if self.no_dns {
            d.checks.dns = false;
        }
        if self.no_tls {
            d.checks.tls = false;
        }
        if self.no_ct {
            d.checks.ct = false;
        }
        if self.no_headers {
            d.checks.headers = false;
        }
        if let Some(v) = self.tls_min_version {
            d.tls.min_version = v;
        }
        if let Some(n) = self.expiry_warning_days {
            d.tls.expiry_warning_days = n;
        }
    }
}

// ---------------------------------------------------------------------
// A run
// ---------------------------------------------------------------------

/// Where a run stands: the check under way, or the end. The TLS check is the
/// first, so that the Certificate Transparency check, the last, can use the
/// live leaf certificate.
#[derive(Debug, Clone, Copy, PartialEq, Eq, Structural)]
pub enum Stage {
    Tls,
    Dns,
    Headers,
    Ct,
    Done,
}

impl Stage {
    /// How many checks come before this stage.
    pub open spec fn rank(self) -> nat {
        match self {
            Stage::Tls => 0,
            Stage::Dns => 1,
            Stage::Headers => 2,
            Stage::Ct => 3,
            Stage::Done => 4,
        }
    }

    /// The stage after this one.
    pub open spec fn following(self) -> Stage {
        match self {
            Stage::Tls => Stage::Dns,
            Stage::Dns => Stage::Headers,
            Stage::Headers => Stage::Ct,
            _ => Stage::Done,
        }
    }

    /// The name of the check at this stage.
    pub open spec fn check(self) -> Seq<char> {
        match self {
            Stage::Tls => tls::CHECK_NAME@,
            Stage::Dns => dns::CHECK_NAME@,
            Stage::Headers => headers::CHECK_NAME@,
            _ => ct::CHECK_NAME@,
        }
    }

    /// Whether the check at this stage is enabled; the end has none.
    pub open spec fn enabled(self, checks: ChecksEnabled) -> bool {
        match self {
            Stage::Tls => checks.tls,
            Stage::Dns => checks.dns,
            Stage::Headers => checks.headers,
            Stage::Ct => checks.ct,
            Stage::Done => false,
        }
    }

    /// The stage after this one.
    fn next(self) -> (r: Stage)
        ensures
            r == self.following(),
    {
        match self {
            Stage::Tls => Stage::Dns,
            Stage::Dns => Stage::Headers,
            Stage::Headers => Stage::Ct,
            _ => Stage::Done,
        }
    }

    /// The name of the check at this stage.
    fn check_name(self) -> (r: &'static str)
        ensures
            r@ == self.check(),
    {
        match self {
            Stage::Tls => tls::CHECK_NAME,
            Stage::Dns => dns::CHECK_NAME,
            Stage::Headers => headers::CHECK_NAME,
            _ => ct::CHECK_NAME,
        }
    }

    /// Whether the check at this stage is enabled.
    fn is_enabled(self, checks: &ChecksEnabled) -> (r: bool)
        ensures
            r == self.enabled(*checks),
    {
        match self {
            Stage::Tls => checks.tls,
            Stage::Dns => checks.dns,
            Stage::Headers => checks.headers,
            Stage::Ct => checks.ct,
            Stage::Done => false,
        }
    }
}

/// What came of the work asked for last.
pub enum RunEvent {
    /// Of connecting.
    Tls(ConnectEvent),
    /// Of looking the domain up.
    Dns(DnsEvent),
    /// Of fetching the front page.
    Headers(HeaderFetch),
    /// Of querying the logs.
    Ct(CtFetch),
}

/// The work to do next.
pub enum RunStep {
    /// Open a TCP connection to this host.
    OpenConnection(String),
    /// Do the TLS handshake with this server name.
    Handshake(String),
    /// Set up a validating resolver.
    SetUpResolver,
    /// Look up the addresses of this name.
    LookUpAddresses(String),
    /// Look up the name servers of this name; the address lookup failed for
    /// this reason.
    LookUpNameServers(String, String),
    /// Fetch the page at this URL, within so many seconds.
    FetchPage(String, u64),
    /// Query the logs at this URL, within so many seconds.
    QueryLogs(String, u64),
    /// Nothing: the run is done.
    Done,
}

/// The contents of a [`RunStep`].
#[verifier::ext_equal]
pub enum RunStepView {
    OpenConnection(Seq<char>),
    Handshake(Seq<char>),
    SetUpResolver,
    LookUpAddresses(Seq<char>),
    LookUpNameServers(Seq<char>, Seq<char>),
    FetchPage(Seq<char>, u64),
    QueryLogs(Seq<char>, u64),
    Done,
}

impl View for RunStep {
    type V = RunStepView;

    open spec fn view(&self) -> RunStepView {
        match self {
            RunStep::OpenConnection(host) => RunStepView::OpenConnection(host@),
            RunStep::Handshake(name) => RunStepView::Handshake(name@),
            RunStep::SetUpResolver => RunStepView::SetUpResolver,
            RunStep::LookUpAddresses(name) => RunStepView::LookUpAddresses(name@),
            RunStep::LookUpNameServers(name, why) => RunStepView::LookUpNameServers(name@, why@),
            RunStep::FetchPage(url, seconds) => RunStepView::FetchPage(url@, *seconds),
            RunStep::QueryLogs(url, seconds) => RunStepView::QueryLogs(url@, *seconds),
            RunStep::Done => RunStepView::Done,
        }
    }
}

/// A run of the checks of one domain.
pub struct DomainRun {
    pub stage: Stage,
    pub report: DomainReport,
    /// The leaf certificate that the TLS check saw, in DER.
    pub live_leaf: Option<Vec<u8>>,
}

/// The contents of a [`DomainRun`].
#[verifier::ext_equal]
pub struct DomainRunView {
    pub stage: Stage,
    pub report: DomainReportView,
    pub live_leaf: Option<Seq<u8>>,
}

impl View for DomainRun {
    type V = DomainRunView;

    open spec fn view(&self) -> DomainRunView {
        DomainRunView {
            stage: self.stage,
            report: self.report@,
            live_leaf: match self.live_leaf {
                Some(der) => Some(der@),
                None => None,
            },
        }
    }
}

/// What stands in the report for a check that is not enabled.
pub open spec fn disabled(stage: Stage) -> CheckResultView {
    report::bare(stage.check(), Status::Skip, "disabled by config"@)
}

/// A run with the result of the check under way, at the following stage.
pub open spec fn with_result(run: DomainRunView, r: CheckResultView) -> DomainRunView {
    DomainRunView {
        stage: run.stage.following(),
        report: DomainReportView { results: run.report.results.push(r), ..run.report },
        ..run
    }
}

/// A run past the checks that are not enabled.
pub open spec fn settled(run: DomainRunView, checks: ChecksEnabled) -> DomainRunView
    decreases 4 - run.stage.rank(),
{
    if run.stage == Stage::Done || run.stage.enabled(checks) {
        run
    } else {
        settled(with_result(run, disabled(run.stage)), checks)
    }
}

/// The work with which a stage begins.
pub open spec fn opening(stage: Stage, d: EffectiveDomainView) -> RunStepView {
    match stage {
        Stage::Tls => RunStepView::OpenConnection(d.name),
        Stage::Dns => RunStepView::SetUpResolver,
        Stage::Headers => RunStepView::FetchPage(
            headers::front_page(d.name),
            d.headers.timeout_seconds,
        ),
        Stage::Ct => RunStepView::QueryLogs(ct::log_url(d.name, d.ct), d.ct.timeout_seconds),
        Stage::Done => RunStepView::Done,
    }
}

/// A run before its first work.
pub open spec fn begun(d: EffectiveDomainView) -> DomainRunView {
    settled(
        DomainRunView {
            stage: Stage::Tls,
            report: DomainReportView { domain: d.name, results: Seq::empty() },
            live_leaf: None,
        },
        d.checks,
    )
}

/// What an event amounts to in the check under way.
#[verifier::ext_equal]
pub enum Progress {
    /// The check needs more work.
    Await(RunStepView),
    /// The check is done: its result, and the live leaf certificate from here
    /// on.
    Finished(CheckResultView, Option<Seq<u8>>),
}

/// What an event amounts to in the TLS check.
pub open spec fn tls_progress(d: EffectiveDomainView, event: ConnectEvent, now: Moment) -> Progress {
    match tls::connect_step(d.name, d.name, event) {
        ConnectStepView::Handshake => Progress::Await(RunStepView::Handshake(d.name)),
        ConnectStepView::Connected(info) => Progress::Finished(
            tls::evaluated(d.name, info, d.tls, tls::leaf_of(info.chain_der), now.seconds),
            Some(info.chain_der[0]),
        ),
        ConnectStepView::Failed(e) => Progress::Finished(tls::error_result(d.name, e), None),
    }
}

/// What an event amounts to in the DNSSEC check.
pub open spec fn dns_progress(run: DomainRunView, d: EffectiveDomainView, event: DnsEvent) -> Progress {
    match dns::checked(d.name, event) {
        DnsStepView::LookUpAddresses(name) => Progress::Await(RunStepView::LookUpAddresses(name)),
        DnsStepView::LookUpNameServers(name, why) => Progress::Await(
            RunStepView::LookUpNameServers(name, why),
        ),
        DnsStepView::Done(r) => Progress::Finished(r, run.live_leaf),
    }
}

/// The fingerprint of the live leaf certificate of a run.
pub open spec fn live_fingerprint(run: DomainRunView) -> Option<Seq<char>> {
    match run.live_leaf {
        Some(der) => Some(ct::hex_text(ct::sha256(der))),
        None => None,
    }
}

/// What an event amounts to in the check under way. An event of another check
/// asks for the work that the check under way begins with.
pub open spec fn progress(
    run: DomainRunView,
    d: EffectiveDomainView,
    event: RunEvent,
    state: Map<Seq<char>, DomainBaselineView>,
    now: Moment,
) -> Progress {
    match (run.stage, event) {
        (Stage::Tls, RunEvent::Tls(e)) => tls_progress(d, e, now),
        (Stage::Dns, RunEvent::Dns(e)) => dns_progress(run, d, e),
        (Stage::Headers, RunEvent::Headers(fetch)) => Progress::Finished(
            headers::checked(headers::front_page(d.name), d.headers, fetch),
            run.live_leaf,
        ),
        (Stage::Ct, RunEvent::Ct(fetch)) => Progress::Finished(
            ct::checked(d.name, fetch, ct::known(state, d.name), d.ct, live_fingerprint(run)),
            run.live_leaf,
        ),
        _ => Progress::Await(opening(run.stage, d)),
    }
}

/// A run after an event.
pub open spec fn stepped(
    run: DomainRunView,
    d: EffectiveDomainView,
    event: RunEvent,
    state: Map<Seq<char>, DomainBaselineView>,
    now: Moment,
) -> DomainRunView {
    match progress(run, d, event, state, now) {
        Progress::Await(_) => run,
        Progress::Finished(r, leaf) => settled(
            with_result(DomainRunView { live_leaf: leaf, ..run }, r),
            d.checks,
        ),
    }
}

/// The work to do after an event.
pub open spec fn next_step(
    run: DomainRunView,
    d: EffectiveDomainView,
    event: RunEvent,
    state: Map<Seq<char>, DomainBaselineView>,
    now: Moment,
) -> RunStepView {
    match progress(run, d, event, state, now) {
        Progress::Await(step) => step,
        Progress::Finished(_, _) => opening(stepped(run, d, event, state, now).stage, d),
    }
}

/// The state of the baselines after an event: the last check alone bears on it.
pub open spec fn next_state(
    run: DomainRunView,
    d: EffectiveDomainView,
    event: RunEvent,
    state: Map<Seq<char>, DomainBaselineView>,
    now: Moment,
) -> Map<Seq<char>, DomainBaselineView> {
    match (run.stage, event) {
        (Stage::Ct, RunEvent::Ct(fetch)) => ct::advanced(state, d.name, fetch, now),
        _ => state,
    }
}

impl DomainRun {
    /// Passes the checks that are not enabled.
    fn settle(&mut self, checks: &ChecksEnabled)
        ensures
            final(self)@ == settled(old(self)@, *checks),
    {
        while !(self.stage == Stage::Done || self.stage.is_enabled(checks))
            invariant
                settled(self@, *checks) == settled(old(self)@, *checks),
            decreases 4 - self.stage.rank(),
        {
            let ghost before = self@;
            let stage = self.stage;
            self.finish(CheckResult::skip(stage.check_name(), "disabled by config"));
            assert(self@ == with_result(before, disabled(stage)));
        }
    }

    /// Adds the result of the check under way and goes to the next stage.
    fn finish(&mut self, r: CheckResult)
        ensures
            final(self)@ == with_result(old(self)@, r@),
    {
        self.report.push(r);
        self.stage = self.stage.next();
    }

    /// The work with which the check under way begins.
    fn open(&self, d: &EffectiveDomain) -> (r: RunStep)
        ensures
            r@ == opening(self@.stage, d@),
    {
        match self.stage {
            Stage::Tls => RunStep::OpenConnection(d.name.clone()),
            Stage::Dns => RunStep::SetUpResolver,
            Stage::Headers => RunStep::FetchPage(
                headers::site_url(d.name.as_str()),
                d.headers.timeout_seconds,
            ),
            Stage::Ct => RunStep::QueryLogs(
                ct::query_url(d.name.as_str(), &d.ct),
                d.ct.timeout_seconds,
            ),
            Stage::Done => RunStep::Done,
        }
    }

    /// A run before its first work, and that work.
    pub fn begin(d: &EffectiveDomain) -> (r: (DomainRun, RunStep))
        ensures
            r.0@ == begun(d@),
            r.1@ == opening(begun(d@).stage, d@),
    {
        let mut run = DomainRun {
            stage: Stage::Tls,
            report: DomainReport::new(d.name.as_str()),
            live_leaf: None,
        };
        run.settle(&d.checks);
        let step = run.open(d);
        (run, step)
    }

    /// Ends the check under way, and the work to do next.
    fn conclude(&mut self, d: &EffectiveDomain, r: CheckResult) -> (step: RunStep)
        ensures
            final(self)@ == settled(with_result(old(self)@, r@), d@.checks),
            step@ == opening(final(self)@.stage, d@),
    {
        self.finish(r);
        self.settle(&d.checks);
        self.open(d)
    }

    /// Takes an event of the TLS check.
    fn tls_event(&mut self, d: &EffectiveDomain, event: ConnectEvent, now: Moment) -> (step:
        RunStep)
        ensures
            match tls_progress(d@, event, now) {
                Progress::Await(s) => final(self)@ == old(self)@ && step@ == s,
                Progress::Finished(r, leaf) => {
                    &&& final(self)@ == settled(
                        with_result(DomainRunView { live_leaf: leaf, ..old(self)@ }, r),
                        d@.checks,
                    )
                    &&& step@ == opening(final(self)@.stage, d@)
                },
            },
    {
        match tls::connect(d.name.as_str(), event) {
            ConnectStep::Handshake => RunStep::Handshake(d.name.clone()),
            ConnectStep::Connected(info) => {
                proof {
                    tls::law_connected_has_a_leaf(d@.name, d@.name, event);
                }
                let r = tls::evaluate_at(d.name.as_str(), &info, &d.tls, now);
                let mut info = info;
                let leaf = info.chain_der.swap_remove(0);
                self.live_leaf = Some(leaf);
                self.conclude(d, r)
            },
            ConnectStep::Failed(e) => {
                let r = tls::error_to_result(d.name.as_str(), e);
                self.live_leaf = None;
                self.conclude(d, r)
            },
        }
    }

    /// Takes an event of the DNSSEC check.
    fn dns_event(&mut self, d: &EffectiveDomain, event: DnsEvent) -> (step: RunStep)
        ensures
            match dns_progress(old(self)@, d@, event) {
                Progress::Await(s) => final(self)@ == old(self)@ && step@ == s,
                Progress::Finished(r, leaf) => {
                    &&& final(self)@ == settled(
                        with_result(DomainRunView { live_leaf: leaf, ..old(self)@ }, r),
                        d@.checks,
                    )
                    &&& step@ == opening(final(self)@.stage, d@)
                },
            },
    {
        match dns::check(d.name.as_str(), event) {
            DnsStep::LookUpAddresses(name) => RunStep::LookUpAddresses(name),
            DnsStep::LookUpNameServers(name, why) => RunStep::LookUpNameServers(name, why),
            DnsStep::Done(r) => self.conclude(d, r),
        }
    }

    /// Takes an event of the Certificate Transparency check.
    fn ct_event(
        &mut self,
        d: &EffectiveDomain,
        fetch: CtFetch,
        state: &mut BaselineState,
        now: Moment,
    ) -> (step: RunStep)
        ensures
            final(state)@ == ct::advanced(old(state)@, d@.name, fetch, now),
            final(self)@ == settled(
                with_result(
                    old(self)@,
                    ct::checked(
                        d@.name,
                        fetch,
                        ct::known(old(state)@, d@.name),
                        d@.ct,
                        live_fingerprint(old(self)@),
                    ),
                ),
                d@.checks,
            ),
            step@ == opening(final(self)@.stage, d@),
    {
        let r = match &self.live_leaf {
            Some(der) => {
                let fp = ct::fingerprint_sha256(der.as_slice());
                ct::check_at(d.name.as_str(), &d.ct, state, Some(fp.as_str()), fetch, now)
            },
            None => ct::check_at(d.name.as_str(), &d.ct, state, None, fetch, now),
        };
        self.conclude(d, r)
    }

    /// Takes an event at the time `now`, and says what to do next. Advances the
    /// baselines where the event is of the check that keeps them.
    pub fn step_at(
        &mut self,
        d: &EffectiveDomain,
        event: RunEvent,
        state: &mut BaselineState,
        now: Moment,
    ) -> (step: RunStep)
        ensures
            final(self)@ == stepped(old(self)@, d@, event, old(state)@, now),
            step@ == next_step(old(self)@, d@, event, old(state)@, now),
            final(state)@ == next_state(old(self)@, d@, event, old(state)@, now),
    {
        match (self.stage, event) {
            (Stage::Tls, RunEvent::Tls(e)) => self.tls_event(d, e, now),
            (Stage::Dns, RunEvent::Dns(e)) => self.dns_event(d, e),
            (Stage::Headers, RunEvent::Headers(fetch)) => {
                let r = headers::check(d.name.as_str(), &d.headers, &fetch);
                self.conclude(d, r)
            },
            (Stage::Ct, RunEvent::Ct(fetch)) => self.ct_event(d, fetch, state, now),
            _ => self.open(d),
        }
    }

    /// Takes an event now, and says what to do next.
    pub fn step(&mut self, d: &EffectiveDomain, event: RunEvent, state: &mut BaselineState) -> (
    step: RunStep)
        ensures
            exists|now: Moment|
                #![trigger stepped(old(self)@, d@, event, old(state)@, now)]
                {
                    &&& final(self)@ == stepped(old(self)@, d@, event, old(state)@, now)
                    &&& step@ == next_step(old(self)@, d@, event, old(state)@, now)
                    &&& final(state)@ == next_state(old(self)@, d@, event, old(state)@, now)
                },
    {
        let now = clock::now();
        let step = self.step_at(d, event, state, now);
        assert(self@ == stepped(old(self)@, d@, event, old(state)@, now));
        step
    }
}

/// The code with which the program ends: whether some check failed.
pub open spec fn exit_status(has_failure: bool) -> u8 {
    if has_failure {
        1
    } else {
        0
    }
}

/// The code with which the program ends.
pub fn exit_code(has_failure: bool) -> (r: u8)
    ensures
        r == exit_status(has_failure),
{
    if has_failure {
        1
    } else {
        0
    }
}

/// The code with which the program ends where it could not do its work.
pub const TROUBLE: u8 = 2;

/// What is said of a configuration file that cannot be used.
pub fn config_trouble(path: &str, e: &ConfigError) -> (r: String)
    ensures
        r@ == "error loading config "@ + path@ + ": "@ + config::config_error_text(*e),
{
    "error loading config ".to_owned().concat(path).concat(": ").concat(e.message().as_str())
}

/// What is said where the baselines could not be persisted.
pub fn state_trouble(path: &str, why: &str) -> (r: String)
    ensures
        r@ == "warning: could not persist CT baseline state to "@ + path@ + ": "@ + why@,
{
    "warning: could not persist CT baseline state to ".to_owned().concat(path).concat(": ").concat(
        why,
    )
}

} // verus!
