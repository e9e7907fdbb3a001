//! What holds of a run of the checks as a whole.

use crate::clock::Moment;
use crate::config;
use crate::config::{ChecksEnabled, Config, ConfigView, EffectiveDomainView};
use crate::ct;
use crate::ct::{CtFetch, DomainBaselineView};
use crate::dns;
use crate::dns::{DnsEvent, DnsStepView};
use crate::headers;
use crate::headers::HeaderFetch;
use crate::report;
use crate::report::{CheckResultView, DomainReportView, Status};
use crate::run;
use crate::run::{
    DomainRun, DomainRunView, Progress, RunEvent, RunStep, RunStepView, ScanOptions, Stage,
};
use crate::tls;
use crate::tls::{ConnectEvent, ConnectStepView};
use vstd::prelude::*;

verus! {

/// The stage of the check that comes after `i` others.
pub open spec fn stage_at(i: int) -> Stage {
    if i == 0 {
        Stage::Tls
    } else if i == 1 {
        Stage::Dns
    } else if i == 2 {
        Stage::Headers
    } else if i == 3 {
        Stage::Ct
    } else {
        Stage::Done
    }
}

/// Whether a result can stand in a report at a place: it is of the check that
/// belongs there, and of a check that is not enabled it says so.
pub open spec fn in_place(r: CheckResultView, i: int, checks: ChecksEnabled) -> bool {
    &&& r.check == stage_at(i).check()
    &&& !stage_at(i).enabled(checks) ==> r == run::disabled(stage_at(i))
}

/// Whether a report holds the results of the checks before a stage, each in
/// its place.
pub open spec fn results_valid(run: DomainRunView, d: EffectiveDomainView) -> bool {
    &&& run.report.domain == d.name
    &&& run.report.results.len() == run.stage.rank()
    &&& forall|i: int|
        0 <= i < run.report.results.len() ==> in_place(
            #[trigger] run.report.results[i],
            i,
            d.checks,
        )
}

/// What holds of every run of a domain's checks, between any two steps: the
/// results so far are in their places, and the check under way is enabled.
pub open spec fn valid(run: DomainRunView, d: EffectiveDomainView) -> bool {
    &&& results_valid(run, d)
    &&& run.stage == Stage::Done || run.stage.enabled(d.checks)
}

/// A result in its place keeps the results in their places.
proof fn lemma_with_result(run: DomainRunView, d: EffectiveDomainView, r: CheckResultView)
    requires
        results_valid(run, d),
        run.stage != Stage::Done,
        in_place(r, run.stage.rank() as int, d.checks),
    ensures
        results_valid(run::with_result(run, r), d),
        run::with_result(run, r).stage.rank() == run.stage.rank() + 1,
{
    let next = run::with_result(run, r);
    assert forall|i: int| 0 <= i < next.report.results.len() implies in_place(
        #[trigger] next.report.results[i],
        i,
        d.checks,
    ) by {
        if i < run.report.results.len() {
            assert(next.report.results[i] == run.report.results[i]);
        }
    }
}

/// Passing the checks that are not enabled keeps the results in their places.
proof fn lemma_settled(run: DomainRunView, d: EffectiveDomainView)
    requires
        results_valid(run, d),
    ensures
        valid(run::settled(run, d.checks), d),
        run::settled(run, d.checks).stage.rank() >= run.stage.rank(),
    decreases 4 - run.stage.rank(),
{
    if !(run.stage == Stage::Done || run.stage.enabled(d.checks)) {
        lemma_with_result(run, d, run::disabled(run.stage));
        lemma_settled(run::with_result(run, run::disabled(run.stage)), d);
    }
}

/// A run is valid from the beginning.
pub proof fn law_run_begins_valid(d: EffectiveDomainView)
    ensures
        valid(run::begun(d), d),
{
    let start = DomainRunView {
        stage: Stage::Tls,
        report: DomainReportView { domain: d.name, results: Seq::empty() },
        live_leaf: None,
    };
    lemma_settled(start, d);
}

/// A check that ends has a result under its own name.
proof fn lemma_result_has_the_name(
    run: DomainRunView,
    d: EffectiveDomainView,
    event: RunEvent,
    state: Map<Seq<char>, DomainBaselineView>,
    now: Moment,
)
    ensures
        run::progress(run, d, event, state, now) matches Progress::Finished(r, _)
            ==> run.stage != Stage::Done && r.check == run.stage.check(),
{
}

/// A valid run stays valid, whatever happens. It never goes back: either it
/// stays as it is, or a later check is under way.
pub proof fn law_run_stays_valid(
    run: DomainRunView,
    d: EffectiveDomainView,
    event: RunEvent,
    state: Map<Seq<char>, DomainBaselineView>,
    now: Moment,
)
    requires
        valid(run, d),
    ensures
        valid(run::stepped(run, d, event, state, now), d),
        run::stepped(run, d, event, state, now) == run || run::stepped(
            run,
            d,
            event,
            state,
            now,
        ).stage.rank() > run.stage.rank(),
{
    lemma_result_has_the_name(run, d, event, state, now);
    if let Progress::Finished(r, leaf) = run::progress(run, d, event, state, now) {
        let with_leaf = DomainRunView { live_leaf: leaf, ..run };
        assert(results_valid(with_leaf, d));
        lemma_with_result(with_leaf, d, r);
        lemma_settled(run::with_result(with_leaf, r), d);
    }
}

/// A valid run that is done has a report with the four checks, in their order.
pub proof fn law_finished_report_has_all_checks(run: DomainRunView, d: EffectiveDomainView)
    requires
        valid(run, d),
        run.stage == Stage::Done,
    ensures
        run.report.domain == d.name,
        run.report.results.len() == 4,
        run.report.results[0].check == tls::CHECK_NAME@,
        run.report.results[1].check == dns::CHECK_NAME@,
        run.report.results[2].check == headers::CHECK_NAME@,
        run.report.results[3].check == ct::CHECK_NAME@,
{
    assert(in_place(run.report.results[0], 0, d.checks));
    assert(in_place(run.report.results[1], 1, d.checks));
    assert(in_place(run.report.results[2], 2, d.checks));
    assert(in_place(run.report.results[3], 3, d.checks));
}

/// A check that is not enabled is reported as skipped, so it never fails a run.
pub proof fn law_disabled_check_is_skipped(run: DomainRunView, d: EffectiveDomainView, i: int)
    requires
        valid(run, d),
        0 <= i < run.report.results.len(),
        !stage_at(i).enabled(d.checks),
    ensures
        run.report.results[i] == report::bare(
            stage_at(i).check(),
            Status::Skip,
            "disabled by config"@,
        ),
{
    assert(in_place(run.report.results[i], i, d.checks));
}

/// Whether a step is work for the check at a stage.
pub open spec fn works_for(step: RunStepView, stage: Stage) -> bool {
    match step {
        RunStepView::OpenConnection(_) => stage == Stage::Tls,
        RunStepView::Handshake(_) => stage == Stage::Tls,
        RunStepView::SetUpResolver => stage == Stage::Dns,
        RunStepView::LookUpAddresses(_) => stage == Stage::Dns,
        RunStepView::LookUpNameServers(_, _) => stage == Stage::Dns,
        RunStepView::FetchPage(_, _) => stage == Stage::Headers,
        RunStepView::QueryLogs(_, _) => stage == Stage::Ct,
        RunStepView::Done => stage == Stage::Done,
    }
}

/// A valid run asks for work for the check under way alone, so for an enabled
/// one, and for no more work exactly where it is done.
pub proof fn law_work_is_for_enabled_checks(
    run: DomainRunView,
    d: EffectiveDomainView,
    event: RunEvent,
    state: Map<Seq<char>, DomainBaselineView>,
    now: Moment,
)
    requires
        valid(run, d),
    ensures
        works_for(
            run::next_step(run, d, event, state, now),
            run::stepped(run, d, event, state, now).stage,
        ),
        run::stepped(run, d, event, state, now).stage == Stage::Done || run::stepped(
            run,
            d,
            event,
            state,
            now,
        ).stage.enabled(d.checks),
{
    law_run_stays_valid(run, d, event, state, now);
}

/// The first work of a run is for the check under way too.
pub proof fn law_first_work_is_for_an_enabled_check(d: EffectiveDomainView)
    ensures
        works_for(run::opening(run::begun(d).stage, d), run::begun(d).stage),
        run::begun(d).stage == Stage::Done || run::begun(d).stage.enabled(d.checks),
{
    law_run_begins_valid(d);
}

/// Without the Certificate Transparency check a run leaves the baselines as
/// they were; with it, it leaves those of other domains as they were.
pub proof fn law_baselines_of_others_are_untouched(
    run: DomainRunView,
    d: EffectiveDomainView,
    event: RunEvent,
    state: Map<Seq<char>, DomainBaselineView>,
    now: Moment,
    other: Seq<char>,
)
    requires
        valid(run, d),
        other != d.name,
    ensures
        !d.checks.ct ==> run::next_state(run, d, event, state, now) == state,
        run::next_state(run, d, event, state, now).contains_key(other) == state.contains_key(other),
        state.contains_key(other) ==> run::next_state(run, d, event, state, now)[other]
            == state[other],
{
}

/// Where the TLS check saw no certificate, or is not enabled, pinned
/// fingerprints are held against none: the last check does not pass.
pub proof fn law_pins_without_a_live_certificate_do_not_pass(
    run: DomainRunView,
    d: EffectiveDomainView,
    event: RunEvent,
    state: Map<Seq<char>, DomainBaselineView>,
    now: Moment,
)
    requires
        run.stage == Stage::Ct,
        run.live_leaf is None,
        d.ct.pinned_fingerprints.len() > 0,
    ensures
        run::progress(run, d, event, state, now) matches Progress::Finished(r, _) ==> r.status
            != Status::Pass,
{
}

/// A scan without changes leaves the settings as they are.
pub proof fn law_no_options_no_change(d: EffectiveDomainView)
    ensures
        run::with_options(
            d,
            ScanOptions {
                no_dns: false,
                no_tls: false,
                no_ct: false,
                no_headers: false,
                tls_min_version: None,
                expiry_warning_days: None,
            },
        ) == d,
{
}

/// A scan switches checks off and never on.
pub proof fn law_options_never_enable_a_check(d: EffectiveDomainView, o: ScanOptions, stage: Stage)
    ensures
        stage.enabled(run::with_options(d, o).checks) ==> stage.enabled(d.checks),
{
}

/// The program ends with a failure exactly where some check of some domain
/// failed: warnings and skips are let through.
pub proof fn law_program_fails_iff_a_check_failed(domains: Seq<DomainReportView>)
    ensures
        run::exit_status(report::any_failure(domains)) == 1 <==> exists|i: int, j: int|
            0 <= i < domains.len() && 0 <= j < domains[i].results.len() && (
            #[trigger] domains[i].results[j]).status == Status::Fail,
        run::exit_status(report::any_failure(domains)) != 1 ==> run::exit_status(
            report::any_failure(domains),
        ) == 0,
{
    if report::any_failure(domains) {
        let i = choose|i: int|
            0 <= i < domains.len() && report::has_status(
                (#[trigger] domains[i]).results,
                Status::Fail,
            );
        let results = domains[i].results;
        let j = choose|j: int|
            0 <= j < results.len() && (#[trigger] results[j]).status == Status::Fail;
        assert(domains[i].results[j].status == Status::Fail);
    }
    if exists|i: int, j: int|
        0 <= i < domains.len() && 0 <= j < domains[i].results.len() && (
        #[trigger] domains[i].results[j]).status == Status::Fail {
        let (i, j) = choose|i: int, j: int|
            0 <= i < domains.len() && 0 <= j < domains[i].results.len() && (
            #[trigger] domains[i].results[j]).status == Status::Fail;
        assert(report::has_status(domains[i].results, Status::Fail));
    }
}

// ---------------------------------------------------------------------
// Settings, in terms of the configuration alone
// ---------------------------------------------------------------------

/// Where a configuration names a domain, the settings are those of the first
/// entry with that name.
pub proof fn law_settings_of_a_named_domain(cfg: ConfigView, name: Seq<char>, i: int)
    requires
        0 <= i < cfg.domains.len(),
        cfg.domains[i].name == name,
        forall|j: int| 0 <= j < i ==> (#[trigger] cfg.domains[j]).name != name,
    ensures
        run::settings(Some(cfg), name) == config::resolved(cfg.domains[i], cfg.defaults),
{
    let all = config::effective(cfg);
    assert forall|j: int| 0 <= j < i implies (#[trigger] all[j]).name != name by {
        assert(cfg.domains[j].name != name);
    }
    lemma_first_named(all, name, i);
}

proof fn lemma_first_named(all: Seq<EffectiveDomainView>, name: Seq<char>, i: int)
    requires
        0 <= i <= all.len(),
        i < all.len() ==> all[i].name == name,
        forall|j: int| 0 <= j < i ==> (#[trigger] all[j]).name != name,
    ensures
        run::first_named(all, name) == if i < all.len() {
            all[i]
        } else {
            run::default_settings(name)
        },
    decreases i,
{
    if i > 0 {
        assert(all[0].name != name);
        let rest = all.skip(1);
        assert forall|j: int| 0 <= j < i - 1 implies (#[trigger] rest[j]).name != name by {
            assert(rest[j] == all[j + 1]);
        }
        lemma_first_named(rest, name, i - 1);
    }
}

/// A domain that no configuration names has the built-in settings, whatever the
/// defaults of a configuration say.
pub proof fn law_settings_of_another_domain(cfg: Option<ConfigView>, name: Seq<char>)
    requires
        cfg matches Some(c) ==> forall|j: int|
            0 <= j < c.domains.len() ==> (#[trigger] c.domains[j]).name != name,
    ensures
        ({
            let d = run::settings(cfg, name);
            let b = config::built_in();
            &&& d.name == name
            &&& d.checks == b.checks
            &&& d.tls == b.tls
            &&& d.headers == b.headers
            &&& d.ct == b.ct
        }),
{
    if let Some(c) = cfg {
        let all = config::effective(c);
        assert forall|j: int| 0 <= j < all.len() implies (#[trigger] all[j]).name != name by {
            assert(c.domains[j].name != name);
        }
        lemma_first_named(all, name, all.len() as int);
    }
}

/// A scan switches off the checks it names and no others, sets what it gives of
/// the two TLS settings, and changes nothing else.
pub proof fn law_options_change_what_they_name(d: EffectiveDomainView, o: ScanOptions)
    ensures
        ({
            let r = run::with_options(d, o);
            &&& r.checks.dns <==> d.checks.dns && !o.no_dns
            &&& r.checks.tls <==> d.checks.tls && !o.no_tls
            &&& r.checks.ct <==> d.checks.ct && !o.no_ct
            &&& r.checks.headers <==> d.checks.headers && !o.no_headers
            &&& o.tls_min_version matches Some(v) ==> r.tls.min_version == v
            &&& o.tls_min_version is None ==> r.tls.min_version == d.tls.min_version
            &&& o.expiry_warning_days matches Some(n) ==> r.tls.expiry_warning_days == n
            &&& o.expiry_warning_days is None ==> r.tls.expiry_warning_days
                == d.tls.expiry_warning_days
            &&& r.tls.allow_weak_ciphers == d.tls.allow_weak_ciphers
            &&& r.name == d.name
            &&& r.headers == d.headers
            &&& r.ct == d.ct
        }),
{
}

/// The program ends with 1 where a check failed, and with 0 where none did.
pub proof fn law_exit_status()
    ensures
        run::exit_status(true) == 1,
        run::exit_status(false) == 0,
        run::TROUBLE == 2,
{
}

// ---------------------------------------------------------------------
// Steps, in terms of the events alone
// ---------------------------------------------------------------------

/// Each check begins with its own work, on the domain and with the settings it
/// is for.
pub proof fn law_opening_work(d: EffectiveDomainView)
    ensures
        run::opening(Stage::Tls, d) == RunStepView::OpenConnection(d.name),
        run::opening(Stage::Dns, d) is SetUpResolver,
        run::opening(Stage::Headers, d) == RunStepView::FetchPage(
            "https://"@ + d.name + "/"@,
            d.headers.timeout_seconds,
        ),
        run::opening(Stage::Ct, d) == RunStepView::QueryLogs(
            ct::log_url(d.name, d.ct),
            d.ct.timeout_seconds,
        ),
        run::opening(Stage::Done, d) is Done,
{
}

/// A check is enabled by its own setting.
pub proof fn law_enabled_by_its_setting(checks: ChecksEnabled)
    ensures
        Stage::Tls.enabled(checks) == checks.tls,
        Stage::Dns.enabled(checks) == checks.dns,
        Stage::Headers.enabled(checks) == checks.headers,
        Stage::Ct.enabled(checks) == checks.ct,
        Stage::Tls.check() == "tls"@,
        Stage::Dns.check() == "dns"@,
        Stage::Headers.check() == "headers"@,
        Stage::Ct.check() == "ct"@,
{
}

/// Passing the checks that are not enabled keeps what there is: the results so
/// far and the live leaf certificate. It ends at the next enabled check.
proof fn lemma_settled_keeps(run: DomainRunView, checks: ChecksEnabled)
    ensures
        ({
            let s = run::settled(run, checks);
            &&& s.live_leaf == run.live_leaf
            &&& s.report.domain == run.report.domain
            &&& s.report.results.len() >= run.report.results.len()
            &&& s.report.results.take(run.report.results.len() as int) == run.report.results
            &&& s.stage.rank() - run.stage.rank() == s.report.results.len()
                - run.report.results.len()
            &&& s.stage == Stage::Done || s.stage.enabled(checks)
            &&& forall|k: Stage|
                run.stage.rank() <= k.rank() < s.stage.rank() ==> !#[trigger] k.enabled(checks)
        }),
    decreases 4 - run.stage.rank(),
{
    let s = run::settled(run, checks);
    if run.stage == Stage::Done || run.stage.enabled(checks) {
        assert(run.report.results.take(run.report.results.len() as int) =~= run.report.results);
    } else {
        let next = run::with_result(run, run::disabled(run.stage));
        lemma_settled_keeps(next, checks);
        let n = run.report.results.len() as int;
        assert(s.report.results.take(n) =~= s.report.results.take(n + 1).take(n));
        assert(next.report.results.take(n) =~= run.report.results);
        assert forall|k: Stage|
            run.stage.rank() <= k.rank() < s.stage.rank() implies !#[trigger] k.enabled(checks) by {
            if k.rank() == run.stage.rank() {
                assert(k == run.stage);
            }
        }
    }
}

/// A run begins at the first enabled check, in the order of TLS, DNSSEC, headers
/// and Certificate Transparency, and knows no live certificate.
pub proof fn law_run_begins_at_the_first_enabled_check(d: EffectiveDomainView)
    ensures
        ({
            let run = run::begun(d);
            &&& run.stage == if d.checks.tls {
                Stage::Tls
            } else if d.checks.dns {
                Stage::Dns
            } else if d.checks.headers {
                Stage::Headers
            } else if d.checks.ct {
                Stage::Ct
            } else {
                Stage::Done
            }
            &&& run.live_leaf is None
            &&& run.report.domain == d.name
        }),
{
    let start = DomainRunView {
        stage: Stage::Tls,
        report: DomainReportView { domain: d.name, results: Seq::empty() },
        live_leaf: None,
    };
    reveal_with_fuel(run::settled, 5);
    lemma_settled_keeps(start, d.checks);
}

/// What the end of a check does to a run: its result is added after those so
/// far, which stay, and the next enabled check is under way.
pub open spec fn ends_with(
    run: DomainRunView,
    after: DomainRunView,
    checks: ChecksEnabled,
    r: CheckResultView,
    leaf: Option<Seq<u8>>,
) -> bool {
    let n = run.report.results.len() as int;
    &&& after.report.results.len() > n
    &&& after.report.results.take(n) == run.report.results
    &&& after.report.results[n] == r
    &&& after.live_leaf == leaf
    &&& after.report.domain == run.report.domain
    &&& after.stage.rank() > run.stage.rank()
    &&& after.stage == Stage::Done || after.stage.enabled(checks)
    &&& forall|k: Stage|
        run.stage.rank() < k.rank() < after.stage.rank() ==> !#[trigger] k.enabled(checks)
}

proof fn lemma_ends_with(
    run: DomainRunView,
    checks: ChecksEnabled,
    r: CheckResultView,
    leaf: Option<Seq<u8>>,
)
    requires
        run.stage != Stage::Done,
    ensures
        ends_with(
            run,
            run::settled(run::with_result(DomainRunView { live_leaf: leaf, ..run }, r), checks),
            checks,
            r,
            leaf,
        ),
{
    let next = run::with_result(DomainRunView { live_leaf: leaf, ..run }, r);
    let after = run::settled(next, checks);
    lemma_settled_keeps(next, checks);
    let n = run.report.results.len() as int;
    assert(after.report.results.take(n + 1)[n] == r);
    assert(after.report.results.take(n) =~= after.report.results.take(n + 1).take(n));
    assert(next.report.results.take(n) =~= run.report.results);
}

/// What events of the TLS check do: a connection is judged with the settings of
/// the domain, at the time of the event, and its first certificate is the live
/// one from then on; a failed one is reported, and there is no live certificate.
pub proof fn law_tls_events(
    run: DomainRunView,
    d: EffectiveDomainView,
    event: ConnectEvent,
    state: Map<Seq<char>, DomainBaselineView>,
    now: Moment,
)
    requires
        run.stage == Stage::Tls,
    ensures
        ({
            let e = RunEvent::Tls(event);
            let after = run::stepped(run, d, e, state, now);
            match tls::connect_step(d.name, d.name, event) {
                ConnectStepView::Handshake => after == run && run::next_step(
                    run,
                    d,
                    e,
                    state,
                    now,
                ) == RunStepView::Handshake(d.name),
                ConnectStepView::Connected(info) => ends_with(
                    run,
                    after,
                    d.checks,
                    tls::evaluated(
                        d.name,
                        info,
                        d.tls,
                        tls::leaf_of(info.chain_der),
                        now.seconds,
                    ),
                    Some(info.chain_der[0]),
                ) && run::next_step(run, d, e, state, now) == run::opening(after.stage, d),
                ConnectStepView::Failed(why) => ends_with(
                    run,
                    after,
                    d.checks,
                    tls::error_result(d.name, why),
                    None,
                ) && run::next_step(run, d, e, state, now) == run::opening(after.stage, d),
            }
        }),
        run::next_state(run, d, RunEvent::Tls(event), state, now) == state,
{
    if let Progress::Finished(r, leaf) = run::tls_progress(d, event, now) {
        lemma_ends_with(run, d.checks, r, leaf);
    }
}

/// What events of the DNSSEC check do: each does what the check makes of it.
pub proof fn law_dns_events(
    run: DomainRunView,
    d: EffectiveDomainView,
    event: DnsEvent,
    state: Map<Seq<char>, DomainBaselineView>,
    now: Moment,
)
    requires
        run.stage == Stage::Dns,
    ensures
        ({
            let e = RunEvent::Dns(event);
            let after = run::stepped(run, d, e, state, now);
            let next = run::next_step(run, d, e, state, now);
            match dns::checked(d.name, event) {
                DnsStepView::LookUpAddresses(name) => after == run && next
                    == RunStepView::LookUpAddresses(name),
                DnsStepView::LookUpNameServers(name, why) => after == run && next
                    == RunStepView::LookUpNameServers(name, why),
                DnsStepView::Done(r) => ends_with(run, after, d.checks, r, run.live_leaf) && next
                    == run::opening(after.stage, d),
            }
        }),
        run::next_state(run, d, RunEvent::Dns(event), state, now) == state,
{
    if let Progress::Finished(r, leaf) = run::dns_progress(run, d, event) {
        lemma_ends_with(run, d.checks, r, leaf);
    }
}

/// What events of the two other checks do: the page is judged with the header
/// settings; the logs are judged with their settings against what is known of
/// the domain and the fingerprint of the live certificate, and the baselines
/// advance.
pub proof fn law_headers_and_ct_events(
    run: DomainRunView,
    d: EffectiveDomainView,
    page: HeaderFetch,
    logs: CtFetch,
    state: Map<Seq<char>, DomainBaselineView>,
    now: Moment,
)
    ensures
        run.stage == Stage::Headers ==> {
            let e = RunEvent::Headers(page);
            let after = run::stepped(run, d, e, state, now);
            &&& ends_with(
                run,
                after,
                d.checks,
                headers::checked("https://"@ + d.name + "/"@, d.headers, page),
                run.live_leaf,
            )
            &&& run::next_step(run, d, e, state, now) == run::opening(after.stage, d)
            &&& run::next_state(run, d, e, state, now) == state
        },
        run.stage == Stage::Ct ==> {
            let e = RunEvent::Ct(logs);
            let after = run::stepped(run, d, e, state, now);
            &&& ends_with(
                run,
                after,
                d.checks,
                ct::checked(
                    d.name,
                    logs,
                    ct::known(state, d.name),
                    d.ct,
                    match run.live_leaf {
                        Some(der) => Some(ct::hex_text(ct::sha256(der))),
                        None => None,
                    },
                ),
                run.live_leaf,
            )
            &&& run::next_step(run, d, e, state, now) == run::opening(after.stage, d)
            &&& run::next_state(run, d, e, state, now) == ct::advanced(state, d.name, logs, now)
        },
{
    if run.stage == Stage::Headers {
        let r = headers::checked("https://"@ + d.name + "/"@, d.headers, page);
        lemma_ends_with(run, d.checks, r, run.live_leaf);
    }
    if run.stage == Stage::Ct {
        let r = ct::checked(
            d.name,
            logs,
            ct::known(state, d.name),
            d.ct,
            run::live_fingerprint(run),
        );
        lemma_ends_with(run, d.checks, r, run.live_leaf);
    }
}

/// An event of another check changes nothing, and the work of the check under
/// way is asked for again.
pub proof fn law_other_events_change_nothing(
    run: DomainRunView,
    d: EffectiveDomainView,
    event: RunEvent,
    state: Map<Seq<char>, DomainBaselineView>,
    now: Moment,
)
    requires
        event is Tls ==> run.stage != Stage::Tls,
        event is Dns ==> run.stage != Stage::Dns,
        event is Headers ==> run.stage != Stage::Headers,
        event is Ct ==> run.stage != Stage::Ct,
    ensures
        run::stepped(run, d, event, state, now) == run,
        run::next_step(run, d, event, state, now) == run::opening(run.stage, d),
        run::next_state(run, d, event, state, now) == state,
{
}

/// Runs and steps are read as they stand.
pub proof fn law_run_is_read_in_full(
    run: DomainRun,
    a: String,
    b: String,
    n: u64,
    cfg: &Config,
)
    ensures
        run@.stage == run.stage,
        run@.report == run.report@,
        run.live_leaf is None <==> run@.live_leaf is None,
        run.live_leaf matches Some(der) ==> run@.live_leaf == Some(der@),
        RunStep::OpenConnection(a)@ == RunStepView::OpenConnection(a@),
        RunStep::Handshake(a)@ == RunStepView::Handshake(a@),
        RunStep::SetUpResolver@ is SetUpResolver,
        RunStep::LookUpAddresses(a)@ == RunStepView::LookUpAddresses(a@),
        RunStep::LookUpNameServers(a, b)@ == RunStepView::LookUpNameServers(a@, b@),
        RunStep::FetchPage(a, n)@ == RunStepView::FetchPage(a@, n),
        RunStep::QueryLogs(a, n)@ == RunStepView::QueryLogs(a@, n),
        RunStep::Done@ is Done,
        run::opt_config(Some(cfg)) == Some(cfg@),
        run::opt_config(None) is None,
{
}

} // verus!
