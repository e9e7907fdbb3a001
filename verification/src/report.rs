//! Results of checks, and the report made of them.

use crate::text;
use vstd::prelude::*;

verus! {

// ---------------------------------------------------------------------
// Status
// ---------------------------------------------------------------------

/// Outcome of a single check against a single domain.
#[derive(Debug, Clone, Copy, PartialEq, Eq, Structural)]
pub enum Status {
    /// The check ran and everything matched the expected baseline.
    Pass,
    /// The check ran and found something to look at that is no failure.
    Warn,
    /// The check ran and found a drift from the baseline; this fails the build.
    Fail,
    /// The check could not be completed. Does not fail the build, and is no
    /// clean bill of health either.
    Skip,
}

impl Status {
    /// The word for a status.
    pub open spec fn word(self) -> Seq<char> {
        match self {
            Status::Pass => "PASS"@,
            Status::Warn => "WARN"@,
            Status::Fail => "FAIL"@,
            Status::Skip => "SKIP"@,
        }
    }

    /// The mark for a status.
    pub open spec fn mark(self) -> Seq<char> {
        match self {
            Status::Pass => "\u{2713}"@,
            Status::Warn => "!"@,
            Status::Fail => "\u{2717}"@,
            Status::Skip => "-"@,
        }
    }

    /// Whether this status fails the build.
    pub fn is_failing(self) -> (r: bool)
        ensures
            r == (self == Status::Fail),
    {
        matches!(self, Status::Fail)
    }

    /// The mark that a report shows for this status.
    pub fn icon(self) -> (r: &'static str)
        ensures
            r@ == self.mark(),
    {
        match self {
            Status::Pass => "\u{2713}",
            Status::Warn => "!",
            Status::Fail => "\u{2717}",
            Status::Skip => "-",
        }
    }

    /// The word that a report shows for this status.
    pub fn label(self) -> (r: &'static str)
        ensures
            r@ == self.word(),
    {
        match self {
            Status::Pass => "PASS",
            Status::Warn => "WARN",
            Status::Fail => "FAIL",
            Status::Skip => "SKIP",
        }
    }
}

// ---------------------------------------------------------------------
// Result of one check
// ---------------------------------------------------------------------

/// Result of one named check (dns / tls / ct / headers) for one domain.
#[derive(Debug, Clone)]
pub struct CheckResult {
    pub check: String,
    pub status: Status,
    pub summary: String,
    pub details: Vec<String>,
}

/// The contents of a [`CheckResult`].
#[verifier::ext_equal]
pub struct CheckResultView {
    pub check: Seq<char>,
    pub status: Status,
    pub summary: Seq<char>,
    pub details: Seq<Seq<char>>,
}

impl View for CheckResult {
    type V = CheckResultView;

    open spec fn view(&self) -> CheckResultView {
        CheckResultView {
            check: self.check@,
            status: self.status,
            summary: self.summary@,
            details: text::texts(self.details@),
        }
    }
}

/// A result without details.
pub open spec fn bare(check: Seq<char>, status: Status, summary: Seq<char>) -> CheckResultView {
    CheckResultView { check, status, summary, details: Seq::empty() }
}

/// The status of a check that found a failure, or else a warning, or else
/// neither.
pub open spec fn verdict(failed: bool, warned: bool) -> Status {
    if failed {
        Status::Fail
    } else if warned {
        Status::Warn
    } else {
        Status::Pass
    }
}

impl CheckResult {
    /// A result with the given status and no details.
    fn plain(check: &str, status: Status, summary: &str) -> (r: Self)
        ensures
            r@ == bare(check@, status, summary@),
    {
        let r = CheckResult {
            check: check.to_owned(),
            status,
            summary: summary.to_owned(),
            details: Vec::new(),
        };
        assert(r@ =~= bare(check@, status, summary@));
        r
    }

    /// A passing result.
    pub fn pass(check: &str, summary: &str) -> (r: Self)
        ensures
            r@ == bare(check@, Status::Pass, summary@),
    {
        Self::plain(check, Status::Pass, summary)
    }

    /// A result with a warning.
    pub fn warn(check: &str, summary: &str) -> (r: Self)
        ensures
            r@ == bare(check@, Status::Warn, summary@),
    {
        Self::plain(check, Status::Warn, summary)
    }

    /// A failing result.
    pub fn fail(check: &str, summary: &str) -> (r: Self)
        ensures
            r@ == bare(check@, Status::Fail, summary@),
    {
        Self::plain(check, Status::Fail, summary)
    }

    /// The result of a check that could not be completed.
    pub fn skip(check: &str, summary: &str) -> (r: Self)
        ensures
            r@ == bare(check@, Status::Skip, summary@),
    {
        Self::plain(check, Status::Skip, summary)
    }

    /// The result of a check that ran to its end.
    pub(crate) fn decided(
        check: &str,
        failed: bool,
        warned: bool,
        summary: &str,
        details: Vec<String>,
    ) -> (r: Self)
        ensures
            r@ == (CheckResultView {
                check: check@,
                status: verdict(failed, warned),
                summary: summary@,
                details: text::texts(details@),
            }),
    {
        let r = if failed {
            CheckResult::fail(check, summary)
        } else if warned {
            CheckResult::warn(check, summary)
        } else {
            CheckResult::pass(check, summary)
        };
        let r = r.with_details(details);
        assert(Seq::<Seq<char>>::empty() + text::texts(details@) =~= text::texts(details@));
        r
    }

    /// This result with one more detail.
    pub fn with_detail(self, detail: &str) -> (r: Self)
        ensures
            r@ == (CheckResultView { details: self@.details.push(detail@), ..self@ }),
    {
        let mut details = self.details;
        text::push_text(&mut details, detail.to_owned());
        CheckResult { check: self.check, status: self.status, summary: self.summary, details }
    }

    /// This result with more details.
    pub fn with_details(self, details: Vec<String>) -> (r: Self)
        ensures
            r@ == (CheckResultView { details: self@.details + text::texts(details@), ..self@ }),
    {
        let mut all = self.details;
        text::append_texts(&mut all, details);
        CheckResult { check: self.check, status: self.status, summary: self.summary, details: all }
    }
}

// ---------------------------------------------------------------------
// Results for one domain
// ---------------------------------------------------------------------

/// All check results for a single domain.
#[derive(Debug, Clone)]
pub struct DomainReport {
    pub domain: String,
    pub results: Vec<CheckResult>,
}

/// The contents of a [`DomainReport`].
#[verifier::ext_equal]
pub struct DomainReportView {
    pub domain: Seq<char>,
    pub results: Seq<CheckResultView>,
}

/// The contents of a list of results.
pub open spec fn result_views(v: Seq<CheckResult>) -> Seq<CheckResultView> {
    Seq::new(v.len(), |i: int| v[i]@)
}

impl View for DomainReport {
    type V = DomainReportView;

    open spec fn view(&self) -> DomainReportView {
        DomainReportView { domain: self.domain@, results: result_views(self.results@) }
    }
}

/// Whether some result has the status `s`.
pub open spec fn has_status(results: Seq<CheckResultView>, s: Status) -> bool {
    exists|i: int| 0 <= i < results.len() && (#[trigger] results[i]).status == s
}

/// The worst status among results: a failure, else a warning, else a skip,
/// else a pass. Without results nothing was checked: a skip.
pub open spec fn worst(results: Seq<CheckResultView>) -> Status {
    if has_status(results, Status::Fail) {
        Status::Fail
    } else if has_status(results, Status::Warn) {
        Status::Warn
    } else if has_status(results, Status::Skip) || results.len() == 0 {
        Status::Skip
    } else {
        Status::Pass
    }
}

/// How many results have the status `s`.
pub open spec fn status_count(results: Seq<CheckResultView>, s: Status) -> nat
    decreases results.len(),
{
    if results.len() == 0 {
        0
    } else {
        status_count(results.drop_last(), s) + if results.last().status == s {
            1nat
        } else {
            0nat
        }
    }
}

impl DomainReport {
    /// A report without results.
    pub fn new(domain: &str) -> (r: Self)
        ensures
            r@ == (DomainReportView { domain: domain@, results: Seq::empty() }),
    {
        let r = DomainReport { domain: domain.to_owned(), results: Vec::new() };
        assert(r@ =~= DomainReportView { domain: domain@, results: Seq::empty() });
        r
    }

    /// Adds one result at the end.
    pub fn push(&mut self, result: CheckResult)
        ensures
            final(self)@ == (DomainReportView {
                results: old(self)@.results.push(result@),
                ..old(self)@
            }),
    {
        self.results.push(result);
        assert(self@ =~= DomainReportView {
            results: old(self)@.results.push(result@),
            ..old(self)@
        });
    }

    /// Whether some result has the status `s`.
    fn has(&self, s: Status) -> (r: bool)
        ensures
            r == has_status(self@.results, s),
    {
        for i in 0..self.results.len()
            invariant
                forall|j: int| 0 <= j < i ==> (#[trigger] self@.results[j]).status != s,
        {
            if self.results[i].status == s {
                assert(self@.results[i as int].status == s);
                return true;
            }
        }
        false
    }

    /// Whether some check failed.
    pub fn has_failure(&self) -> (r: bool)
        ensures
            r == has_status(self@.results, Status::Fail),
    {
        self.has(Status::Fail)
    }

    /// The worst status among the results.
    pub fn worst_status(&self) -> (r: Status)
        ensures
            r == worst(self@.results),
    {
        if self.has(Status::Fail) {
            Status::Fail
        } else if self.has(Status::Warn) {
            Status::Warn
        } else if self.results.len() == 0 || self.has(Status::Skip) {
            Status::Skip
        } else {
            Status::Pass
        }
    }

    /// How many results have the status `s`.
    fn count(&self, s: Status) -> (r: usize)
        ensures
            r == status_count(self@.results, s),
            r <= self.results@.len(),
    {
        let mut n: usize = 0;
        let ghost all = self@.results;
        for i in 0..self.results.len()
            invariant
                all == self@.results,
                n == status_count(all.take(i as int), s),
                n <= i,
        {
            assert(all.take(i + 1).drop_last() =~= all.take(i as int));
            assert(all.take(i + 1).last().status == self.results@[i as int].status);
            if self.results[i].status == s {
                n = n + 1;
            }
        }
        assert(all.take(all.len() as int) =~= all);
        n
    }
}

// ---------------------------------------------------------------------
// Results of a run
// ---------------------------------------------------------------------

/// The complete result of a run across every scanned domain.
#[derive(Debug, Clone)]
pub struct Report {
    pub domains: Vec<DomainReport>,
}

/// The contents of a list of domain reports.
pub open spec fn report_views(v: Seq<DomainReport>) -> Seq<DomainReportView> {
    Seq::new(v.len(), |i: int| v[i]@)
}

impl View for Report {
    type V = Seq<DomainReportView>;

    open spec fn view(&self) -> Seq<DomainReportView> {
        report_views(self.domains@)
    }
}

/// Whether some check failed for some domain.
pub open spec fn any_failure(domains: Seq<DomainReportView>) -> bool {
    exists|i: int|
        0 <= i < domains.len() && has_status((#[trigger] domains[i]).results, Status::Fail)
}

/// How many results of all domains have the status `s`.
pub open spec fn total_count(domains: Seq<DomainReportView>, s: Status) -> nat
    decreases domains.len(),
{
    if domains.len() == 0 {
        0
    } else {
        total_count(domains.drop_last(), s) + status_count(domains.last().results, s)
    }
}

/// The lines for the details of a result.
pub open spec fn details_text(details: Seq<Seq<char>>) -> Seq<char>
    decreases details.len(),
{
    if details.len() == 0 {
        Seq::empty()
    } else {
        details_text(details.drop_last()) + "        - "@ + details.last() + "\n"@
    }
}

/// The first line for a result: its mark, its word padded to eight columns,
/// the check and the summary.
pub open spec fn result_line(r: CheckResultView) -> Seq<char> {
    "  ["@ + r.status.mark() + "] "@ + r.status.word() + "    "@ + " "@ + r.check + ": "@ + r.summary
        + "\n"@
}

/// The lines for a result: the first one and the details.
pub open spec fn result_text(r: CheckResultView) -> Seq<char> {
    result_line(r) + details_text(r.details)
}

/// The lines for the results of a domain.
pub open spec fn results_text(results: Seq<CheckResultView>) -> Seq<char>
    decreases results.len(),
{
    if results.len() == 0 {
        Seq::empty()
    } else {
        results_text(results.drop_last()) + result_text(results.last())
    }
}

/// The lines for a domain: a heading with its worst status, its results, and
/// an empty line.
pub open spec fn domain_text(d: DomainReportView) -> Seq<char> {
    "== "@ + d.domain + " ["@ + worst(d.results).word() + "] ==\n"@ + results_text(d.results)
        + "\n"@
}

/// The lines for all domains.
pub open spec fn domains_text(domains: Seq<DomainReportView>) -> Seq<char>
    decreases domains.len(),
{
    if domains.len() == 0 {
        Seq::empty()
    } else {
        domains_text(domains.drop_last()) + domain_text(domains.last())
    }
}

/// The last line: the verdict and how many results there are of each kind.
pub open spec fn closing_line(fails: nat, warns: nat, skips: nat) -> Seq<char> {
    if fails > 0 {
        "RESULT: FAIL ("@ + text::decimal(fails) + " failing, "@ + text::decimal(warns)
            + " warnings, "@ + text::decimal(skips) + " skipped)\n"@
    } else {
        "RESULT: PASS ("@ + text::decimal(warns) + " warnings, "@ + text::decimal(skips)
            + " skipped)\n"@
    }
}

/// The last line of a report.
pub open spec fn verdict_line(domains: Seq<DomainReportView>) -> Seq<char> {
    closing_line(
        total_count(domains, Status::Fail),
        total_count(domains, Status::Warn),
        total_count(domains, Status::Skip),
    )
}

/// A report as text.
pub open spec fn human_text(domains: Seq<DomainReportView>) -> Seq<char> {
    domains_text(domains) + verdict_line(domains)
}

impl Report {
    /// A report without domains.
    pub fn new() -> (r: Self)
        ensures
            r@ == Seq::<DomainReportView>::empty(),
    {
        let r = Report { domains: Vec::new() };
        assert(r@ =~= Seq::<DomainReportView>::empty());
        r
    }

    /// Adds the report of one domain at the end.
    pub fn push(&mut self, domain: DomainReport)
        ensures
            final(self)@ == old(self)@.push(domain@),
    {
        self.domains.push(domain);
        assert(self@ =~= old(self)@.push(domain@));
    }

    /// Whether some check failed for some domain.
    pub fn has_failure(&self) -> (r: bool)
        ensures
            r == any_failure(self@),
    {
        for i in 0..self.domains.len()
            invariant
                forall|j: int|
                    0 <= j < i ==> !has_status((#[trigger] self@[j]).results, Status::Fail),
        {
            if self.domains[i].has_failure() {
                assert(has_status(self@[i as int].results, Status::Fail));
                return true;
            }
        }
        false
    }

    /// How many results of all domains have the status `s`.
    fn total(&self, s: Status) -> (r: u128)
        ensures
            r == total_count(self@, s),
    {
        let mut n: u128 = 0;
        let ghost all = self@;
        let len: usize = self.domains.len();
        for i in 0..len
            invariant
                all == self@,
                len == self.domains@.len(),
                n == total_count(all.take(i as int), s),
                n <= i * usize::MAX,
        {
            assert(all.take(i + 1).drop_last() =~= all.take(i as int));
            assert(all.take(i + 1).last() == self.domains@[i as int]@);
            assert(i * usize::MAX + usize::MAX == (i + 1) * usize::MAX
                && (i + 1) * usize::MAX <= u128::MAX) by (nonlinear_arith)
                requires
                    0 <= i < usize::MAX,
            ;
            n = n + self.domains[i].count(s) as u128;
        }
        assert(all.take(all.len() as int) =~= all);
        n
    }

    /// The report as text for people.
    pub fn to_human(&self) -> (r: String)
        ensures
            r@ == human_text(self@),
    {
        let mut out = String::new();
        let ghost all = self@;
        assert(all.take(0) =~= Seq::<DomainReportView>::empty());
        for i in 0..self.domains.len()
            invariant
                all == self@,
                out@ == domains_text(all.take(i as int)),
        {
            proof {
                assert(all.take(i + 1).drop_last() =~= all.take(i as int));
                assert(all.take(i + 1).last() == self.domains@[i as int]@);
            }
            append_domain(&mut out, &self.domains[i]);
            assert(out@ == domains_text(all.take(i + 1)));
        }
        assert(all.take(all.len() as int) =~= all);
        let ghost before = out@;
        let fails = self.total(Status::Fail);
        let warns = self.total(Status::Warn);
        let skips = self.total(Status::Skip);
        if fails > 0 {
            out.append("RESULT: FAIL (");
            out.append(text::show_u128(fails).as_str());
            out.append(" failing, ");
        } else {
            out.append("RESULT: PASS (");
        }
        out.append(text::show_u128(warns).as_str());
        out.append(" warnings, ");
        out.append(text::show_u128(skips).as_str());
        out.append(" skipped)\n");
        assert(out@ =~= before + closing_line(fails as nat, warns as nat, skips as nat));
        out
    }
}

/// The lines for the details of a result.
fn show_details(v: &Vec<String>) -> (r: String)
    ensures
        r@ == details_text(text::texts(v@)),
{
    let mut out = String::new();
    let ghost details = text::texts(v@);
    assert(details.take(0) =~= Seq::<Seq<char>>::empty());
    for k in 0..v.len()
        invariant
            details == text::texts(v@),
            out@ == details_text(details.take(k as int)),
    {
        assert(details.take(k + 1).drop_last() =~= details.take(k as int));
        out.append("        - ");
        out.append(v[k].as_str());
        out.append("\n");
        assert(out@ == details_text(details.take(k + 1)));
    }
    assert(details.take(details.len() as int) =~= details);
    out
}

/// Appends the lines for one result.
fn append_result(out: &mut String, r: &CheckResult)
    ensures
        final(out)@ == old(out)@ + result_text(r@),
{
    let line = "  [".to_owned().concat(r.status.icon()).concat("] ").concat(
        r.status.label(),
    ).concat("    ").concat(" ").concat(r.check.as_str()).concat(": ").concat(
        r.summary.as_str(),
    ).concat("\n");
    assert(line@ == result_line(r@));
    let details = show_details(&r.details);
    let both = line.concat(details.as_str());
    out.append(both.as_str());
}

/// Appends the lines for one domain.
fn append_domain(out: &mut String, d: &DomainReport)
    ensures
        final(out)@ == old(out)@ + domain_text(d@),
{
    let ghost before = out@;
    out.append("== ");
    out.append(d.domain.as_str());
    out.append(" [");
    out.append(d.worst_status().label());
    out.append("] ==\n");
    let ghost start = out@;
    let ghost results = d@.results;
    assert(results.take(0) =~= Seq::<CheckResultView>::empty());
    assert(start + results_text(results.take(0)) =~= start);
    for k in 0..d.results.len()
        invariant
            results == d@.results,
            out@ == start + results_text(results.take(k as int)),
    {
        assert(results.take(k + 1).drop_last() =~= results.take(k as int));
        assert(results.take(k + 1).last() == d.results@[k as int]@);
        append_result(out, &d.results[k]);
        assert(out@ =~= start + results_text(results.take(k + 1)));
    }
    assert(results.take(results.len() as int) =~= results);
    out.append("\n");
    assert(out@ =~= before + domain_text(d@));
}

impl Default for Report {
    /// A report without domains.
    fn default() -> (r: Self)
        ensures
            r@ == Seq::<DomainReportView>::empty(),
    {
        Report::new()
    }
}

// ---------------------------------------------------------------------
// Laws
// ---------------------------------------------------------------------

/// There is a result with a status exactly where that status is counted.
pub proof fn law_counted_iff_present(results: Seq<CheckResultView>, s: Status)
    ensures
        status_count(results, s) > 0 <==> has_status(results, s),
    decreases results.len(),
{
    if results.len() > 0 {
        let rest = results.drop_last();
        law_counted_iff_present(rest, s);
        if has_status(rest, s) {
            let i = choose|i: int| 0 <= i < rest.len() && (#[trigger] rest[i]).status == s;
            assert(results[i].status == s);
        }
        if results.last().status == s {
            assert(results[results.len() - 1].status == s);
        }
        if has_status(results, s) {
            let i = choose|i: int| 0 <= i < results.len() && (#[trigger] results[i]).status == s;
            if i < rest.len() {
                assert(rest[i].status == s);
            }
        }
    }
}

/// A domain's worst status is a failure exactly where one of its checks
/// failed.
pub proof fn law_worst_is_fail_iff_failure(results: Seq<CheckResultView>)
    ensures
        worst(results) == Status::Fail <==> has_status(results, Status::Fail),
{
}

/// A domain's worst status is a pass exactly where checks ran and every one of
/// them passed: a skip is never taken for a pass.
pub proof fn law_worst_is_pass_iff_all_passed(results: Seq<CheckResultView>)
    ensures
        worst(results) == Status::Pass <==> results.len() > 0 && forall|i: int|
            0 <= i < results.len() ==> (#[trigger] results[i]).status == Status::Pass,
{
    if worst(results) == Status::Pass {
        assert forall|i: int| 0 <= i < results.len() implies (#[trigger] results[i]).status
            == Status::Pass by {
            assert(results[i].status != Status::Fail);
            assert(results[i].status != Status::Warn);
            assert(results[i].status != Status::Skip);
        }
    }
}

/// A skip or a warning never fails a domain by itself: one more result fails it
/// exactly where it is a failure. A skip is never taken for a pass all the same.
pub proof fn law_only_a_failure_fails(results: Seq<CheckResultView>, r: CheckResultView)
    ensures
        has_status(results.push(r), Status::Fail) <==> has_status(results, Status::Fail) || r.status
            == Status::Fail,
        r.status == Status::Skip ==> worst(results.push(r)) != Status::Pass,
{
    let more = results.push(r);
    assert(more[results.len() as int] == r);
    if has_status(results, Status::Fail) {
        let i = choose|i: int|
            0 <= i < results.len() && (#[trigger] results[i]).status == Status::Fail;
        assert(more[i] == results[i]);
    }
    if has_status(more, Status::Fail) && r.status != Status::Fail {
        let i = choose|i: int| 0 <= i < more.len() && (#[trigger] more[i]).status == Status::Fail;
        assert(results[i] == more[i]);
    }
}

/// A report's text closes with a failing verdict exactly where the report has
/// a failure.
pub proof fn law_text_fails_iff_failure(domains: Seq<DomainReportView>)
    ensures
        human_text(domains) == domains_text(domains) + verdict_line(domains),
        "RESULT: FAIL ("@.is_prefix_of(verdict_line(domains)) <==> any_failure(domains),
{
    law_failures_counted_iff_any(domains);
    reveal_strlit("RESULT: FAIL (");
    reveal_strlit("RESULT: PASS (");
    let line = verdict_line(domains);
    let failing = "RESULT: FAIL ("@;
    if any_failure(domains) {
        assert(line.subrange(0, failing.len() as int) =~= failing);
    } else {
        assert(line[8] == 'P');
        assert(failing[8] == 'F');
    }
}

/// Failures are counted over all domains exactly where there is one.
pub proof fn law_failures_counted_iff_any(domains: Seq<DomainReportView>)
    ensures
        total_count(domains, Status::Fail) > 0 <==> any_failure(domains),
    decreases domains.len(),
{
    if domains.len() > 0 {
        let rest = domains.drop_last();
        law_failures_counted_iff_any(rest);
        law_counted_iff_present(domains.last().results, Status::Fail);
        if any_failure(rest) {
            let i = choose|i: int|
                0 <= i < rest.len() && has_status((#[trigger] rest[i]).results, Status::Fail);
            assert(has_status(domains[i].results, Status::Fail));
        }
        if has_status(domains.last().results, Status::Fail) {
            assert(has_status(domains[domains.len() - 1].results, Status::Fail));
        }
        if any_failure(domains) {
            let i = choose|i: int|
                0 <= i < domains.len() && has_status((#[trigger] domains[i]).results, Status::Fail);
            if i < rest.len() {
                assert(has_status(rest[i].results, Status::Fail));
            }
        }
    }
}

} // verus!
