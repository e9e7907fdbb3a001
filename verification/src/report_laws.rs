//! What a report says, in terms of its results alone.

use crate::report;
use crate::report::{CheckResult, CheckResultView, DomainReport, DomainReportView, Report, Status};
use crate::text;
use crate::text_laws;
use vstd::prelude::*;

verus! {

/// Results are read as they stand, in their order.
pub proof fn law_results_are_read_in_full(r: CheckResult, d: DomainReport, all: Report, i: int)
    ensures
        r@.check == r.check@,
        r@.status == r.status,
        r@.summary == r.summary@,
        r@.details.len() == r.details@.len(),
        0 <= i < r.details@.len() ==> r@.details[i] == r.details@[i]@,
        d@.domain == d.domain@,
        d@.results.len() == d.results@.len(),
        0 <= i < d.results@.len() ==> d@.results[i] == d.results@[i]@,
        all@.len() == all.domains@.len(),
        0 <= i < all.domains@.len() ==> all@[i] == all.domains@[i]@,
{
}

/// A result without details.
pub proof fn law_bare_result(check: Seq<char>, status: Status, summary: Seq<char>)
    ensures
        ({
            let r = report::bare(check, status, summary);
            r.check == check && r.status == status && r.summary == summary && r.details.len() == 0
        }),
{
}

/// The worst status of a domain: a failure, else a warning, else a skip; a pass
/// only where there are results and all of them passed.
pub proof fn law_worst_status_iff(results: Seq<CheckResultView>)
    ensures
        ({
            let w = report::worst(results);
            let fails = exists|i: int|
                0 <= i < results.len() && (#[trigger] results[i]).status == Status::Fail;
            let warns = exists|i: int|
                0 <= i < results.len() && (#[trigger] results[i]).status == Status::Warn;
            let skips = exists|i: int|
                0 <= i < results.len() && (#[trigger] results[i]).status == Status::Skip;
            &&& w == Status::Fail <==> fails
            &&& w == Status::Warn <==> !fails && warns
            &&& w == Status::Skip <==> !fails && !warns && (skips || results.len() == 0)
            &&& w == Status::Pass <==> !fails && !warns && !skips && results.len() > 0
        }),
{
}

/// A domain has a failure exactly where one of its results is one, and a report
/// where one of its domains has.
pub proof fn law_failure_iff(results: Seq<CheckResultView>, domains: Seq<DomainReportView>)
    ensures
        report::has_status(results, Status::Fail) <==> exists|i: int|
            0 <= i < results.len() && (#[trigger] results[i]).status == Status::Fail,
        report::any_failure(domains) <==> exists|i: int|
            0 <= i < domains.len() && report::worst((#[trigger] domains[i]).results)
                == Status::Fail,
{
    if report::any_failure(domains) {
        let i = choose|i: int|
            0 <= i < domains.len() && report::has_status(
                (#[trigger] domains[i]).results,
                Status::Fail,
            );
        assert(report::worst(domains[i].results) == Status::Fail);
    }
    if exists|i: int|
        0 <= i < domains.len() && report::worst((#[trigger] domains[i]).results) == Status::Fail {
        let i = choose|i: int|
            0 <= i < domains.len() && report::worst((#[trigger] domains[i]).results)
                == Status::Fail;
        assert(report::has_status(domains[i].results, Status::Fail));
    }
}

/// Results of a status are counted one by one.
pub proof fn law_counts_add_up(
    a: Seq<CheckResultView>,
    b: Seq<CheckResultView>,
    r: CheckResultView,
    s: Status,
)
    ensures
        report::status_count(a + b, s) == report::status_count(a, s) + report::status_count(b, s),
        report::status_count(seq![r], s) == if r.status == s {
            1nat
        } else {
            0nat
        },
    decreases b.len(),
{
    assert(seq![r].drop_last() =~= Seq::<CheckResultView>::empty());
    assert(report::status_count(seq![r].drop_last(), s) == 0);
    if b.len() == 0 {
        assert(a + b =~= a);
    } else {
        law_counts_add_up(a, b.drop_last(), r, s);
        assert((a + b).drop_last() =~= a + b.drop_last());
        assert((a + b).last() == b.last());
    }
}

/// The count over all domains is the sum of the counts of each.
pub proof fn law_totals_add_up(
    a: Seq<DomainReportView>,
    b: Seq<DomainReportView>,
    d: DomainReportView,
    s: Status,
)
    ensures
        report::total_count(a + b, s) == report::total_count(a, s) + report::total_count(b, s),
        report::total_count(seq![d], s) == report::status_count(d.results, s),
    decreases b.len(),
{
    assert(seq![d].drop_last() =~= Seq::<DomainReportView>::empty());
    assert(report::total_count(seq![d].drop_last(), s) == 0);
    if b.len() == 0 {
        assert(a + b =~= a);
    } else {
        law_totals_add_up(a, b.drop_last(), d, s);
        assert((a + b).drop_last() =~= a + b.drop_last());
        assert((a + b).last() == b.last());
    }
}

// ---------------------------------------------------------------------
// The text
// ---------------------------------------------------------------------

/// The word for each status.
pub open spec fn word_for(s: Status) -> Seq<char> {
    match s {
        Status::Pass => "PASS"@,
        Status::Warn => "WARN"@,
        Status::Fail => "FAIL"@,
        Status::Skip => "SKIP"@,
    }
}

/// The mark for each status.
pub open spec fn mark_for(s: Status) -> Seq<char> {
    match s {
        Status::Pass => seq!['\u{2713}'],
        Status::Warn => seq!['!'],
        Status::Fail => seq!['\u{2717}'],
        Status::Skip => seq!['-'],
    }
}

/// Each status is shown by its own word and mark.
pub proof fn law_words_and_marks(s: Status)
    ensures
        s.word() == word_for(s),
        s.mark() == mark_for(s),
{
    reveal_strlit("\u{2713}");
    reveal_strlit("!");
    reveal_strlit("\u{2717}");
    reveal_strlit("-");
    assert("\u{2713}"@ =~= seq!['\u{2713}']);
    assert("!"@ =~= seq!['!']);
    assert("\u{2717}"@ =~= seq!['\u{2717}']);
    assert("-"@ =~= seq!['-']);
}

/// A report's text is that of its domains, one after the other, and a closing
/// line with the verdict and the counts.
pub proof fn law_text_of_a_report(
    a: Seq<DomainReportView>,
    b: Seq<DomainReportView>,
    d: DomainReportView,
)
    ensures
        report::domains_text(a + b) == report::domains_text(a) + report::domains_text(b),
        report::domains_text(seq![d]) == report::domain_text(d),
        ({
            let f = report::total_count(a, Status::Fail);
            let w = report::total_count(a, Status::Warn);
            let s = report::total_count(a, Status::Skip);
            report::human_text(a) == report::domains_text(a) + (if f > 0 {
                "RESULT: FAIL ("@ + text::decimal(f) + " failing, "@ + text::decimal(w)
                    + " warnings, "@ + text::decimal(s) + " skipped)\n"@
            } else {
                "RESULT: PASS ("@ + text::decimal(w) + " warnings, "@ + text::decimal(s)
                    + " skipped)\n"@
            })
        }),
    decreases b.len(),
{
    let none = Seq::<DomainReportView>::empty();
    assert(seq![d].drop_last() =~= none);
    assert(report::domains_text(none) =~= Seq::<char>::empty());
    assert(report::domains_text(none) + report::domain_text(d) =~= report::domain_text(d));
    if b.len() == 0 {
        assert(a + b =~= a);
        assert(report::domains_text(a) + report::domains_text(b) =~= report::domains_text(a));
    } else {
        law_text_of_a_report(a, b.drop_last(), d);
        assert((a + b).drop_last() =~= a + b.drop_last());
        assert((a + b).last() == b.last());
        assert(report::domains_text(a + b) =~= report::domains_text(a) + report::domains_text(b));
    }
}

/// The text of a domain is a heading with its name and worst status, the lines of
/// its results, one after the other, and an empty line.
pub proof fn law_text_of_a_domain(
    domain: Seq<char>,
    a: Seq<CheckResultView>,
    b: Seq<CheckResultView>,
    r: CheckResultView,
)
    ensures
        report::domain_text(DomainReportView { domain, results: a }) == "== "@ + domain + " ["@
            + word_for(report::worst(a)) + "] ==\n"@ + report::results_text(a) + "\n"@,
        report::results_text(a + b) == report::results_text(a) + report::results_text(b),
        report::results_text(seq![r]) == report::result_text(r),
    decreases b.len(),
{
    law_words_and_marks(report::worst(a));
    let none = Seq::<CheckResultView>::empty();
    assert(seq![r].drop_last() =~= none);
    assert(report::results_text(none) =~= Seq::<char>::empty());
    assert(report::results_text(none) + report::result_text(r) =~= report::result_text(r));
    if b.len() == 0 {
        assert(a + b =~= a);
        assert(report::results_text(a) + report::results_text(b) =~= report::results_text(a));
    } else {
        law_text_of_a_domain(domain, a, b.drop_last(), r);
        assert((a + b).drop_last() =~= a + b.drop_last());
        assert((a + b).last() == b.last());
        assert(report::results_text(a + b) =~= report::results_text(a) + report::results_text(b));
    }
}

/// The text of a result is a line with its mark, its word, the check and the
/// summary, and a line for each of its details.
pub proof fn law_text_of_a_result(r: CheckResultView, a: Seq<Seq<char>>, b: Seq<Seq<char>>)
    ensures
        report::result_text(r) == "  ["@ + mark_for(r.status) + "] "@ + word_for(r.status)
            + "    "@ + " "@ + r.check + ": "@ + r.summary + "\n"@ + report::details_text(
            r.details,
        ),
        report::details_text(a + b) == report::details_text(a) + report::details_text(b),
        a.len() == 1 ==> report::details_text(a) == "        - "@ + a[0] + "\n"@,
    decreases b.len(),
{
    law_words_and_marks(r.status);
    let none = Seq::<Seq<char>>::empty();
    assert(report::details_text(none) =~= Seq::<char>::empty());
    if a.len() == 1 {
        assert(a.drop_last() =~= none);
        assert(report::details_text(a) =~= "        - "@ + a[0] + "\n"@);
    }
    if b.len() == 0 {
        assert(a + b =~= a);
        assert(report::details_text(a) + report::details_text(b) =~= report::details_text(a));
    } else {
        law_text_of_a_result(r, a, b.drop_last());
        assert((a + b).drop_last() =~= a + b.drop_last());
        assert((a + b).last() == b.last());
        assert(report::details_text(a + b) =~= report::details_text(a) + report::details_text(b));
    }
}

/// What occurs in a part of a text occurs in the text.
proof fn lemma_contains_within(a: Seq<char>, s: Seq<char>, b: Seq<char>, pat: Seq<char>)
    requires
        text::contains_text(s, pat),
    ensures
        text::contains_text(a + s + b, pat),
{
    text_laws::law_contains_text_iff(s, pat);
    let (x, y) = choose|x: Seq<char>, y: Seq<char>| s == #[trigger] (x + pat + y);
    assert(a + s + b =~= (a + x) + pat + (y + b));
    text_laws::law_contains_text_iff(a + s + b, pat);
}

/// The line of a result occurs in the text of its results.
proof fn lemma_line_in_results(results: Seq<CheckResultView>, j: int)
    requires
        0 <= j < results.len(),
    ensures
        text::contains_text(report::results_text(results), report::result_line(results[j])),
    decreases results.len(),
{
    let line = report::result_line(results[j]);
    let rest = results.drop_last();
    let before = report::results_text(rest);
    let last = report::result_text(results.last());
    let none = Seq::<char>::empty();
    if j < rest.len() {
        lemma_line_in_results(rest, j);
        lemma_contains_within(none, before, last, line);
        assert(none + before + last =~= before + last);
    } else {
        let details = report::details_text(results.last().details);
        assert(before + last =~= before + line + details);
        text_laws::law_contains_text_iff(before + last, line);
    }
}

/// Every result of every domain can be read in the report: its line is in the
/// text.
pub proof fn law_every_result_is_in_the_text(domains: Seq<DomainReportView>, i: int, j: int)
    requires
        0 <= i < domains.len(),
        0 <= j < domains[i].results.len(),
    ensures
        ({
            let r = domains[i].results[j];
            text::contains_text(
                report::human_text(domains),
                "  ["@ + mark_for(r.status) + "] "@ + word_for(r.status) + "    "@ + " "@ + r.check
                    + ": "@ + r.summary + "\n"@,
            )
        }),
{
    let r = domains[i].results[j];
    let line = report::result_line(r);
    law_words_and_marks(r.status);
    lemma_line_in_domains(domains, i, j);
    let none = Seq::<char>::empty();
    let text = report::domains_text(domains);
    let closing = report::verdict_line(domains);
    lemma_contains_within(none, text, closing, line);
    assert(none + text + closing =~= text + closing);
}

proof fn lemma_line_in_domains(domains: Seq<DomainReportView>, i: int, j: int)
    requires
        0 <= i < domains.len(),
        0 <= j < domains[i].results.len(),
    ensures
        text::contains_text(
            report::domains_text(domains),
            report::result_line(domains[i].results[j]),
        ),
    decreases domains.len(),
{
    let line = report::result_line(domains[i].results[j]);
    let rest = domains.drop_last();
    let before = report::domains_text(rest);
    let d = domains.last();
    let last = report::domain_text(d);
    let none = Seq::<char>::empty();
    if i < rest.len() {
        assert(rest[i] == domains[i]);
        lemma_line_in_domains(rest, i, j);
        lemma_contains_within(none, before, last, line);
        assert(none + before + last =~= before + last);
    } else {
        lemma_line_in_results(d.results, j);
        let heading = "== "@ + d.domain + " ["@ + report::worst(d.results).word() + "] ==\n"@;
        lemma_contains_within(heading, report::results_text(d.results), "\n"@, line);
        lemma_contains_within(before, last, none, line);
        assert(before + last + none =~= before + last);
    }
}

} // verus!
