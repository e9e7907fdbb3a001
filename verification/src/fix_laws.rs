//! What the fix command plans and says.

use crate::config::HeadersConfigView;
use crate::fix;
use crate::fix::{FixPlan, FixPlanView, FixStep, FixStepView, HeadersFileRead};
use crate::headers;
use crate::headers::{HeaderFetch, HeaderFix, HeaderFixView};
use crate::headers_file;
use vstd::prelude::*;

verus! {

/// A plan keeps the file and the fixes as they are given, and what comes after
/// is what the fixes make of what was before.
pub proof fn law_plan(path: Seq<char>, before: Seq<char>, fixes: Seq<HeaderFixView>)
    ensures
        ({
            let p = fix::planned(path, before, fixes);
            &&& p.file_path == path
            &&& p.before == before
            &&& p.fixes == fixes
            &&& p.after == headers_file::fixed_contents(before, fixes)
        }),
{
}

/// Fixes are read as they stand, in their order.
pub proof fn law_fixes_are_read_in_full(v: Seq<HeaderFix>, i: int)
    ensures
        headers::fix_views(v).len() == v.len(),
        0 <= i < v.len() ==> headers::fix_views(v)[i].header == v[i].header@ && headers::fix_views(
            v,
        )[i].value == v[i].value@ && headers::fix_views(v)[i].reason == v[i].reason@,
{
}

/// What a plan says: that nothing is to change exactly where nothing changes,
/// else the fixes, one after the other, and the file before and after.
pub proof fn law_plan_text(
    plan: FixPlanView,
    domain: Seq<char>,
    a: Seq<HeaderFixView>,
    b: Seq<HeaderFixView>,
)
    ensures
        plan.before == plan.after ==> fix::plan_text(plan, domain) == plan.file_path
            + " already has these headers -- nothing to change.\n(The live site at "@ + domain
            + " doesn't have them yet -- this just means an earlier run already wrote the fix locally. If a pull request is still open from that run, that's the one to merge.)\n"@,
        plan.before != plan.after ==> fix::plan_text(plan, domain) == "Proposed changes to "@
            + plan.file_path + ":\n\n"@ + fix::fix_lines(plan.fixes) + "\n--- before ---\n"@
            + plan.before + "\n--- after ---\n"@ + plan.after
            + "\n\nNo files were changed -- outpost fix only ever prints what to change. Apply it yourself and commit it however you normally would.\n"@,
        fix::fix_lines(a + b) == fix::fix_lines(a) + fix::fix_lines(b),
        a.len() == 1 ==> fix::fix_lines(a) == "  + "@ + a[0].header + ": "@ + a[0].value
            + "\n      "@ + a[0].reason + "\n"@,
    decreases b.len(),
{
    let none = Seq::<HeaderFixView>::empty();
    assert(fix::fix_lines(none) =~= Seq::<char>::empty());
    if a.len() == 1 {
        assert(a.drop_last() =~= none);
        assert(fix::fix_lines(a) =~= "  + "@ + a[0].header + ": "@ + a[0].value + "\n      "@
            + a[0].reason + "\n"@);
    }
    if b.len() == 0 {
        assert(a + b =~= a);
        assert(fix::fix_lines(a) + fix::fix_lines(b) =~= fix::fix_lines(a));
    } else {
        law_plan_text(plan, domain, a, b.drop_last());
        assert((a + b).drop_last() =~= a + b.drop_last());
        assert((a + b).last() == b.last());
        assert(fix::fix_lines(a + b) =~= fix::fix_lines(a) + fix::fix_lines(b));
    }
}

/// What comes after fetching the page: the file is asked for exactly where
/// something is suggested, and with just that; a page that could not be fetched
/// is trouble.
pub proof fn law_after_fetch(domain: Seq<char>, cfg: HeadersConfigView, fetch: HeaderFetch)
    ensures
        match fetch {
            HeaderFetch::NoClient(why) => fix::after_fetch(domain, cfg, fetch)
                == FixStepView::Trouble("could not build HTTP client: "@ + why@),
            HeaderFetch::Unreachable(why) => fix::after_fetch(domain, cfg, fetch)
                == FixStepView::Trouble(
                "could not fetch "@ + headers::front_page(domain) + ": "@ + why@,
            ),
            HeaderFetch::Response(h) => {
                let fixes = headers::suggested(headers::header_contents(h), cfg);
                &&& fixes.len() > 0 ==> fix::after_fetch(domain, cfg, fetch)
                    == FixStepView::ReadFile(fixes)
                &&& fixes.len() == 0 ==> fix::after_fetch(domain, cfg, fetch) == FixStepView::Print(
                    "No fixable header issues found for "@ + domain + ".\n"@,
                )
            },
        },
{
}

/// What comes after reading the file: the plan for what it holds, a missing file
/// holding nothing; one that cannot be read is trouble.
pub proof fn law_after_read(
    domain: Seq<char>,
    path: Seq<char>,
    file: HeadersFileRead,
    fixes: Seq<HeaderFixView>,
)
    ensures
        match file {
            HeadersFileRead::Contents(before) => fix::after_read(domain, path, file, fixes)
                == FixStepView::Print(fix::plan_text(fix::planned(path, before@, fixes), domain)),
            HeadersFileRead::NotFound => fix::after_read(domain, path, file, fixes)
                == FixStepView::Print(
                fix::plan_text(fix::planned(path, Seq::empty(), fixes), domain),
            ),
            HeadersFileRead::Failed(why) => fix::after_read(domain, path, file, fixes)
                == FixStepView::Trouble("could not read "@ + path + ": "@ + why@),
        },
{
}

/// Plans and steps are read as they stand.
pub proof fn law_fix_steps_are_read_in_full(plan: FixPlan, fixes: Vec<HeaderFix>, s: String)
    ensures
        plan@.file_path == plan.file_path@,
        plan@.before == plan.before@,
        plan@.after == plan.after@,
        plan@.fixes == headers::fix_views(plan.fixes@),
        FixStep::ReadFile(fixes)@ == FixStepView::ReadFile(headers::fix_views(fixes@)),
        FixStep::Print(s)@ == FixStepView::Print(s@),
        FixStep::Trouble(s)@ == FixStepView::Trouble(s@),
{
}

} // verus!
