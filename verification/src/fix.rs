//! The exact change that a `_headers` file needs, computed and never written.

use crate::config::{HeadersConfig, HeadersConfigView};
use crate::headers::{self, HeaderFetch, HeaderFix, HeaderFixView};
use crate::headers_file;
use crate::headers_file_laws;
use crate::text;
use vstd::prelude::*;

verus! {

/// What would change in a file.
pub struct FixPlan {
    pub file_path: String,
    pub before: String,
    pub after: String,
    pub fixes: Vec<HeaderFix>,
}

/// The contents of a [`FixPlan`].
#[verifier::ext_equal]
pub struct FixPlanView {
    pub file_path: Seq<char>,
    pub before: Seq<char>,
    pub after: Seq<char>,
    pub fixes: Seq<HeaderFixView>,
}

impl View for FixPlan {
    type V = FixPlanView;

    open spec fn view(&self) -> FixPlanView {
        FixPlanView {
            file_path: self.file_path@,
            before: self.before@,
            after: self.after@,
            fixes: headers::fix_views(self.fixes@),
        }
    }
}

/// What came of reading a `_headers` file.
pub enum HeadersFileRead {
    /// The contents of the file.
    Contents(String),
    /// There is no such file.
    NotFound,
    /// The file could not be read, for this reason.
    Failed(String),
}

/// The plan for a file with the contents `before`.
pub open spec fn planned(
    file_path: Seq<char>,
    before: Seq<char>,
    fixes: Seq<HeaderFixView>,
) -> FixPlanView {
    FixPlanView { file_path, before, after: headers_file::fixed_contents(before, fixes), fixes }
}

/// The lines for the fixes of a plan.
pub open spec fn fix_lines(fixes: Seq<HeaderFixView>) -> Seq<char>
    decreases fixes.len(),
{
    if fixes.len() == 0 {
        Seq::empty()
    } else {
        fix_lines(fixes.drop_last()) + "  + "@ + fixes.last().header + ": "@ + fixes.last().value
            + "\n      "@ + fixes.last().reason + "\n"@
    }
}

/// What a plan says to the person who runs it.
pub open spec fn plan_text(plan: FixPlanView, domain: Seq<char>) -> Seq<char> {
    if plan.before == plan.after {
        plan.file_path + " already has these headers -- nothing to change.\n(The live site at "@
            + domain
            + " doesn't have them yet -- this just means an earlier run already wrote the fix locally. If a pull request is still open from that run, that's the one to merge.)\n"@
    } else {
        "Proposed changes to "@ + plan.file_path + ":\n\n"@ + fix_lines(plan.fixes)
            + "\n--- before ---\n"@ + plan.before + "\n--- after ---\n"@ + plan.after
            + "\n\nNo files were changed -- outpost fix only ever prints what to change. Apply it yourself and commit it however you normally would.\n"@
    }
}

impl FixPlan {
    /// Whether the plan changes nothing.
    pub fn is_noop(&self) -> (r: bool)
        ensures
            r == (self@.before == self@.after),
    {
        text::same_text(self.before.as_str(), self.after.as_str())
    }

    /// What this plan says to the person who runs it.
    pub fn describe(&self, domain: &str) -> (r: String)
        ensures
            r@ == plan_text(self@, domain@),
    {
        if self.is_noop() {
            return self.file_path.clone().concat(
                " already has these headers -- nothing to change.\n(The live site at ",
            ).concat(domain).concat(
                " doesn't have them yet -- this just means an earlier run already wrote the fix locally. If a pull request is still open from that run, that's the one to merge.)\n",
            );
        }
        let mut out = "Proposed changes to ".to_owned().concat(self.file_path.as_str()).concat(
            ":\n\n",
        );
        let ghost start = out@;
        let ghost all = self@.fixes;
        assert(all.take(0) =~= Seq::<HeaderFixView>::empty());
        assert(start + fix_lines(all.take(0)) =~= start);
        for i in 0..self.fixes.len()
            invariant
                all == self@.fixes,
                out@ == start + fix_lines(all.take(i as int)),
        {
            assert(all.take(i + 1).drop_last() =~= all.take(i as int));
            assert(all.take(i + 1).last() == self.fixes@[i as int]@);
            let f = &self.fixes[i];
            out.append("  + ");
            out.append(f.header.as_str());
            out.append(": ");
            out.append(f.value.as_str());
            out.append("\n      ");
            out.append(f.reason.as_str());
            out.append("\n");
            assert(out@ =~= start + fix_lines(all.take(i + 1)));
        }
        assert(all.take(all.len() as int) =~= all);
        out.concat("\n--- before ---\n").concat(self.before.as_str()).concat(
            "\n--- after ---\n",
        ).concat(self.after.as_str()).concat(
            "\n\nNo files were changed -- outpost fix only ever prints what to change. Apply it yourself and commit it however you normally would.\n",
        )
    }
}

/// The change that the file at `file_path` needs, given what came of reading
/// it. A file that does not exist counts as empty.
pub fn plan(file_path: &str, file: HeadersFileRead, fixes: &[HeaderFix]) -> (r: Result<
    FixPlan,
    String,
>)
    ensures
        match file {
            HeadersFileRead::Contents(before) => r matches Ok(p) && p@ == planned(
                file_path@,
                before@,
                headers::fix_views(fixes@),
            ),
            HeadersFileRead::NotFound => r matches Ok(p) && p@ == planned(
                file_path@,
                Seq::empty(),
                headers::fix_views(fixes@),
            ),
            HeadersFileRead::Failed(why) => r matches Err(w) && w@ == why@,
        },
{
    let before = match file {
        HeadersFileRead::Contents(s) => s,
        HeadersFileRead::NotFound => String::new(),
        HeadersFileRead::Failed(why) => {
            return Err(why);
        },
    };
    let after = headers_file::apply_fixes(before.as_str(), fixes);
    Ok(
        FixPlan { file_path: file_path.to_owned(), before, after, fixes: headers::clone_fixes(fixes) },
    )
}

// ---------------------------------------------------------------------
// The command
// ---------------------------------------------------------------------

/// What to do next to find the fixes for a domain.
pub enum FixStep {
    /// Read the `_headers` file: these fixes are to go into it.
    ReadFile(Vec<HeaderFix>),
    /// Stop and print this.
    Print(String),
    /// Stop: the work could not be done, for this reason.
    Trouble(String),
}

/// The contents of a [`FixStep`].
#[verifier::ext_equal]
pub enum FixStepView {
    ReadFile(Seq<HeaderFixView>),
    Print(Seq<char>),
    Trouble(Seq<char>),
}

impl View for FixStep {
    type V = FixStepView;

    open spec fn view(&self) -> FixStepView {
        match self {
            FixStep::ReadFile(fixes) => FixStepView::ReadFile(headers::fix_views(fixes@)),
            FixStep::Print(s) => FixStepView::Print(s@),
            FixStep::Trouble(s) => FixStepView::Trouble(s@),
        }
    }
}

/// What to do after fetching the front page of a domain.
pub open spec fn after_fetch(
    domain: Seq<char>,
    cfg: HeadersConfigView,
    fetch: HeaderFetch,
) -> FixStepView {
    match fetch {
        HeaderFetch::NoClient(why) => FixStepView::Trouble("could not build HTTP client: "@ + why@),
        HeaderFetch::Unreachable(why) => FixStepView::Trouble(
            "could not fetch "@ + headers::front_page(domain) + ": "@ + why@,
        ),
        HeaderFetch::Response(h) => {
            let fixes = headers::suggested(headers::header_contents(h), cfg);
            if fixes.len() == 0 {
                FixStepView::Print("No fixable header issues found for "@ + domain + ".\n"@)
            } else {
                FixStepView::ReadFile(fixes)
            }
        },
    }
}

/// What to do after fetching the front page of a domain.
pub fn page_fetched(domain: &str, cfg: &HeadersConfig, fetch: &HeaderFetch) -> (r: FixStep)
    ensures
        r@ == after_fetch(domain@, cfg@, *fetch),
{
    match fetch {
        HeaderFetch::NoClient(why) => FixStep::Trouble(
            "could not build HTTP client: ".to_owned().concat(why.as_str()),
        ),
        HeaderFetch::Unreachable(why) => FixStep::Trouble(
            "could not fetch ".to_owned().concat(headers::site_url(domain).as_str()).concat(
                ": ",
            ).concat(why.as_str()),
        ),
        HeaderFetch::Response(h) => {
            let fixes = headers::suggest_fixes(h, cfg);
            if fixes.len() == 0 {
                FixStep::Print(
                    "No fixable header issues found for ".to_owned().concat(domain).concat(".\n"),
                )
            } else {
                FixStep::ReadFile(fixes)
            }
        },
    }
}

/// What to do after reading the `_headers` file.
pub open spec fn after_read(
    domain: Seq<char>,
    file_path: Seq<char>,
    file: HeadersFileRead,
    fixes: Seq<HeaderFixView>,
) -> FixStepView {
    match file {
        HeadersFileRead::Contents(before) => FixStepView::Print(
            plan_text(planned(file_path, before@, fixes), domain),
        ),
        HeadersFileRead::NotFound => FixStepView::Print(
            plan_text(planned(file_path, Seq::empty(), fixes), domain),
        ),
        HeadersFileRead::Failed(why) => FixStepView::Trouble(
            "could not read "@ + file_path + ": "@ + why@,
        ),
    }
}

/// What to do after reading the `_headers` file.
pub fn file_read(domain: &str, file_path: &str, file: HeadersFileRead, fixes: &[HeaderFix]) -> (r:
    FixStep)
    ensures
        r@ == after_read(domain@, file_path@, file, headers::fix_views(fixes@)),
{
    match plan(file_path, file, fixes) {
        Ok(p) => FixStep::Print(p.describe(domain)),
        Err(why) => FixStep::Trouble(
            "could not read ".to_owned().concat(file_path).concat(": ").concat(why.as_str()),
        ),
    }
}

// ---------------------------------------------------------------------
// Laws
// ---------------------------------------------------------------------

/// A plan without fixes changes nothing.
pub proof fn law_no_fixes_no_change(file_path: Seq<char>, before: Seq<char>)
    ensures
        planned(file_path, before, Seq::empty()).before == planned(
            file_path,
            before,
            Seq::empty(),
        ).after,
{
}

/// Once the planned contents are in place, the same fixes plan no change.
pub proof fn law_plan_settles(
    file_path: Seq<char>,
    before: Seq<char>,
    fixes: Seq<HeaderFixView>,
)
    requires
        headers_file_laws::all_plain(fixes),
    ensures
        ({
            let next = planned(file_path, planned(file_path, before, fixes).after, fixes);
            next.before == next.after
        }),
{
    headers_file_laws::law_fixes_settle(before, fixes);
}

} // verus!
