//! What the DNSSEC check makes of each event, in terms of the records alone.

use crate::dns;
use crate::dns::{DnsEvent, DnsStep, DnsStepView, Proof};
use crate::report::{CheckResult, CheckResultView, Status};
use vstd::prelude::*;

verus! {

/// What a result must satisfy to be the outcome of judging all of these records:
/// it fails exactly where one of them is bogus or insecure, passes exactly where
/// there is one and all of them are secure, and is skipped otherwise; a bogus
/// record comes first in what it says.
pub open spec fn judges(domain: Seq<char>, proofs: Seq<Proof>, r: CheckResultView) -> bool {
    let some_bogus = exists|i: int| 0 <= i < proofs.len() && #[trigger] proofs[i] == Proof::Bogus;
    let some_insecure = exists|i: int|
        0 <= i < proofs.len() && #[trigger] proofs[i] == Proof::Insecure;
    let all_secure = forall|i: int|
        0 <= i < proofs.len() ==> #[trigger] proofs[i] == Proof::Secure;
    &&& r.check == "dns"@
    &&& r.status == Status::Fail <==> some_bogus || some_insecure
    &&& r.status == Status::Pass <==> proofs.len() > 0 && all_secure
    &&& r.status != Status::Warn
    &&& some_bogus ==> r.summary == "DNSSEC validation is BOGUS for "@ + domain
    &&& !some_bogus && some_insecure ==> r.summary == domain + " is not DNSSEC-signed (Insecure)"@
    &&& r.status == Status::Pass ==> r.summary == "DNSSEC chain validated (Secure) for "@ + domain
        && r.details.len() == 0
    &&& some_bogus ==> r.details == seq![
        "signatures failed to validate against the chain of trust -- this can indicate a misconfiguration (expired RRSIG, key rollover mismatch) or a spoofing attempt"@,
    ]
    &&& !some_bogus && some_insecure ==> r.details == seq![
        "no chain of signed DNSKEY/DS records from the root to this zone; DNS answers for this domain are not cryptographically protected against forgery"@,
    ]
    &&& r.status == Status::Skip && proofs.len() > 0 ==> r.details == seq![
        "resolver could not obtain the DNSSEC records needed to make a determination; retry, or check connectivity to the authoritative nameservers"@,
    ]
    &&& proofs.len() == 0 ==> r.details.len() == 0
    &&& r.status == Status::Skip && proofs.len() == 0 ==> r.summary == "no records returned for "@
        + domain + "; cannot assess DNSSEC status"@
    &&& r.status == Status::Skip && proofs.len() > 0 ==> r.summary == "DNSSEC status for "@ + domain
        + " is Indeterminate"@
}

/// Evaluating records judges all of them.
pub proof fn law_all_records_are_judged(domain: Seq<char>, proofs: Seq<Proof>)
    ensures
        judges(domain, proofs, dns::evaluated(domain, proofs)),
{
    if proofs.contains(Proof::Bogus) {
        let i = proofs.index_of(Proof::Bogus);
        assert(proofs[i] == Proof::Bogus);
        assert(proofs[i] != Proof::Secure);
    }
    if proofs.contains(Proof::Insecure) {
        let i = proofs.index_of(Proof::Insecure);
        assert(proofs[i] == Proof::Insecure);
        assert(proofs[i] != Proof::Secure);
    }
    assert forall|i: int| 0 <= i < proofs.len() implies proofs.contains(#[trigger] proofs[i]) by {}
}

/// An event that brings records ends the check, and all of the records are
/// judged, whether they are addresses or name servers.
pub proof fn law_records_end_the_check(domain: Seq<char>, proofs: Vec<Proof>)
    ensures
        dns::checked(domain, DnsEvent::Addresses(proofs)) matches DnsStepView::Done(r) && judges(
            domain,
            proofs@,
            r,
        ),
        dns::checked(domain, DnsEvent::NameServers(proofs)) matches DnsStepView::Done(r) && judges(
            domain,
            proofs@,
            r,
        ),
{
    law_all_records_are_judged(domain, proofs@);
}

/// Without records the check goes on with the rooted name, first for addresses,
/// then for name servers, and keeps why the first lookup failed.
pub proof fn law_lookups_go_on(domain: Seq<char>, why: String)
    ensures
        dns::checked(domain, DnsEvent::Ready) == DnsStepView::LookUpAddresses(domain + seq!['.']),
        dns::checked(domain, DnsEvent::NoAddresses(why)) == DnsStepView::LookUpNameServers(
            domain + seq!['.'],
            why@,
        ),
{
    reveal_strlit(".");
    assert("."@ =~= seq!['.']);
}

/// A check that could not look anything up is skipped and says why.
pub proof fn law_failed_lookups_are_reported(domain: Seq<char>, a: String, b: String)
    ensures
        dns::checked(domain, DnsEvent::NoResolver(a)) matches DnsStepView::Done(r) && r.status
            == Status::Skip && r.check == "dns"@ && r.details.len() == 0 && r.summary
            == "could not initialize DNSSEC-validating resolver: failed to build resolver: "@ + a@,
        dns::checked(domain, DnsEvent::NoNameServers(a, b)) matches DnsStepView::Done(r) && r.status
            == Status::Skip && r.check == "dns"@ && r.details.len() == 0 && r.summary
            == "DNS resolution failed for "@ + domain + " (A/AAAA: "@ + a@ + "; NS: "@ + b@ + ")"@,
{
}

/// A step is read as it stands.
pub proof fn law_steps_are_read_in_full(name: String, why: String, r: CheckResult)
    ensures
        DnsStep::LookUpAddresses(name)@ == DnsStepView::LookUpAddresses(name@),
        DnsStep::LookUpNameServers(name, why)@ == DnsStepView::LookUpNameServers(name@, why@),
        DnsStep::Done(r)@ == DnsStepView::Done(r@),
{
}

} // verus!
