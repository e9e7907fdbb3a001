//! DNSSEC check.
//!
//! A domain that has never deployed DNSSEC counts as a failure: the DNS front
//! door should be signed, not merely not under attack today.

use crate::report::{self, CheckResult, CheckResultView, Status};
use vstd::prelude::*;

verus! {

/// The name of this check.
pub const CHECK_NAME: &'static str = "dns";

/// What DNSSEC validation says of one record.
#[derive(Debug, Clone, Copy, PartialEq, Eq, Structural)]
pub enum Proof {
    /// A chain of signatures from the root validates.
    Secure,
    /// There is proof that the zone is not signed.
    Insecure,
    /// The signatures do not validate.
    Bogus,
    /// The records needed for a decision could not be had.
    Indeterminate,
}

/// What came of the last step of the check.
pub enum DnsEvent {
    /// No validating resolver could be set up, for this reason.
    NoResolver(String),
    /// A validating resolver is set up.
    Ready,
    /// The address lookup answered: the proof of each record.
    Addresses(Vec<Proof>),
    /// The address lookup failed, for this reason.
    NoAddresses(String),
    /// The name server lookup answered: the proof of each record.
    NameServers(Vec<Proof>),
    /// The name server lookup failed too: why the address lookup failed, and
    /// why this one did.
    NoNameServers(String, String),
}

/// What to do next in the check.
pub enum DnsStep {
    /// Look up the addresses of this name.
    LookUpAddresses(String),
    /// Look up the name servers of this name; the address lookup failed for
    /// this reason.
    LookUpNameServers(String, String),
    /// Nothing: this is the result.
    Done(CheckResult),
}

/// The contents of a [`DnsStep`].
#[verifier::ext_equal]
pub enum DnsStepView {
    LookUpAddresses(Seq<char>),
    LookUpNameServers(Seq<char>, Seq<char>),
    Done(CheckResultView),
}

impl View for DnsStep {
    type V = DnsStepView;

    open spec fn view(&self) -> DnsStepView {
        match self {
            DnsStep::LookUpAddresses(name) => DnsStepView::LookUpAddresses(name@),
            DnsStep::LookUpNameServers(name, why) => DnsStepView::LookUpNameServers(name@, why@),
            DnsStep::Done(r) => DnsStepView::Done(r@),
        }
    }
}

/// The name to look up: the domain, rooted.
pub fn fqdn(domain: &str) -> (r: String)
    ensures
        r@ == domain@ + "."@,
{
    domain.to_owned().concat(".")
}

/// The detail for signatures that do not validate.
pub open spec fn bogus_detail() -> Seq<char> {
    "signatures failed to validate against the chain of trust -- this can indicate a misconfiguration (expired RRSIG, key rollover mismatch) or a spoofing attempt"@
}

/// The detail for a zone that is not signed.
pub open spec fn insecure_detail() -> Seq<char> {
    "no chain of signed DNSKEY/DS records from the root to this zone; DNS answers for this domain are not cryptographically protected against forgery"@
}

/// The detail for a missing determination.
pub open spec fn indeterminate_detail() -> Seq<char> {
    "resolver could not obtain the DNSSEC records needed to make a determination; retry, or check connectivity to the authoritative nameservers"@
}

/// What a set of per-record proofs amounts to: a single bogus record fails,
/// all records secure pass, else an insecure record fails; without records, or
/// without a determination, the check is skipped.
pub open spec fn evaluated(domain: Seq<char>, proofs: Seq<Proof>) -> CheckResultView {
    if proofs.len() == 0 {
        report::bare(
            CHECK_NAME@,
            Status::Skip,
            "no records returned for "@ + domain + "; cannot assess DNSSEC status"@,
        )
    } else if proofs.contains(Proof::Bogus) {
        CheckResultView {
            check: CHECK_NAME@,
            status: Status::Fail,
            summary: "DNSSEC validation is BOGUS for "@ + domain,
            details: seq![bogus_detail()],
        }
    } else if forall|i: int| 0 <= i < proofs.len() ==> #[trigger] proofs[i] == Proof::Secure {
        report::bare(
            CHECK_NAME@,
            Status::Pass,
            "DNSSEC chain validated (Secure) for "@ + domain,
        )
    } else if proofs.contains(Proof::Insecure) {
        CheckResultView {
            check: CHECK_NAME@,
            status: Status::Fail,
            summary: domain + " is not DNSSEC-signed (Insecure)"@,
            details: seq![insecure_detail()],
        }
    } else {
        CheckResultView {
            check: CHECK_NAME@,
            status: Status::Skip,
            summary: "DNSSEC status for "@ + domain + " is Indeterminate"@,
            details: seq![indeterminate_detail()],
        }
    }
}

/// Whether some record has the proof `p`.
fn any_is(proofs: &[Proof], p: Proof) -> (r: bool)
    ensures
        r == proofs@.contains(p),
{
    for i in 0..proofs.len()
        invariant
            forall|j: int| 0 <= j < i ==> proofs@[j] != p,
    {
        if proofs[i] == p {
            assert(proofs@[i as int] == p);
            return true;
        }
    }
    false
}

/// Whether every record is secure.
fn all_secure(proofs: &[Proof]) -> (r: bool)
    ensures
        r == forall|i: int| 0 <= i < proofs@.len() ==> #[trigger] proofs@[i] == Proof::Secure,
{
    for i in 0..proofs.len()
        invariant
            forall|j: int| 0 <= j < i ==> #[trigger] proofs@[j] == Proof::Secure,
    {
        if proofs[i] != Proof::Secure {
            assert(proofs@[i as int] != Proof::Secure);
            return false;
        }
    }
    true
}

/// What a set of per-record DNSSEC proofs amounts to.
pub fn evaluate(domain: &str, proofs: &[Proof]) -> (r: CheckResult)
    ensures
        r@ == evaluated(domain@, proofs@),
{
    let r = if proofs.len() == 0 {
        CheckResult::skip(
            CHECK_NAME,
            "no records returned for ".to_owned().concat(domain).concat(
                "; cannot assess DNSSEC status",
            ).as_str(),
        )
    } else if any_is(proofs, Proof::Bogus) {
        CheckResult::fail(
            CHECK_NAME,
            "DNSSEC validation is BOGUS for ".to_owned().concat(domain).as_str(),
        ).with_detail(
            "signatures failed to validate against the chain of trust -- this can indicate a misconfiguration (expired RRSIG, key rollover mismatch) or a spoofing attempt",
        )
    } else if all_secure(proofs) {
        CheckResult::pass(
            CHECK_NAME,
            "DNSSEC chain validated (Secure) for ".to_owned().concat(domain).as_str(),
        )
    } else if any_is(proofs, Proof::Insecure) {
        CheckResult::fail(
            CHECK_NAME,
            domain.to_owned().concat(" is not DNSSEC-signed (Insecure)").as_str(),
        ).with_detail(
            "no chain of signed DNSKEY/DS records from the root to this zone; DNS answers for this domain are not cryptographically protected against forgery",
        )
    } else {
        CheckResult::skip(
            CHECK_NAME,
            "DNSSEC status for ".to_owned().concat(domain).concat(" is Indeterminate").as_str(),
        ).with_detail(
            "resolver could not obtain the DNSSEC records needed to make a determination; retry, or check connectivity to the authoritative nameservers",
        )
    };
    assert(r@ =~= evaluated(domain@, proofs@));
    r
}

/// What to do next after an event: addresses are what a front door is about,
/// and name servers are asked for where there are none.
pub open spec fn checked(domain: Seq<char>, event: DnsEvent) -> DnsStepView {
    match event {
        DnsEvent::NoResolver(why) => DnsStepView::Done(
            report::bare(
                CHECK_NAME@,
                Status::Skip,
                "could not initialize DNSSEC-validating resolver: failed to build resolver: "@ + why@,
            ),
        ),
        DnsEvent::Ready => DnsStepView::LookUpAddresses(domain + "."@),
        DnsEvent::Addresses(proofs) => DnsStepView::Done(evaluated(domain, proofs@)),
        DnsEvent::NoAddresses(why) => DnsStepView::LookUpNameServers(domain + "."@, why@),
        DnsEvent::NameServers(proofs) => DnsStepView::Done(evaluated(domain, proofs@)),
        DnsEvent::NoNameServers(ip, ns) => DnsStepView::Done(
            report::bare(
                CHECK_NAME@,
                Status::Skip,
                "DNS resolution failed for "@ + domain + " (A/AAAA: "@ + ip@ + "; NS: "@ + ns@
                    + ")"@,
            ),
        ),
    }
}

/// What to do next in the DNSSEC check of a domain, after an event.
pub fn check(domain: &str, event: DnsEvent) -> (r: DnsStep)
    ensures
        r@ == checked(domain@, event),
{
    match event {
        DnsEvent::NoResolver(why) => DnsStep::Done(
            CheckResult::skip(
                CHECK_NAME,
                "could not initialize DNSSEC-validating resolver: failed to build resolver: ".to_owned().concat(
                    why.as_str(),
                ).as_str(),
            ),
        ),
        DnsEvent::Ready => DnsStep::LookUpAddresses(fqdn(domain)),
        DnsEvent::Addresses(proofs) => DnsStep::Done(evaluate(domain, proofs.as_slice())),
        DnsEvent::NoAddresses(why) => DnsStep::LookUpNameServers(fqdn(domain), why),
        DnsEvent::NameServers(proofs) => DnsStep::Done(evaluate(domain, proofs.as_slice())),
        DnsEvent::NoNameServers(ip, ns) => DnsStep::Done(
            CheckResult::skip(
                CHECK_NAME,
                "DNS resolution failed for ".to_owned().concat(domain).concat(
                    " (A/AAAA: ",
                ).concat(ip.as_str()).concat("; NS: ").concat(ns.as_str()).concat(")").as_str(),
            ),
        ),
    }
}

// ---------------------------------------------------------------------
// Laws
// ---------------------------------------------------------------------

/// The check passes exactly where records came back and every one of them is
/// secure.
pub proof fn law_pass_iff_all_secure(domain: Seq<char>, proofs: Seq<Proof>)
    ensures
        evaluated(domain, proofs).status == Status::Pass <==> proofs.len() > 0 && forall|i: int|
            0 <= i < proofs.len() ==> #[trigger] proofs[i] == Proof::Secure,
{
    if proofs.contains(Proof::Bogus) {
        let i = proofs.index_of(Proof::Bogus);
        assert(proofs[i] != Proof::Secure);
    }
}

/// A check that could not look the domain up is skipped: no event without
/// records ends the check otherwise.
pub proof fn law_without_records_skips(domain: Seq<char>, event: DnsEvent)
    requires
        !(event is Addresses),
        !(event is NameServers),
    ensures
        checked(domain, event) matches DnsStepView::Done(r) ==> r.status == Status::Skip,
        !(checked(domain, event) is Done) <==> event is Ready || event is NoAddresses,
{
}

/// The check fails exactly where some record is bogus or insecure.
pub proof fn law_fail_iff_bogus_or_insecure(domain: Seq<char>, proofs: Seq<Proof>)
    ensures
        evaluated(domain, proofs).status == Status::Fail <==> proofs.contains(Proof::Bogus)
            || proofs.contains(Proof::Insecure),
{
    if proofs.contains(Proof::Insecure) {
        let i = proofs.index_of(Proof::Insecure);
        assert(proofs[i] != Proof::Secure);
    }
}

/// The order of the records does not matter.
pub proof fn law_order_of_records_is_irrelevant(
    domain: Seq<char>,
    a: Seq<Proof>,
    b: Seq<Proof>,
)
    requires
        a.to_multiset() == b.to_multiset(),
    ensures
        evaluated(domain, a) == evaluated(domain, b),
{
    broadcast use vstd::seq_lib::group_to_multiset_ensures;

    vstd::seq_lib::to_multiset_len(a);
    vstd::seq_lib::to_multiset_len(b);
    assert(a.len() == b.len());
    assert forall|p: Proof| a.contains(p) == b.contains(p) by {
        assert(a.contains(p) <==> a.to_multiset().count(p) > 0);
        assert(b.contains(p) <==> b.to_multiset().count(p) > 0);
    }
    if forall|i: int| 0 <= i < a.len() ==> #[trigger] a[i] == Proof::Secure {
        assert forall|i: int| 0 <= i < b.len() implies #[trigger] b[i] == Proof::Secure by {
            assert(b.contains(b[i]));
            assert(a.contains(b[i]));
        }
    }
    if forall|i: int| 0 <= i < b.len() ==> #[trigger] b[i] == Proof::Secure {
        assert forall|i: int| 0 <= i < a.len() implies #[trigger] a[i] == Proof::Secure by {
            assert(a.contains(a[i]));
            assert(b.contains(a[i]));
        }
    }
}

} // verus!
