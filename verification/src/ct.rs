//! Certificate Transparency check.
//!
//! Compares the certificates that public logs hold for a domain with a local
//! baseline and flags newly logged certificates from an issuer that is not
//! allowed, and a live leaf certificate that is not pinned where fingerprints
//! are. When the logs cannot be queried the check is skipped: a skip must never
//! be read as "no unauthorized certificate found".

use crate::clock::{self, Moment};
use crate::config::{CtConfig, CtConfigView};
use crate::report::{self, CheckResult, CheckResultView, Status};
use crate::text;
use reqwest::StatusCode;
use sha2::{Digest, Sha256};
use std::collections::BTreeSet;
use vstd::prelude::*;

verus! {

/// The name of this check.
pub const CHECK_NAME: &'static str = "ct";

// ---------------------------------------------------------------------
// Log entries
// ---------------------------------------------------------------------

/// A log entry, as crt.sh reports it.
#[derive(Debug, Clone)]
pub struct CrtShEntry {
    pub id: i64,
    pub issuer_name: String,
    pub common_name: String,
    pub not_before: String,
    pub not_after: String,
}

/// The contents of a [`CrtShEntry`].
pub struct CrtShEntryView {
    pub id: i64,
    pub issuer_name: Seq<char>,
    pub common_name: Seq<char>,
    pub not_before: Seq<char>,
    pub not_after: Seq<char>,
}

impl View for CrtShEntry {
    type V = CrtShEntryView;

    open spec fn view(&self) -> CrtShEntryView {
        CrtShEntryView {
            id: self.id,
            issuer_name: self.issuer_name@,
            common_name: self.common_name@,
            not_before: self.not_before@,
            not_after: self.not_after@,
        }
    }
}

/// The contents of a list of log entries.
pub open spec fn entry_views(v: Seq<CrtShEntry>) -> Seq<CrtShEntryView> {
    Seq::new(v.len(), |i: int| v[i]@)
}

/// The ids of log entries.
pub open spec fn ids_of(entries: Seq<CrtShEntryView>) -> Set<i64>
    decreases entries.len(),
{
    if entries.len() == 0 {
        Set::empty()
    } else {
        ids_of(entries.drop_last()).insert(entries.last().id)
    }
}

/// The log entries that are not known yet, in their order.
pub open spec fn new_entries(entries: Seq<CrtShEntryView>, known: Set<i64>) -> Seq<CrtShEntryView>
    decreases entries.len(),
{
    if entries.len() == 0 {
        Seq::empty()
    } else {
        let before = new_entries(entries.drop_last(), known);
        if known.contains(entries.last().id) {
            before
        } else {
            before.push(entries.last())
        }
    }
}

// ---------------------------------------------------------------------
// Querying the logs
// ---------------------------------------------------------------------

/// Where the log entries for a domain are found.
pub open spec fn log_url(domain: Seq<char>, cfg: CtConfigView) -> Seq<char> {
    text::without_trailing(cfg.crtsh_url, '/') + "/?q="@ + domain + "&output=json"@
}

/// Where the log entries for a domain are found.
pub fn query_url(domain: &str, cfg: &CtConfig) -> (r: String)
    ensures
        r@ == log_url(domain@, cfg@),
{
    let chars = text::to_chars(cfg.crtsh_url.as_str());
    text::from_chars(text::trim_end_char(chars.as_slice(), '/')).concat("/?q=").concat(
        domain,
    ).concat("&output=json")
}

/// Whether an HTTP status stands for success.
pub fn is_success(status: u16) -> (r: bool)
    ensures
        r == (200 <= status < 300),
{
    200 <= status && status < 300
}

/// What the reason phrase of an HTTP status is, where it has one.
pub uninterp spec fn reason_phrase(status: u16) -> Option<Seq<char>>;

/// `StatusCode::from_u16` and `StatusCode::canonical_reason` of the `reqwest`
/// crate: the reason phrase of a status, and none for a number that is no
/// status or has no phrase. The phrase is only named.
#[verifier::external_body]
fn canonical_reason(status: u16) -> (r: Option<&'static str>)
    ensures
        opt_text(r) == reason_phrase(status),
{
    match StatusCode::from_u16(status) {
        Ok(code) => code.canonical_reason(),
        Err(_) => None,
    }
}

/// An HTTP status as text: the number and the reason phrase.
pub open spec fn status_text(status: u16, reason: Option<Seq<char>>) -> Seq<char> {
    text::decimal(status as nat) + " "@ + (match reason {
        Some(phrase) => phrase,
        None => "<unknown status code>"@,
    })
}

/// An HTTP status as text, given its reason phrase.
pub fn show_status(status: u16, reason: Option<&str>) -> (r: String)
    ensures
        r@ == status_text(status, opt_text(reason)),
{
    let number = text::show_usize(status as usize).concat(" ");
    match reason {
        Some(phrase) => number.concat(phrase),
        None => number.concat("<unknown status code>"),
    }
}

/// What came of querying the logs.
pub enum CtFetch {
    /// No HTTP client could be set up, for this reason.
    NoClient(String),
    /// The request failed, for this reason.
    Unreachable(String),
    /// The answer: its HTTP status, and the log entries in its body, or why
    /// there are none.
    Answer(u16, Result<Vec<CrtShEntry>, String>),
}

/// The log entries, or why there are none. What an answer without success
/// holds does not matter.
pub open spec fn fetched(fetch: CtFetch) -> Result<Seq<CrtShEntryView>, Seq<char>> {
    match fetch {
        CtFetch::NoClient(why) => Err(why@),
        CtFetch::Unreachable(why) => Err("request to crt.sh failed: "@ + why@),
        CtFetch::Answer(status, body) => if !(200 <= status < 300) {
            Err("crt.sh returned HTTP "@ + status_text(status, reason_phrase(status)))
        } else {
            match body {
                Ok(entries) => Ok(entry_views(entries@)),
                Err(why) => Err("could not parse crt.sh response: "@ + why@),
            }
        },
    }
}

/// The log entries, or why there are none.
pub fn fetch_entries(fetch: CtFetch) -> (r: Result<Vec<CrtShEntry>, String>)
    ensures
        match r {
            Ok(entries) => fetched(fetch) == Ok::<Seq<CrtShEntryView>, Seq<char>>(
                entry_views(entries@),
            ),
            Err(why) => fetched(fetch) == Err::<Seq<CrtShEntryView>, Seq<char>>(why@),
        },
{
    match fetch {
        CtFetch::NoClient(why) => Err(why),
        CtFetch::Unreachable(why) => Err(
            "request to crt.sh failed: ".to_owned().concat(why.as_str()),
        ),
        CtFetch::Answer(status, body) => {
            if !is_success(status) {
                let shown = show_status(status, canonical_reason(status));
                Err("crt.sh returned HTTP ".to_owned().concat(shown.as_str()))
            } else {
                match body {
                    Ok(entries) => Ok(entries),
                    Err(why) => Err(
                        "could not parse crt.sh response: ".to_owned().concat(why.as_str()),
                    ),
                }
            }
        },
    }
}

// ---------------------------------------------------------------------
// Fingerprints
// ---------------------------------------------------------------------

/// The SHA-256 digest of bytes.
pub uninterp spec fn sha256(data: Seq<u8>) -> Seq<u8>;

/// `Sha256::digest` of the `sha2` crate. The digest is only named; it has 32
/// bytes.
#[verifier::external_body]
fn digest(data: &[u8]) -> (r: Vec<u8>)
    ensures
        r@ == sha256(data@),
        r@.len() == 32,
{
    Sha256::digest(data).to_vec()
}

/// The hexadecimal digit for a number below sixteen, in lower case.
pub open spec fn hex_digit(n: int) -> char {
    if n < 10 {
        (48 + n) as char
    } else {
        (87 + n) as char
    }
}

/// Bytes in hexadecimal notation: two digits in lower case for each.
pub open spec fn hex_text(bytes: Seq<u8>) -> Seq<char> {
    Seq::new(
        2 * bytes.len(),
        |i: int|
            if i % 2 == 0 {
                hex_digit(bytes[i / 2] as int / 16)
            } else {
                hex_digit(bytes[i / 2] as int % 16)
            },
    )
}

/// `hex::encode` of the `hex` crate: two hexadecimal digits in lower case for
/// each byte.
#[verifier::external_body]
fn to_hex(bytes: &[u8]) -> (r: String)
    ensures
        r@ == hex_text(bytes@),
{
    hex::encode(bytes)
}

/// The SHA-256 fingerprint of a certificate: hexadecimal, without colons.
pub fn fingerprint_sha256(der: &[u8]) -> (r: String)
    ensures
        r@ == hex_text(sha256(der@)),
        r@.len() == 64,
{
    let d = digest(der);
    to_hex(d.as_slice())
}

// ---------------------------------------------------------------------
// Baseline
// ---------------------------------------------------------------------

/// What is known of one domain.
#[derive(Debug, Clone)]
pub struct DomainBaseline {
    pub domain: String,
    pub known_crtsh_ids: BTreeSet<i64>,
    pub last_checked: Option<Moment>,
}

/// The contents of a [`DomainBaseline`].
#[verifier::ext_equal]
pub struct DomainBaselineView {
    pub known: Set<i64>,
    pub last_checked: Option<Moment>,
}

impl View for DomainBaseline {
    type V = DomainBaselineView;

    open spec fn view(&self) -> DomainBaselineView {
        DomainBaselineView { known: self.known_crtsh_ids@, last_checked: self.last_checked }
    }
}

/// What a list of baselines says of each domain; of several for one domain the
/// last one counts.
pub open spec fn baseline_map(v: Seq<DomainBaseline>) -> Map<Seq<char>, DomainBaselineView>
    decreases v.len(),
{
    if v.len() == 0 {
        Map::empty()
    } else {
        baseline_map(v.drop_last()).insert(v.last().domain@, v.last()@)
    }
}

/// Whether no domain occurs twice.
pub open spec fn distinct_domains(v: Seq<DomainBaseline>) -> bool {
    forall|i: int, j: int|
        0 <= i < j < v.len() ==> (#[trigger] v[i]).domain@ != (#[trigger] v[j]).domain@
}

/// The log entry ids known for a domain.
pub open spec fn known(
    state: Map<Seq<char>, DomainBaselineView>,
    domain: Seq<char>,
) -> Set<i64> {
    if state.contains_key(domain) {
        state[domain].known
    } else {
        Set::empty()
    }
}

/// What a list without repeated domains says of each of them.
pub proof fn lemma_baseline_map(v: Seq<DomainBaseline>)
    requires
        distinct_domains(v),
    ensures
        forall|i: int|
            #![trigger v[i]]
            0 <= i < v.len() ==> baseline_map(v).contains_key(v[i].domain@) && baseline_map(
                v,
            )[v[i].domain@] == v[i]@,
        forall|d: Seq<char>| #[trigger]
            baseline_map(v).contains_key(d) ==> exists|i: int|
                0 <= i < v.len() && (#[trigger] v[i]).domain@ == d,
    decreases v.len(),
{
    if v.len() > 0 {
        let rest = v.drop_last();
        assert(distinct_domains(rest)) by {
            assert forall|i: int, j: int| 0 <= i < j < rest.len() implies (
            #[trigger] rest[i]).domain@ != (#[trigger] rest[j]).domain@ by {
                assert(rest[i] == v[i] && rest[j] == v[j]);
            }
        }
        lemma_baseline_map(rest);
        assert forall|i: int|
            #![trigger v[i]]
            0 <= i < v.len() implies baseline_map(v).contains_key(v[i].domain@) && baseline_map(
            v,
        )[v[i].domain@] == v[i]@ by {
            if i < rest.len() {
                assert(rest[i] == v[i]);
                assert(v[i].domain@ != v[v.len() - 1].domain@);
            }
        }
        assert forall|d: Seq<char>| #[trigger] baseline_map(v).contains_key(d) implies exists|
            i: int,
        |
            0 <= i < v.len() && (#[trigger] v[i]).domain@ == d by {
            if d == v.last().domain@ {
                assert(v[v.len() - 1].domain@ == d);
            } else {
                assert(baseline_map(rest).contains_key(d));
                let i = choose|i: int| 0 <= i < rest.len() && (#[trigger] rest[i]).domain@ == d;
                assert(v[i].domain@ == d);
            }
        }
    }
}

/// Replacing the baseline of a domain in a list changes what the list says of
/// that domain alone.
proof fn lemma_replace(before: Seq<DomainBaseline>, i: int, b: DomainBaseline)
    requires
        distinct_domains(before),
        0 <= i < before.len(),
        before[i].domain@ == b.domain@,
    ensures
        distinct_domains(before.update(i, b)),
        baseline_map(before.update(i, b)) == baseline_map(before).insert(b.domain@, b@),
{
    let after = before.update(i, b);
    assert forall|j: int, k: int| 0 <= j < k < after.len() implies (
    #[trigger] after[j]).domain@ != (#[trigger] after[k]).domain@ by {
        assert(before[j].domain@ != before[k].domain@);
    }
    lemma_baseline_map(before);
    lemma_baseline_map(after);
    let a = baseline_map(after);
    let e = baseline_map(before).insert(b.domain@, b@);
    assert forall|d: Seq<char>| #[trigger] a.dom().contains(d) implies e.dom().contains(d) && a[d]
        == e[d] by {
        assert(a.contains_key(d));
        let j = choose|j: int| 0 <= j < after.len() && (#[trigger] after[j]).domain@ == d;
        assert(before[j].domain@ == d);
        assert(a[d] == after[j]@);
        if j < i {
            assert(before[j].domain@ != before[i].domain@);
        } else if i < j {
            assert(before[i].domain@ != before[j].domain@);
        }
    }
    assert forall|d: Seq<char>| #[trigger] e.dom().contains(d) implies a.dom().contains(d) by {
        if d == b.domain@ {
            assert(after[i].domain@ == d);
        } else {
            assert(baseline_map(before).contains_key(d));
            let j = choose|j: int| 0 <= j < before.len() && (#[trigger] before[j]).domain@ == d;
            assert(after[j].domain@ == d);
        }
    }
    assert(a =~= e);
}

/// Baseline state persisted between runs, by domain.
#[derive(Debug)]
pub struct BaselineState {
    domains: Vec<DomainBaseline>,
}

impl View for BaselineState {
    type V = Map<Seq<char>, DomainBaselineView>;

    closed spec fn view(&self) -> Map<Seq<char>, DomainBaselineView> {
        baseline_map(self.domains@)
    }
}

/// What came of reading a state file.
pub enum StateFile {
    /// The file could not be read.
    Unreadable,
    /// Its contents are no valid state.
    Invalid,
    /// The baselines it holds.
    Baselines(Vec<DomainBaseline>),
}

/// What a state file says of each domain: one that is missing or broken counts
/// as one in which nothing is known.
pub open spec fn loaded(file: StateFile) -> Map<Seq<char>, DomainBaselineView> {
    match file {
        StateFile::Baselines(v) => baseline_map(v@),
        _ => Map::empty(),
    }
}

impl Default for BaselineState {
    /// Nothing is known of any domain.
    fn default() -> (r: Self)
        ensures
            r@ == Map::<Seq<char>, DomainBaselineView>::empty(),
    {
        BaselineState { domains: Vec::new() }
    }
}

impl Clone for BaselineState {
    /// A state with the same contents.
    fn clone(&self) -> (r: Self)
        ensures
            r@ == self@,
    {
        BaselineState::of(&self.domains)
    }
}

impl BaselineState {
    /// No domain occurs twice.
    #[verifier::type_invariant]
    spec fn wf(self) -> bool {
        distinct_domains(self.domains@)
    }

    /// The state in a file, given what came of reading it: a file that is
    /// missing or broken counts as one in which nothing is known.
    pub fn load(file: StateFile) -> (r: Self)
        ensures
            r@ == loaded(file),
    {
        match file {
            StateFile::Baselines(v) => BaselineState::of(&v),
            _ => BaselineState::default(),
        }
    }

    /// The state that a list of baselines describes.
    fn of(v: &Vec<DomainBaseline>) -> (r: Self)
        ensures
            r@ == baseline_map(v@),
    {
        let mut state = BaselineState::default();
        let ghost all = v@;
        assert(all.take(0) =~= Seq::<DomainBaseline>::empty());
        for i in 0..v.len()
            invariant
                all == v@,
                state@ == baseline_map(all.take(i as int)),
        {
            assert(all.take(i + 1).drop_last() =~= all.take(i as int));
            let b = DomainBaseline {
                domain: v[i].domain.clone(),
                known_crtsh_ids: v[i].known_crtsh_ids.clone(),
                last_checked: v[i].last_checked,
            };
            assert(b@ =~= v@[i as int]@);
            state.put(b);
        }
        assert(all.take(all.len() as int) =~= all);
        state
    }

    /// The baselines to persist.
    pub fn baselines(&self) -> (r: &Vec<DomainBaseline>)
        ensures
            baseline_map(r@) == self@,
            distinct_domains(r@),
    {
        proof {
            use_type_invariant(self);
        }
        &self.domains
    }

    /// The position of a domain, or the number of domains.
    fn position(&self, domain: &str) -> (r: usize)
        ensures
            r <= self.domains@.len(),
            r < self.domains@.len() ==> self.domains@[r as int].domain@ == domain@,
            r == self.domains@.len() ==> forall|i: int|
                0 <= i < r ==> (#[trigger] self.domains@[i]).domain@ != domain@,
    {
        for i in 0..self.domains.len()
            invariant
                forall|j: int| 0 <= j < i ==> (#[trigger] self.domains@[j]).domain@ != domain@,
        {
            if text::same_text(self.domains[i].domain.as_str(), domain) {
                return i;
            }
        }
        self.domains.len()
    }

    /// Replaces what is known of a domain.
    fn put(&mut self, b: DomainBaseline)
        ensures
            final(self)@ == old(self)@.insert(b.domain@, b@),
    {
        proof {
            use_type_invariant(&*self);
        }
        let i = self.position(b.domain.as_str());
        let mut domains: Vec<DomainBaseline> = Vec::new();
        std::mem::swap(&mut self.domains, &mut domains);
        let ghost before = domains@;
        if i < domains.len() {
            proof {
                lemma_replace(before, i as int, b);
            }
            domains.set(i, b);
        } else {
            domains.push(b);
            proof {
                assert forall|j: int, k: int| 0 <= j < k < domains@.len() implies (
                #[trigger] domains@[j]).domain@ != (#[trigger] domains@[k]).domain@ by {
                    assert(domains@[j] == before[j]);
                    if k < before.len() {
                        assert(domains@[k] == before[k]);
                    }
                }
                assert(domains@.drop_last() =~= before);
            }
        }
        self.domains = domains;
    }

    /// The log entry ids known for a domain.
    pub fn known_ids(&self, domain: &str) -> (r: BTreeSet<i64>)
        ensures
            r@ == known(self@, domain@),
    {
        proof {
            use_type_invariant(self);
            lemma_baseline_map(self.domains@);
        }
        let i = self.position(domain);
        if i < self.domains.len() {
            assert(self.domains@[i as int].domain@ == domain@);
            self.domains[i].known_crtsh_ids.clone()
        } else {
            BTreeSet::new()
        }
    }

    /// Replaces what is known of a domain, checked at the time `now`.
    pub fn record_at(&mut self, domain: &str, ids: BTreeSet<i64>, now: Moment)
        ensures
            final(self)@ == recorded(old(self)@, domain@, ids@, now),
    {
        let b = DomainBaseline {
            domain: domain.to_owned(),
            known_crtsh_ids: ids,
            last_checked: Some(now),
        };
        self.put(b);
    }

    /// Replaces what is known of a domain, checked now.
    pub fn record(&mut self, domain: &str, ids: BTreeSet<i64>)
        ensures
            exists|now: Moment|
                final(self)@ == #[trigger] recorded(old(self)@, domain@, ids@, now),
    {
        let now = clock::now();
        self.record_at(domain, ids, now);
        assert(self@ == recorded(old(self)@, domain@, ids@, now));
    }
}

/// A state in which `ids` are known for a domain, checked at the time `now`.
pub open spec fn recorded(
    state: Map<Seq<char>, DomainBaselineView>,
    domain: Seq<char>,
    ids: Set<i64>,
    now: Moment,
) -> Map<Seq<char>, DomainBaselineView> {
    state.insert(domain, DomainBaselineView { known: ids, last_checked: Some(now) })
}

// ---------------------------------------------------------------------
// The check
// ---------------------------------------------------------------------

/// Whether an issuer's name contains an allowed one, ignoring case.
pub open spec fn issuer_allowed(issuer: Seq<char>, allowed: Seq<Seq<char>>) -> bool {
    exists|i: int|
        0 <= i < allowed.len() && text::contains_text(
            text::lowercase(issuer),
            text::lowercase(#[trigger] allowed[i]),
        )
}

/// The beginning of the detail on a new log entry.
pub open spec fn entry_head(e: CrtShEntryView) -> Seq<char> {
    "id="@ + text::decimal_int(e.id as int) + " cn="@ + e.common_name + " issuer="@
}

/// The detail on a new log entry where no issuers are configured.
pub open spec fn review_detail(e: CrtShEntryView) -> Seq<char> {
    "  new: "@ + entry_head(e) + e.issuer_name + " not_before="@ + e.not_before + " not_after="@
        + e.not_after
}

/// The detail on a new log entry where issuers are configured.
pub open spec fn issuer_detail(e: CrtShEntryView, cfg: CtConfigView) -> Seq<char> {
    if issuer_allowed(e.issuer_name, cfg.allowed_issuers) {
        "new cert from trusted issuer: "@ + entry_head(e) + e.issuer_name
    } else if cfg.fail_on_unknown_issuer {
        "UNRECOGNIZED ISSUER: "@ + entry_head(e) + "'"@ + e.issuer_name
            + "' is not in the allowed_issuers list -- possible unauthorized certificate issuance"@
    } else {
        "unrecognized issuer (not failing, fail_on_unknown_issuer=false): "@ + entry_head(e) + "'"@
            + e.issuer_name + "'"@
    }
}

/// The details on new log entries, one for each.
pub open spec fn entry_details(fresh: Seq<CrtShEntryView>, cfg: CtConfigView) -> Seq<Seq<char>> {
    Seq::new(
        fresh.len(),
        |i: int|
            if cfg.allowed_issuers.len() == 0 {
                review_detail(fresh[i])
            } else {
                issuer_detail(fresh[i], cfg)
            },
    )
}

/// Whether some log entry has an issuer that is not allowed.
pub open spec fn some_unknown_issuer(fresh: Seq<CrtShEntryView>, cfg: CtConfigView) -> bool {
    exists|i: int|
        0 <= i < fresh.len() && !issuer_allowed(
            (#[trigger] fresh[i]).issuer_name,
            cfg.allowed_issuers,
        )
}

/// Whether new log entries fail the check: known ids tell them from old ones,
/// and one of them has an issuer that is not allowed.
pub open spec fn entries_fail(
    fresh: Seq<CrtShEntryView>,
    known: Set<i64>,
    cfg: CtConfigView,
) -> bool {
    known.len() > 0 && cfg.allowed_issuers.len() > 0 && cfg.fail_on_unknown_issuer
        && some_unknown_issuer(fresh, cfg)
}

/// Whether new log entries call for a look: there is nothing to hold their
/// issuers against, or an unknown issuer is not to fail the check.
pub open spec fn entries_warn(
    fresh: Seq<CrtShEntryView>,
    known: Set<i64>,
    cfg: CtConfigView,
) -> bool {
    known.len() > 0 && if cfg.allowed_issuers.len() == 0 {
        fresh.len() > 0
    } else {
        !cfg.fail_on_unknown_issuer && some_unknown_issuer(fresh, cfg)
    }
}

/// The details on the log entries.
pub open spec fn log_details(
    domain: Seq<char>,
    entries: Seq<CrtShEntryView>,
    known: Set<i64>,
    cfg: CtConfigView,
) -> Seq<Seq<char>> {
    let fresh = new_entries(entries, known);
    if known.len() == 0 {
        seq![
            "no prior baseline for "@ + domain + "; recording "@ + text::decimal(entries.len())
                + " known CT log entries as the new baseline"@,
        ]
    } else if fresh.len() == 0 {
        seq![
            "no new CT log entries since last run ("@ + text::decimal(known.len()) + " known)"@,
        ]
    } else {
        seq![text::decimal(fresh.len()) + " new CT log entry(ies) since last run"@] + (
        if cfg.allowed_issuers.len() == 0 {
            seq![
                "no ct.allowed_issuers configured; cannot distinguish an authorized renewal from an unauthorized issuance -- listing new entries for manual review"@,
            ]
        } else {
            Seq::empty()
        }) + entry_details(fresh, cfg)
    }
}

/// Whether a fingerprint is pinned, ignoring case.
pub open spec fn is_pinned(fingerprint: Seq<char>, pins: Seq<Seq<char>>) -> bool {
    exists|i: int|
        0 <= i < pins.len() && text::same_ignoring_case(#[trigger] pins[i], fingerprint)
}

/// Whether fingerprints are pinned and the live one is not among them.
pub open spec fn pin_fails(live: Option<Seq<char>>, cfg: CtConfigView) -> bool {
    cfg.pinned_fingerprints.len() > 0 && live is Some && !is_pinned(
        live->0,
        cfg.pinned_fingerprints,
    )
}

/// Whether fingerprints are pinned and there is no live one.
pub open spec fn pin_warns(live: Option<Seq<char>>, cfg: CtConfigView) -> bool {
    cfg.pinned_fingerprints.len() > 0 && live is None
}

/// The detail on the live certificate, where fingerprints are pinned.
pub open spec fn pin_details(live: Option<Seq<char>>, cfg: CtConfigView) -> Seq<Seq<char>> {
    if cfg.pinned_fingerprints.len() == 0 {
        Seq::empty()
    } else {
        match live {
            Some(fp) => if is_pinned(fp, cfg.pinned_fingerprints) {
                seq!["live certificate fingerprint "@ + fp + " matches a pinned fingerprint"@]
            } else {
                seq![
                    "live certificate fingerprint "@ + fp
                        + " does NOT match any pinned_fingerprints entry"@,
                ]
            },
            None => seq![
                "pinned_fingerprints configured but no live leaf certificate was available to compare (the tls check may have failed or be disabled)"@,
            ],
        }
    }
}

/// The larger of two numbers.
pub open spec fn larger(a: nat, b: nat) -> nat {
    if a >= b {
        a
    } else {
        b
    }
}

/// What log entries amount to against the known ids, with the fingerprint of
/// the live leaf certificate.
pub open spec fn evaluated(
    domain: Seq<char>,
    entries: Seq<CrtShEntryView>,
    known: Set<i64>,
    cfg: CtConfigView,
    live: Option<Seq<char>>,
) -> CheckResultView {
    let fresh = new_entries(entries, known);
    CheckResultView {
        check: CHECK_NAME@,
        status: report::verdict(
            entries_fail(fresh, known, cfg) || pin_fails(live, cfg),
            entries_warn(fresh, known, cfg) || pin_warns(live, cfg),
        ),
        summary: domain + ": "@ + text::decimal(larger(known.len(), entries.len()))
            + " CT log entries known, "@ + text::decimal(fresh.len()) + " new"@,
        details: log_details(domain, entries, known, cfg) + pin_details(live, cfg),
    }
}

/// Whether an issuer's name contains an allowed one, ignoring case.
fn is_issuer_allowed(issuer: &str, allowed: &Vec<String>) -> (r: bool)
    ensures
        r == issuer_allowed(issuer@, text::texts(allowed@)),
{
    let lower = text::to_lowercase(issuer);
    for i in 0..allowed.len()
        invariant
            lower@ == text::lowercase(issuer@),
            forall|j: int|
                0 <= j < i ==> !text::contains_text(
                    text::lowercase(issuer@),
                    text::lowercase(#[trigger] text::texts(allowed@)[j]),
                ),
    {
        let a = text::to_lowercase(allowed[i].as_str());
        if text::text_contains(lower.as_str(), a.as_str()) {
            assert(text::texts(allowed@)[i as int] == allowed@[i as int]@);
            return true;
        }
    }
    false
}

/// Whether a fingerprint is pinned, ignoring case.
fn matches_pin(fingerprint: &str, pins: &Vec<String>) -> (r: bool)
    ensures
        r == is_pinned(fingerprint@, text::texts(pins@)),
{
    let fp = text::to_chars(fingerprint);
    for i in 0..pins.len()
        invariant
            fp@ == fingerprint@,
            forall|j: int|
                0 <= j < i ==> !text::same_ignoring_case(
                    #[trigger] text::texts(pins@)[j],
                    fingerprint@,
                ),
    {
        let p = text::to_chars(pins[i].as_str());
        if text::eq_ignore_ascii_case(p.as_slice(), fp.as_slice()) {
            assert(text::texts(pins@)[i as int] == pins@[i as int]@);
            return true;
        }
    }
    false
}

/// The positions of the log entries that are not known yet.
fn new_positions(entries: &[CrtShEntry], known_ids: &BTreeSet<i64>) -> (r: Vec<usize>)
    ensures
        r@.len() == new_entries(entry_views(entries@), known_ids@).len(),
        forall|i: int|
            0 <= i < r@.len() ==> (#[trigger] r@[i]) < entries@.len() && entries@[r@[i] as int]@
                == new_entries(entry_views(entries@), known_ids@)[i],
{
    let ghost views = entry_views(entries@);
    let mut r: Vec<usize> = Vec::new();
    assert(views.take(0) =~= Seq::<CrtShEntryView>::empty());
    for k in 0..entries.len()
        invariant
            views == entry_views(entries@),
            r@.len() == new_entries(views.take(k as int), known_ids@).len(),
            forall|i: int|
                0 <= i < r@.len() ==> (#[trigger] r@[i]) < entries@.len() && entries@[r@[i] as int]@
                    == new_entries(views.take(k as int), known_ids@)[i],
    {
        assert(views.take(k + 1).drop_last() =~= views.take(k as int));
        assert(views.take(k + 1).last() == entries@[k as int]@);
        if !known_ids.contains(&entries[k].id) {
            r.push(k);
        }
    }
    assert(views.take(views.len() as int) =~= views);
    r
}

/// The beginning of the detail on a new log entry, after a heading.
fn show_entry(heading: &str, e: &CrtShEntry) -> (r: String)
    ensures
        r@ == heading@ + entry_head(e@),
{
    let r = heading.to_owned().concat("id=").concat(text::show_i64(e.id).as_str()).concat(
        " cn=",
    ).concat(e.common_name.as_str()).concat(" issuer=");
    assert(r@ =~= heading@ + entry_head(e@));
    r
}

/// The detail on a new log entry where no issuers are configured.
fn review(e: &CrtShEntry) -> (r: String)
    ensures
        r@ == review_detail(e@),
{
    show_entry("  new: ", e).concat(e.issuer_name.as_str()).concat(" not_before=").concat(
        e.not_before.as_str(),
    ).concat(" not_after=").concat(e.not_after.as_str())
}

/// The detail on a new log entry where issuers are configured, and whether its
/// issuer is allowed.
fn judge(e: &CrtShEntry, cfg: &CtConfig) -> (r: (bool, String))
    ensures
        r.0 == issuer_allowed(e@.issuer_name, cfg@.allowed_issuers),
        r.1@ == issuer_detail(e@, cfg@),
{
    let trusted = is_issuer_allowed(e.issuer_name.as_str(), &cfg.allowed_issuers);
    let detail = if trusted {
        show_entry("new cert from trusted issuer: ", e).concat(e.issuer_name.as_str())
    } else if cfg.fail_on_unknown_issuer {
        show_entry("UNRECOGNIZED ISSUER: ", e).concat("'").concat(e.issuer_name.as_str()).concat(
            "' is not in the allowed_issuers list -- possible unauthorized certificate issuance",
        )
    } else {
        show_entry("unrecognized issuer (not failing, fail_on_unknown_issuer=false): ", e).concat(
            "'",
        ).concat(e.issuer_name.as_str()).concat("'")
    };
    (trusted, detail)
}

/// The details on new log entries, and whether one of them has an issuer that
/// is not allowed.
fn inspect_entries(entries: &[CrtShEntry], fresh: &Vec<usize>, cfg: &CtConfig) -> (r: (
    bool,
    Vec<String>,
))
    requires
        forall|i: int| 0 <= i < fresh@.len() ==> (#[trigger] fresh@[i]) < entries@.len(),
    ensures
        r.0 == some_unknown_issuer(selected(entries@, fresh@), cfg@),
        text::texts(r.1@) == entry_details(selected(entries@, fresh@), cfg@),
{
    let ghost views = selected(entries@, fresh@);
    let mut unknown: bool = false;
    let mut details: Vec<String> = Vec::new();
    for k in 0..fresh.len()
        invariant
            views == selected(entries@, fresh@),
            forall|i: int| 0 <= i < fresh@.len() ==> (#[trigger] fresh@[i]) < entries@.len(),
            text::texts(details@) == entry_details(views, cfg@).take(k as int),
            unknown == exists|i: int|
                0 <= i < k && !issuer_allowed(
                    (#[trigger] views[i]).issuer_name,
                    cfg@.allowed_issuers,
                ),
    {
        let e = &entries[fresh[k]];
        assert(views[k as int] == e@);
        let (trusted, judged) = judge(e, cfg);
        if !trusted {
            unknown = true;
        }
        if cfg.allowed_issuers.len() == 0 {
            text::push_text(&mut details, review(e));
        } else {
            text::push_text(&mut details, judged);
        }
        assert(text::texts(details@) =~= entry_details(views, cfg@).take(k + 1));
    }
    assert(entry_details(views, cfg@).take(fresh@.len() as int) =~= entry_details(views, cfg@));
    (unknown, details)
}

/// The log entries at the given positions.
pub open spec fn selected(entries: Seq<CrtShEntry>, at: Seq<usize>) -> Seq<CrtShEntryView> {
    Seq::new(at.len(), |i: int| entries[at[i] as int]@)
}

/// The contents of an optional text.
pub open spec fn opt_text(s: Option<&str>) -> Option<Seq<char>> {
    match s {
        Some(t) => Some(t@),
        None => None,
    }
}

/// The detail on the live certificate, whether it fails the check, and whether
/// it calls for a look.
fn inspect_pins(cfg: &CtConfig, live_fingerprint: Option<&str>) -> (r: (bool, bool, Vec<String>))
    ensures
        r.0 == pin_fails(opt_text(live_fingerprint), cfg@),
        r.1 == pin_warns(opt_text(live_fingerprint), cfg@),
        text::texts(r.2@) == pin_details(opt_text(live_fingerprint), cfg@),
{
    let mut details: Vec<String> = Vec::new();
    let mut failed: bool = false;
    let mut warned: bool = false;
    if cfg.pinned_fingerprints.len() > 0 {
        match live_fingerprint {
            Some(fp) => {
                let shown = "live certificate fingerprint ".to_owned().concat(fp);
                if matches_pin(fp, &cfg.pinned_fingerprints) {
                    text::push_text(&mut details, shown.concat(" matches a pinned fingerprint"));
                } else {
                    failed = true;
                    text::push_text(
                        &mut details,
                        shown.concat(" does NOT match any pinned_fingerprints entry"),
                    );
                }
            },
            None => {
                warned = true;
                text::push_text(
                    &mut details,
                    "pinned_fingerprints configured but no live leaf certificate was available to compare (the tls check may have failed or be disabled)".to_owned(),
                );
            },
        }
    }
    assert(text::texts(details@) =~= pin_details(opt_text(live_fingerprint), cfg@));
    (failed, warned, details)
}

/// What log entries amount to against the known ids, with the fingerprint of
/// the live leaf certificate.
pub fn evaluate(
    domain: &str,
    entries: &[CrtShEntry],
    known_ids: &BTreeSet<i64>,
    cfg: &CtConfig,
    live_fingerprint: Option<&str>,
) -> (r: CheckResult)
    ensures
        r@ == evaluated(
            domain@,
            entry_views(entries@),
            known_ids@,
            cfg@,
            opt_text(live_fingerprint),
        ),
{
    let ghost views = entry_views(entries@);
    let ghost fresh_views = new_entries(views, known_ids@);
    let fresh = new_positions(entries, known_ids);
    assert(selected(entries@, fresh@) =~= fresh_views);
    let mut details: Vec<String> = Vec::new();
    let mut failed: bool = false;
    let mut warned: bool = false;

    if known_ids.len() == 0 {
        text::push_text(
            &mut details,
            "no prior baseline for ".to_owned().concat(domain).concat("; recording ").concat(
                text::show_usize(entries.len()).as_str(),
            ).concat(" known CT log entries as the new baseline"),
        );
    } else if fresh.len() == 0 {
        text::push_text(
            &mut details,
            "no new CT log entries since last run (".to_owned().concat(
                text::show_usize(known_ids.len()).as_str(),
            ).concat(" known)"),
        );
    } else {
        text::push_text(
            &mut details,
            text::show_usize(fresh.len()).concat(" new CT log entry(ies) since last run"),
        );
        let (unknown, more) = inspect_entries(entries, &fresh, cfg);
        if cfg.allowed_issuers.len() == 0 {
            warned = true;
            text::push_text(
                &mut details,
                "no ct.allowed_issuers configured; cannot distinguish an authorized renewal from an unauthorized issuance -- listing new entries for manual review".to_owned(),
            );
        } else if unknown {
            if cfg.fail_on_unknown_issuer {
                failed = true;
            } else {
                warned = true;
            }
        }
        text::append_texts(&mut details, more);
    }
    let ghost logged = text::texts(details@);
    assert(logged =~= log_details(domain@, views, known_ids@, cfg@));
    assert(failed == entries_fail(fresh_views, known_ids@, cfg@));
    assert(warned == entries_warn(fresh_views, known_ids@, cfg@));

    let (pin_failed, pin_warned, more) = inspect_pins(cfg, live_fingerprint);
    text::append_texts(&mut details, more);

    let shown: usize = if known_ids.len() >= entries.len() {
        known_ids.len()
    } else {
        entries.len()
    };
    let summary = domain.to_owned().concat(": ").concat(text::show_usize(shown).as_str()).concat(
        " CT log entries known, ",
    ).concat(text::show_usize(fresh.len()).as_str()).concat(" new");
    CheckResult::decided(
        CHECK_NAME,
        failed || pin_failed,
        warned || pin_warned,
        summary.as_str(),
        details,
    )
}

/// The result of the check, given what came of querying the logs.
pub open spec fn checked(
    domain: Seq<char>,
    fetch: CtFetch,
    known: Set<i64>,
    cfg: CtConfigView,
    live: Option<Seq<char>>,
) -> CheckResultView {
    match fetched(fetch) {
        Ok(entries) => evaluated(domain, entries, known, cfg, live),
        Err(why) => report::bare(
            CHECK_NAME@,
            Status::Skip,
            "could not query CT logs for "@ + domain + ": "@ + why,
        ),
    }
}

/// The state after the check: the ids that came back are known on top of the
/// ones before, so a partial answer never makes the baseline shrink.
pub open spec fn advanced(
    state: Map<Seq<char>, DomainBaselineView>,
    domain: Seq<char>,
    fetch: CtFetch,
    now: Moment,
) -> Map<Seq<char>, DomainBaselineView> {
    match fetched(fetch) {
        Ok(entries) => recorded(state, domain, known(state, domain).union(ids_of(entries)), now),
        Err(_) => state,
    }
}

/// Known ids together with those of log entries.
fn merge_ids(known_ids: BTreeSet<i64>, entries: &Vec<CrtShEntry>) -> (r: BTreeSet<i64>)
    ensures
        r@ == known_ids@.union(ids_of(entry_views(entries@))),
{
    let ghost before = known_ids@;
    let ghost views = entry_views(entries@);
    let mut merged = known_ids;
    assert(views.take(0) =~= Seq::<CrtShEntryView>::empty());
    assert(merged@ =~= before.union(ids_of(views.take(0))));
    for k in 0..entries.len()
        invariant
            views == entry_views(entries@),
            merged@ == before.union(ids_of(views.take(k as int))),
    {
        assert(views.take(k + 1).drop_last() =~= views.take(k as int));
        assert(views.take(k + 1).last() == entries@[k as int]@);
        merged.insert(entries[k].id);
        assert(merged@ =~= before.union(ids_of(views.take(k + 1))));
    }
    assert(views.take(views.len() as int) =~= views);
    merged
}

/// The result of the check at the time `now`, given what came of querying the
/// logs and the fingerprint of the live leaf certificate; advances the state.
pub fn check_at(
    domain: &str,
    cfg: &CtConfig,
    state: &mut BaselineState,
    live_fingerprint: Option<&str>,
    fetch: CtFetch,
    now: Moment,
) -> (r: CheckResult)
    ensures
        r@ == checked(
            domain@,
            fetch,
            known(old(state)@, domain@),
            cfg@,
            opt_text(live_fingerprint),
        ),
        final(state)@ == advanced(old(state)@, domain@, fetch, now),
{
    match fetch_entries(fetch) {
        Ok(entries) => {
            let known_ids = state.known_ids(domain);
            let r = evaluate(domain, entries.as_slice(), &known_ids, cfg, live_fingerprint);
            let merged = merge_ids(known_ids, &entries);
            state.record_at(domain, merged, now);
            r
        },
        Err(why) => CheckResult::skip(
            CHECK_NAME,
            "could not query CT logs for ".to_owned().concat(domain).concat(": ").concat(
                why.as_str(),
            ).as_str(),
        ),
    }
}

/// The fingerprint of an optional leaf certificate.
pub open spec fn live_fingerprint_of(leaf: Option<&[u8]>) -> Option<Seq<char>> {
    match leaf {
        Some(der) => Some(hex_text(sha256(der@))),
        None => None,
    }
}

/// The result of the check, given what came of querying the logs and the live
/// leaf certificate; advances the state.
pub fn check(
    domain: &str,
    cfg: &CtConfig,
    state: &mut BaselineState,
    live_leaf_der: Option<&[u8]>,
    fetch: CtFetch,
) -> (r: CheckResult)
    ensures
        r@ == checked(
            domain@,
            fetch,
            known(old(state)@, domain@),
            cfg@,
            live_fingerprint_of(live_leaf_der),
        ),
        exists|now: Moment|
            final(state)@ == #[trigger] advanced(old(state)@, domain@, fetch, now),
{
    let now = clock::now();
    let r = match live_leaf_der {
        Some(der) => {
            let fp = fingerprint_sha256(der);
            check_at(domain, cfg, state, Some(fp.as_str()), fetch, now)
        },
        None => check_at(domain, cfg, state, None, fetch, now),
    };
    assert(state@ == advanced(old(state)@, domain@, fetch, now));
    r
}

} // verus!
