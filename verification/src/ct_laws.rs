//! What holds of the Certificate Transparency check as a whole.

use crate::clock::Moment;
use crate::config::CtConfigView;
use crate::ct;
use crate::ct::{CrtShEntryView, CtFetch, DomainBaseline, DomainBaselineView, StateFile};
use crate::report::Status;
use crate::text;
use crate::text_laws;
use vstd::prelude::*;

verus! {

/// The ids of log entries are those that occur among them.
proof fn lemma_ids_of(entries: Seq<CrtShEntryView>, id: i64)
    ensures
        ct::ids_of(entries).contains(id) <==> exists|i: int|
            0 <= i < entries.len() && (#[trigger] entries[i]).id == id,
    decreases entries.len(),
{
    if entries.len() > 0 {
        let rest = entries.drop_last();
        lemma_ids_of(rest, id);
        if exists|i: int| 0 <= i < entries.len() && (#[trigger] entries[i]).id == id {
            let i = choose|i: int| 0 <= i < entries.len() && (#[trigger] entries[i]).id == id;
            if i < rest.len() {
                assert(rest[i].id == id);
            }
        }
        if exists|i: int| 0 <= i < rest.len() && (#[trigger] rest[i]).id == id {
            let i = choose|i: int| 0 <= i < rest.len() && (#[trigger] rest[i]).id == id;
            assert(entries[i].id == id);
        }
        assert(entries[entries.len() - 1] == entries.last());
    }
}

/// The new log entries are those whose ids are not known.
pub proof fn law_new_entries_are_the_unknown_ones(
    entries: Seq<CrtShEntryView>,
    known: Set<i64>,
    e: CrtShEntryView,
)
    ensures
        ct::new_entries(entries, known).contains(e) <==> entries.contains(e) && !known.contains(
            e.id,
        ),
    decreases entries.len(),
{
    let fresh = ct::new_entries(entries, known);
    if entries.len() > 0 {
        let rest = entries.drop_last();
        let before = ct::new_entries(rest, known);
        law_new_entries_are_the_unknown_ones(rest, known, e);
        assert(entries =~= rest.push(entries.last()));
        assert(entries.contains(e) <==> rest.contains(e) || e == entries.last()) by {
            if rest.contains(e) {
                let i = rest.index_of(e);
                assert(entries[i] == e);
            }
            assert(entries[entries.len() - 1] == entries.last());
            if entries.contains(e) && e != entries.last() {
                let i = entries.index_of(e);
                assert(rest[i] == e);
            }
        }
        if !known.contains(entries.last().id) {
            assert(fresh == before.push(entries.last()));
            assert(fresh.contains(e) <==> before.contains(e) || e == entries.last()) by {
                if before.contains(e) {
                    let i = before.index_of(e);
                    assert(fresh[i] == e);
                }
                assert(fresh[fresh.len() - 1] == entries.last());
                if fresh.contains(e) && e != entries.last() {
                    let i = fresh.index_of(e);
                    assert(before[i] == e);
                }
            }
        }
    }
}

/// What is known of a domain never shrinks, and holds every id that came back.
pub proof fn law_baseline_only_grows(
    state: Map<Seq<char>, DomainBaselineView>,
    domain: Seq<char>,
    fetch: CtFetch,
    now: Moment,
)
    ensures
        ct::known(state, domain).subset_of(
            ct::known(ct::advanced(state, domain, fetch, now), domain),
        ),
        ct::fetched(fetch) matches Ok(entries) ==> forall|i: int|
            0 <= i < entries.len() ==> ct::known(
                ct::advanced(state, domain, fetch, now),
                domain,
            ).contains((#[trigger] entries[i]).id),
{
    if let Ok(entries) = ct::fetched(fetch) {
        assert forall|i: int| 0 <= i < entries.len() implies ct::known(
            ct::advanced(state, domain, fetch, now),
            domain,
        ).contains((#[trigger] entries[i]).id) by {
            lemma_ids_of(entries, entries[i].id);
        }
    }
}

/// Checking one domain leaves what is known of every other domain as it was.
pub proof fn law_other_domains_are_untouched(
    state: Map<Seq<char>, DomainBaselineView>,
    domain: Seq<char>,
    other: Seq<char>,
    fetch: CtFetch,
    now: Moment,
)
    requires
        other != domain,
    ensures
        ct::advanced(state, domain, fetch, now).contains_key(other) == state.contains_key(other),
        state.contains_key(other) ==> ct::advanced(state, domain, fetch, now)[other]
            == state[other],
{
}

/// What is recorded for a domain is what is known of it from then on.
pub proof fn law_record_reads_back(
    state: Map<Seq<char>, DomainBaselineView>,
    domain: Seq<char>,
    ids: Set<i64>,
    now: Moment,
)
    ensures
        ct::known(ct::recorded(state, domain, ids, now), domain) == ids,
{
}

/// Whether a list of baselines holds this baseline for this domain.
pub open spec fn holds(v: Seq<DomainBaseline>, domain: Seq<char>, b: DomainBaselineView) -> bool {
    exists|i: int| 0 <= i < v.len() && (#[trigger] v[i]).domain@ == domain && v[i]@ == b
}

/// What a list without repeated domains says of a domain is what it holds.
proof fn lemma_holds(v: Seq<DomainBaseline>, domain: Seq<char>, b: DomainBaselineView)
    requires
        ct::distinct_domains(v),
    ensures
        holds(v, domain, b) <==> ct::baseline_map(v).contains_key(domain) && ct::baseline_map(
            v,
        )[domain] == b,
{
    ct::lemma_baseline_map(v);
    if ct::baseline_map(v).contains_key(domain) {
        let i = choose|i: int| 0 <= i < v.len() && (#[trigger] v[i]).domain@ == domain;
        assert(v[i]@ == ct::baseline_map(v)[domain]);
    }
}

/// A state that was saved loads back: a file with the baselines that were
/// persisted, in whatever order, gives the state that they came from.
pub proof fn law_saved_state_loads_back(
    state: Map<Seq<char>, DomainBaselineView>,
    saved: Seq<DomainBaseline>,
    read: Vec<DomainBaseline>,
)
    requires
        ct::baseline_map(saved) == state,
        ct::distinct_domains(saved),
        ct::distinct_domains(read@),
        forall|d: Seq<char>, b: DomainBaselineView|
            #[trigger] holds(read@, d, b) <==> holds(saved, d, b),
    ensures
        ct::loaded(StateFile::Baselines(read)) == state,
        forall|d: Seq<char>| #[trigger]
            ct::known(ct::loaded(StateFile::Baselines(read)), d) == ct::known(state, d),
{
    let back = ct::baseline_map(read@);
    assert forall|d: Seq<char>| #[trigger] back.dom().contains(d) implies state.dom().contains(d)
        && back[d] == state[d] by {
        lemma_holds(read@, d, back[d]);
        lemma_holds(saved, d, back[d]);
    }
    assert forall|d: Seq<char>| #[trigger] state.dom().contains(d) implies back.dom().contains(
        d,
    ) by {
        lemma_holds(saved, d, state[d]);
        lemma_holds(read@, d, state[d]);
    }
    assert(back =~= state);
}

/// The very baselines that were persisted load back as the state that they
/// came from.
pub proof fn law_persisted_baselines_load_back(
    state: Map<Seq<char>, DomainBaselineView>,
    saved: Vec<DomainBaseline>,
)
    requires
        ct::baseline_map(saved@) == state,
    ensures
        ct::loaded(StateFile::Baselines(saved)) == state,
{
}

/// From a state file that is missing or broken, nothing is known of any domain.
pub proof fn law_unusable_state_file_is_empty(file: StateFile, domain: Seq<char>)
    requires
        !(file is Baselines),
    ensures
        ct::loaded(file) == Map::<Seq<char>, DomainBaselineView>::empty(),
        ct::known(ct::loaded(file), domain) == Set::<i64>::empty(),
{
}

/// Logs that could not be queried skip the check, whatever else holds, and
/// leave the state as it was: a skip is never read as a clean result.
pub proof fn law_unanswered_query_skips(
    state: Map<Seq<char>, DomainBaselineView>,
    domain: Seq<char>,
    fetch: CtFetch,
    cfg: CtConfigView,
    live: Option<Seq<char>>,
    now: Moment,
)
    ensures
        ct::checked(domain, fetch, ct::known(state, domain), cfg, live).status == Status::Skip
            <==> ct::fetched(fetch) is Err,
        ct::fetched(fetch) is Err ==> ct::advanced(state, domain, fetch, now) == state,
{
}

/// No log entry is new to a state that holds its id.
proof fn lemma_nothing_new(entries: Seq<CrtShEntryView>, known: Set<i64>)
    requires
        ct::ids_of(entries).subset_of(known),
    ensures
        ct::new_entries(entries, known).len() == 0,
    decreases entries.len(),
{
    if entries.len() > 0 {
        assert(ct::ids_of(entries).contains(entries.last().id));
        assert(ct::ids_of(entries.drop_last()).subset_of(ct::ids_of(entries)));
        lemma_nothing_new(entries.drop_last(), known);
    }
}

/// Checking again with the same log entries finds none of them new, and passes
/// where no fingerprints are pinned.
pub proof fn law_second_run_finds_nothing_new(
    state: Map<Seq<char>, DomainBaselineView>,
    domain: Seq<char>,
    fetch: CtFetch,
    cfg: CtConfigView,
    live: Option<Seq<char>>,
    now: Moment,
)
    requires
        ct::fetched(fetch) is Ok,
    ensures
        ct::new_entries(
            ct::fetched(fetch)->Ok_0,
            ct::known(ct::advanced(state, domain, fetch, now), domain),
        ).len() == 0,
        cfg.pinned_fingerprints.len() == 0 ==> ct::checked(
            domain,
            fetch,
            ct::known(ct::advanced(state, domain, fetch, now), domain),
            cfg,
            live,
        ).status == Status::Pass,
{
    let entries = ct::fetched(fetch)->Ok_0;
    let after = ct::known(ct::advanced(state, domain, fetch, now), domain);
    assert(ct::ids_of(entries).subset_of(after));
    lemma_nothing_new(entries, after);
}

/// A first run, with nothing known of the domain, does not judge issuers: it
/// passes where no fingerprints are pinned.
pub proof fn law_first_run_establishes_a_baseline(
    domain: Seq<char>,
    entries: Seq<CrtShEntryView>,
    cfg: CtConfigView,
    live: Option<Seq<char>>,
)
    requires
        cfg.pinned_fingerprints.len() == 0,
    ensures
        ct::evaluated(domain, entries, Set::empty(), cfg, live).status == Status::Pass,
{
}

/// Where something is known of the domain, a new log entry from an issuer that
/// is not allowed fails the check, if unknown issuers are to.
pub proof fn law_unknown_issuer_fails(
    domain: Seq<char>,
    entries: Seq<CrtShEntryView>,
    known: Set<i64>,
    cfg: CtConfigView,
    live: Option<Seq<char>>,
    e: CrtShEntryView,
)
    requires
        known.len() > 0,
        cfg.allowed_issuers.len() > 0,
        cfg.fail_on_unknown_issuer,
        entries.contains(e),
        !known.contains(e.id),
        !ct::issuer_allowed(e.issuer_name, cfg.allowed_issuers),
    ensures
        ct::evaluated(domain, entries, known, cfg, live).status == Status::Fail,
{
    let fresh = ct::new_entries(entries, known);
    law_new_entries_are_the_unknown_ones(entries, known, e);
    let i = fresh.index_of(e);
    assert(fresh[i] == e);
}

/// Without allowed issuers, new log entries never pass unseen: the check warns,
/// or fails on the live certificate.
pub proof fn law_no_allowlist_warns(
    domain: Seq<char>,
    entries: Seq<CrtShEntryView>,
    known: Set<i64>,
    cfg: CtConfigView,
    live: Option<Seq<char>>,
    e: CrtShEntryView,
)
    requires
        known.len() > 0,
        cfg.allowed_issuers.len() == 0,
        entries.contains(e),
        !known.contains(e.id),
    ensures
        ct::evaluated(domain, entries, known, cfg, live).status == if ct::pin_fails(live, cfg) {
            Status::Fail
        } else {
            Status::Warn
        },
{
    let fresh = ct::new_entries(entries, known);
    law_new_entries_are_the_unknown_ones(entries, known, e);
    let i = fresh.index_of(e);
    assert(fresh[i] == e);
}

/// Where fingerprints are pinned, a live certificate that matches none of them
/// fails the check.
pub proof fn law_unpinned_certificate_fails(
    domain: Seq<char>,
    entries: Seq<CrtShEntryView>,
    known: Set<i64>,
    cfg: CtConfigView,
    live: Seq<char>,
)
    requires
        cfg.pinned_fingerprints.len() > 0,
        forall|i: int|
            0 <= i < cfg.pinned_fingerprints.len() ==> !text::same_ignoring_case(
                #[trigger] cfg.pinned_fingerprints[i],
                live,
            ),
    ensures
        ct::evaluated(domain, entries, known, cfg, Some(live)).status == Status::Fail,
{
}

/// A certificate that is pinned by its fingerprint, in whatever case, matches.
pub proof fn law_certificate_matches_its_own_pin(der: Seq<u8>, cfg: CtConfigView, i: int)
    requires
        0 <= i < cfg.pinned_fingerprints.len(),
        text::same_ignoring_case(cfg.pinned_fingerprints[i], ct::hex_text(ct::sha256(der))),
    ensures
        !ct::pin_fails(Some(ct::hex_text(ct::sha256(der))), cfg),
        !ct::pin_warns(Some(ct::hex_text(ct::sha256(der))), cfg),
{
}

/// Case does not matter for whether an issuer is allowed, neither that of the
/// issuer nor that of the allowed names: texts that are the same in lower case
/// can take each other's place.
pub proof fn law_issuer_case_is_irrelevant(
    a: Seq<char>,
    b: Seq<char>,
    allowed: Seq<Seq<char>>,
    other: Seq<Seq<char>>,
)
    requires
        text::lowercase(a) == text::lowercase(b),
        allowed.len() == other.len(),
        forall|i: int|
            0 <= i < allowed.len() ==> text::lowercase(#[trigger] allowed[i]) == text::lowercase(
                other[i],
            ),
    ensures
        ct::issuer_allowed(a, allowed) == ct::issuer_allowed(b, other),
{
    if ct::issuer_allowed(a, allowed) {
        let i = choose|i: int|
            0 <= i < allowed.len() && text::contains_text(
                text::lowercase(a),
                text::lowercase(#[trigger] allowed[i]),
            );
        assert(text::contains_text(text::lowercase(b), text::lowercase(other[i])));
    }
    if ct::issuer_allowed(b, other) {
        let i = choose|i: int|
            0 <= i < other.len() && text::contains_text(
                text::lowercase(b),
                text::lowercase(#[trigger] other[i]),
            );
        assert(text::lowercase(allowed[i]) == text::lowercase(other[i]));
    }
}

/// ASCII texts that differ in the case of letters alone are the same in lower
/// case.
pub proof fn law_ascii_case_is_lowered(a: Seq<char>, b: Seq<char>)
    requires
        vstd::utf8::is_ascii_chars(a),
        vstd::utf8::is_ascii_chars(b),
        text::same_ignoring_case(a, b),
    ensures
        text::lowercase(a) == text::lowercase(b),
{
}

/// Two digests with the same fingerprint are the same.
pub proof fn law_fingerprints_tell_digests_apart(a: Seq<u8>, b: Seq<u8>)
    ensures
        ct::hex_text(a) == ct::hex_text(b) ==> a == b,
{
    if ct::hex_text(a) == ct::hex_text(b) {
        let ha = ct::hex_text(a);
        let hb = ct::hex_text(b);
        assert(ha.len() == 2 * a.len());
        assert(hb.len() == 2 * b.len());
        assert forall|i: int| 0 <= i < a.len() implies a[i] == b[i] by {
            assert(ha[2 * i] == ct::hex_digit(a[i] as int / 16));
            assert(ha[2 * i + 1] == ct::hex_digit(a[i] as int % 16));
            assert(hb[2 * i] == ct::hex_digit(b[i] as int / 16));
            assert(hb[2 * i + 1] == ct::hex_digit(b[i] as int % 16));
        }
        assert(a =~= b);
    }
}

// ---------------------------------------------------------------------
// The check, in terms of the log entries and the settings alone
// ---------------------------------------------------------------------

/// Whether an issuer's name, in lower case, contains the allowed name at `i`.
pub open spec fn named_by(issuer: Seq<char>, allowed: Seq<Seq<char>>, i: int) -> bool {
    exists|a: Seq<char>, b: Seq<char>|
        text::lowercase(issuer) == #[trigger] (a + text::lowercase(allowed[i]) + b)
}

/// Any name on the allowed list is enough for an issuer, and only such a name.
pub proof fn law_any_allowed_name_is_enough(issuer: Seq<char>, allowed: Seq<Seq<char>>)
    ensures
        forall|i: int|
            0 <= i < allowed.len() && #[trigger] named_by(issuer, allowed, i) ==> ct::issuer_allowed(
                issuer,
                allowed,
            ),
        ct::issuer_allowed(issuer, allowed) ==> exists|i: int|
            0 <= i < allowed.len() && #[trigger] named_by(issuer, allowed, i),
{
    assert forall|i: int| #![trigger allowed[i]] 0 <= i < allowed.len() implies (text::contains_text(
        text::lowercase(issuer),
        text::lowercase(allowed[i]),
    ) <==> named_by(issuer, allowed, i)) by {
        text_laws::law_contains_text_iff(text::lowercase(issuer), text::lowercase(allowed[i]));
    }
    if ct::issuer_allowed(issuer, allowed) {
        let i = choose|i: int|
            0 <= i < allowed.len() && text::contains_text(
                text::lowercase(issuer),
                text::lowercase(#[trigger] allowed[i]),
            );
        assert(named_by(issuer, allowed, i));
    }
    assert forall|i: int|
        0 <= i < allowed.len() && #[trigger] named_by(issuer, allowed, i) implies ct::issuer_allowed(
        issuer,
        allowed,
    ) by {
        assert(text::contains_text(text::lowercase(issuer), text::lowercase(allowed[i])));
    }
}

/// A longer list of allowed names allows at least as many issuers, and the order
/// of the names does not matter.
pub proof fn law_more_allowed_names_allow_more(
    issuer: Seq<char>,
    a: Seq<Seq<char>>,
    b: Seq<Seq<char>>,
)
    ensures
        ct::issuer_allowed(issuer, a + b) <==> ct::issuer_allowed(issuer, a) || ct::issuer_allowed(
            issuer,
            b,
        ),
{
    let l = text::lowercase(issuer);
    if ct::issuer_allowed(issuer, a) {
        let i = choose|i: int|
            0 <= i < a.len() && text::contains_text(l, text::lowercase(#[trigger] a[i]));
        assert((a + b)[i] == a[i]);
    }
    if ct::issuer_allowed(issuer, b) {
        let i = choose|i: int|
            0 <= i < b.len() && text::contains_text(l, text::lowercase(#[trigger] b[i]));
        assert((a + b)[a.len() + i] == b[i]);
    }
    if ct::issuer_allowed(issuer, a + b) {
        let i = choose|i: int|
            0 <= i < (a + b).len() && text::contains_text(l, text::lowercase(#[trigger] (a + b)[i]));
        if i < a.len() {
            assert((a + b)[i] == a[i]);
        } else {
            assert((a + b)[i] == b[i - a.len()]);
        }
    }
}

/// Whether the log entry at `k` is new.
pub open spec fn is_new(entries: Seq<CrtShEntryView>, known: Set<i64>, k: int) -> bool {
    0 <= k < entries.len() && !known.contains(entries[k].id)
}

/// Whether the log entry at `k` is new, with an issuer that no allowed name
/// stands for.
pub open spec fn is_unrecognized(
    entries: Seq<CrtShEntryView>,
    known: Set<i64>,
    allowed: Seq<Seq<char>>,
    k: int,
) -> bool {
    &&& is_new(entries, known, k)
    &&& forall|i: int| 0 <= i < allowed.len() ==> !#[trigger] named_by(
        entries[k].issuer_name,
        allowed,
        i,
    )
}

/// When the check fails, warns and passes.
pub proof fn law_status_iff(
    domain: Seq<char>,
    entries: Seq<CrtShEntryView>,
    known: Set<i64>,
    cfg: CtConfigView,
    live: Option<Seq<char>>,
)
    ensures
        ({
            let status = ct::evaluated(domain, entries, known, cfg, live).status;
            let news = exists|k: int| #[trigger] is_new(entries, known, k);
            let stranger = exists|k: int| #[trigger]
                is_unrecognized(entries, known, cfg.allowed_issuers, k);
            let pins = cfg.pinned_fingerprints.len() > 0;
            let mismatch = live is Some && forall|i: int|
                0 <= i < cfg.pinned_fingerprints.len() ==> !text::same_ignoring_case(
                    #[trigger] cfg.pinned_fingerprints[i],
                    live->0,
                );
            let listed = cfg.allowed_issuers.len() > 0;
            let baseline = known.len() > 0;
            let fails = (baseline && listed && cfg.fail_on_unknown_issuer && stranger) || (pins
                && mismatch);
            let warns = (baseline && !listed && news) || (baseline && listed
                && !cfg.fail_on_unknown_issuer && stranger) || (pins && live is None);
            &&& status == Status::Fail <==> fails
            &&& status == Status::Warn <==> !fails && warns
            &&& status == Status::Pass <==> !fails && !warns
        }),
{
    let fresh = ct::new_entries(entries, known);
    let allowed = cfg.allowed_issuers;
    assert forall|k: int| #[trigger] is_new(entries, known, k) implies fresh.contains(
        entries[k],
    ) by {
        law_new_entries_are_the_unknown_ones(entries, known, entries[k]);
        assert(entries.contains(entries[k]));
    }
    assert forall|j: int| 0 <= j < fresh.len() implies exists|k: int|
        #![trigger is_new(entries, known, k)]
        is_new(entries, known, k) && entries[k] == #[trigger] fresh[j] by {
        law_new_entries_are_the_unknown_ones(entries, known, fresh[j]);
        assert(fresh.contains(fresh[j]));
        let k = entries.index_of(fresh[j]);
        assert(is_new(entries, known, k));
    }
    if exists|k: int| #[trigger] is_unrecognized(entries, known, allowed, k) {
        let k = choose|k: int| #[trigger] is_unrecognized(entries, known, allowed, k);
        assert(is_new(entries, known, k));
        let j = fresh.index_of(entries[k]);
        law_any_allowed_name_is_enough(entries[k].issuer_name, allowed);
        assert(!ct::issuer_allowed(fresh[j].issuer_name, allowed));
        assert(ct::some_unknown_issuer(fresh, cfg));
    }
    if ct::some_unknown_issuer(fresh, cfg) {
        let j = choose|j: int|
            0 <= j < fresh.len() && !ct::issuer_allowed(
                (#[trigger] fresh[j]).issuer_name,
                cfg.allowed_issuers,
            );
        let k = choose|k: int| #[trigger] is_new(entries, known, k) && entries[k] == fresh[j];
        law_any_allowed_name_is_enough(entries[k].issuer_name, allowed);
        assert(is_unrecognized(entries, known, allowed, k));
    }
    if fresh.len() > 0 {
        let e = fresh[0];
        let k = choose|k: int| #[trigger] is_new(entries, known, k) && entries[k] == fresh[0];
        assert(is_new(entries, known, k));
    }
    if exists|k: int| #[trigger] is_new(entries, known, k) {
        let k = choose|k: int| #[trigger] is_new(entries, known, k);
        assert(fresh.contains(entries[k]));
    }
}

/// Where every new entry's issuer is named by some entry of the allowed list and
/// no fingerprints are pinned, the check passes.
pub proof fn law_allowed_issuers_pass(
    domain: Seq<char>,
    entries: Seq<CrtShEntryView>,
    known: Set<i64>,
    cfg: CtConfigView,
    live: Option<Seq<char>>,
)
    requires
        cfg.pinned_fingerprints.len() == 0,
        cfg.allowed_issuers.len() > 0,
        forall|k: int| #[trigger]
            is_new(entries, known, k) ==> exists|i: int|
                0 <= i < cfg.allowed_issuers.len() && #[trigger] named_by(
                    entries[k].issuer_name,
                    cfg.allowed_issuers,
                    i,
                ),
    ensures
        ct::evaluated(domain, entries, known, cfg, live).status == Status::Pass,
{
    law_status_iff(domain, entries, known, cfg, live);
    if exists|k: int| #[trigger] is_unrecognized(entries, known, cfg.allowed_issuers, k) {
        let k = choose|k: int| #[trigger] is_unrecognized(entries, known, cfg.allowed_issuers, k);
        assert(is_new(entries, known, k));
    }
}

/// The new log entries of two lists are those of the first and those of the
/// second; of one entry it is the entry itself, if its id is not known.
pub proof fn law_new_entries_keep_their_order(
    a: Seq<CrtShEntryView>,
    b: Seq<CrtShEntryView>,
    known: Set<i64>,
    e: CrtShEntryView,
)
    ensures
        ct::new_entries(a + b, known) == ct::new_entries(a, known) + ct::new_entries(b, known),
        ct::new_entries(seq![e], known) == if known.contains(e.id) {
            Seq::empty()
        } else {
            seq![e]
        },
    decreases b.len(),
{
    assert(seq![e].drop_last() =~= Seq::<CrtShEntryView>::empty());
    assert(ct::new_entries(seq![e].drop_last(), known) =~= Seq::<CrtShEntryView>::empty());
    assert(Seq::<CrtShEntryView>::empty().push(e) =~= seq![e]);
    if b.len() == 0 {
        assert(a + b =~= a);
        assert(ct::new_entries(a, known) + ct::new_entries(b, known) =~= ct::new_entries(a, known));
    } else {
        law_new_entries_keep_their_order(a, b.drop_last(), known, e);
        assert((a + b).drop_last() =~= a + b.drop_last());
        assert((a + b).last() == b.last());
        assert(ct::new_entries(a + b, known) =~= ct::new_entries(a, known) + ct::new_entries(
            b,
            known,
        ));
    }
}

/// What the check says: how many entries are known, at least as many as came
/// back, and how many are new.
pub proof fn law_summary_counts(
    domain: Seq<char>,
    entries: Seq<CrtShEntryView>,
    known: Set<i64>,
    cfg: CtConfigView,
    live: Option<Seq<char>>,
    n: nat,
)
    requires
        n >= known.len(),
        n >= entries.len(),
        n == known.len() || n == entries.len(),
    ensures
        ct::evaluated(domain, entries, known, cfg, live).check == "ct"@,
        ct::evaluated(domain, entries, known, cfg, live).summary == domain + ": "@ + text::decimal(n)
            + " CT log entries known, "@ + text::decimal(ct::new_entries(entries, known).len())
            + " new"@,
{
}

/// What is said of the log entries as a whole comes first.
pub proof fn law_first_detail(
    domain: Seq<char>,
    entries: Seq<CrtShEntryView>,
    known: Set<i64>,
    cfg: CtConfigView,
    live: Option<Seq<char>>,
)
    ensures
        ({
            let details = ct::evaluated(domain, entries, known, cfg, live).details;
            let n = ct::new_entries(entries, known).len();
            &&& details.len() > 0
            &&& known.len() == 0 ==> details[0] == "no prior baseline for "@ + domain
                + "; recording "@ + text::decimal(entries.len())
                + " known CT log entries as the new baseline"@
            &&& known.len() > 0 && n == 0 ==> details[0] == "no new CT log entries since last run ("@
                + text::decimal(known.len()) + " known)"@
            &&& known.len() > 0 && n > 0 ==> details[0] == text::decimal(n)
                + " new CT log entry(ies) since last run"@
        }),
{
}

/// Every new log entry has a detail of its own, in order: on the entry as a
/// whole where no issuers are configured, else on whether its issuer is allowed.
pub proof fn law_every_new_entry_is_reported(
    domain: Seq<char>,
    entries: Seq<CrtShEntryView>,
    known: Set<i64>,
    cfg: CtConfigView,
    live: Option<Seq<char>>,
    k: int,
)
    requires
        known.len() > 0,
        0 <= k < ct::new_entries(entries, known).len(),
    ensures
        ({
            let details = ct::evaluated(domain, entries, known, cfg, live).details;
            let e = ct::new_entries(entries, known)[k];
            let shown = "id="@ + text::decimal_int(e.id as int) + " cn="@ + e.common_name
                + " issuer="@;
            let allowed = exists|i: int|
                0 <= i < cfg.allowed_issuers.len() && #[trigger] named_by(
                    e.issuer_name,
                    cfg.allowed_issuers,
                    i,
                );
            &&& cfg.allowed_issuers.len() == 0 ==> {
                &&& details.len() > k + 2
                &&& details[1]
                    == "no ct.allowed_issuers configured; cannot distinguish an authorized renewal from an unauthorized issuance -- listing new entries for manual review"@
                &&& details[k + 2] == "  new: "@ + shown + e.issuer_name + " not_before="@
                    + e.not_before + " not_after="@ + e.not_after
            }
            &&& cfg.allowed_issuers.len() > 0 ==> {
                &&& details.len() > k + 1
                &&& allowed ==> details[k + 1] == "new cert from trusted issuer: "@ + shown
                    + e.issuer_name
                &&& !allowed && cfg.fail_on_unknown_issuer ==> details[k + 1]
                    == "UNRECOGNIZED ISSUER: "@ + shown + "'"@ + e.issuer_name
                    + "' is not in the allowed_issuers list -- possible unauthorized certificate issuance"@
                &&& !allowed && !cfg.fail_on_unknown_issuer ==> details[k + 1]
                    == "unrecognized issuer (not failing, fail_on_unknown_issuer=false): "@ + shown
                    + "'"@ + e.issuer_name + "'"@
            }
        }),
{
    let e = ct::new_entries(entries, known)[k];
    law_any_allowed_name_is_enough(e.issuer_name, cfg.allowed_issuers);
}

/// How many details there are: one on the entries as a whole, one for each new
/// entry, one where no issuers are configured, and one on the live certificate
/// where fingerprints are pinned. That one is the last.
pub proof fn law_live_certificate_is_reported_last(
    domain: Seq<char>,
    entries: Seq<CrtShEntryView>,
    known: Set<i64>,
    cfg: CtConfigView,
    live: Option<Seq<char>>,
)
    ensures
        ({
            let details = ct::evaluated(domain, entries, known, cfg, live).details;
            let n = ct::new_entries(entries, known).len();
            let of_entries: nat = if known.len() == 0 || n == 0 {
                1
            } else if cfg.allowed_issuers.len() == 0 {
                n + 2
            } else {
                n + 1
            };
            let pinned = live is Some && exists|i: int|
                0 <= i < cfg.pinned_fingerprints.len() && text::same_ignoring_case(
                    #[trigger] cfg.pinned_fingerprints[i],
                    live->0,
                );
            &&& cfg.pinned_fingerprints.len() == 0 ==> details.len() == of_entries
            &&& cfg.pinned_fingerprints.len() > 0 ==> {
                &&& details.len() == of_entries + 1
                &&& live is Some && pinned ==> details[of_entries as int]
                    == "live certificate fingerprint "@ + live->0 + " matches a pinned fingerprint"@
                &&& live is Some && !pinned ==> details[of_entries as int]
                    == "live certificate fingerprint "@ + live->0
                    + " does NOT match any pinned_fingerprints entry"@
                &&& live is None ==> details[of_entries as int]
                    == "pinned_fingerprints configured but no live leaf certificate was available to compare (the tls check may have failed or be disabled)"@
            }
        }),
{
}

/// The certificate that is held against the pins is the live one, by its
/// fingerprint.
pub proof fn law_live_fingerprint(der: &[u8])
    ensures
        ct::live_fingerprint_of(Some(der)) == Some(ct::hex_text(ct::sha256(der@))),
        ct::live_fingerprint_of(None) is None,
{
}

// ---------------------------------------------------------------------
// The baseline, in terms of its ids alone
// ---------------------------------------------------------------------

/// After a check the known ids are those that were known and those that came
/// back, and no others; the time of the check is recorded.
pub proof fn law_known_after_a_check(
    state: Map<Seq<char>, DomainBaselineView>,
    domain: Seq<char>,
    fetch: CtFetch,
    now: Moment,
    id: i64,
)
    requires
        ct::fetched(fetch) is Ok,
    ensures
        ({
            let after = ct::advanced(state, domain, fetch, now);
            let entries = ct::fetched(fetch)->Ok_0;
            &&& ct::known(after, domain).contains(id) <==> ct::known(state, domain).contains(id) || (
            exists|k: int| 0 <= k < entries.len() && (#[trigger] entries[k]).id == id)
            &&& after.contains_key(domain)
            &&& after[domain].last_checked == Some(now)
        }),
{
    lemma_ids_of(ct::fetched(fetch)->Ok_0, id);
}

/// What is known of a domain is what its baseline says, and nothing where it
/// has none.
pub proof fn law_known_is_what_the_baseline_says(
    state: Map<Seq<char>, DomainBaselineView>,
    domain: Seq<char>,
)
    ensures
        state.contains_key(domain) ==> ct::known(state, domain) == state[domain].known,
        !state.contains_key(domain) ==> ct::known(state, domain) == Set::<i64>::empty(),
{
}

/// Of several baselines for one domain the last one counts.
pub proof fn law_last_baseline_counts(v: Seq<DomainBaseline>, i: int)
    requires
        0 <= i < v.len(),
        forall|j: int| i < j < v.len() ==> (#[trigger] v[j]).domain@ != v[i].domain@,
    ensures
        ct::baseline_map(v).contains_key(v[i].domain@),
        ct::baseline_map(v)[v[i].domain@].known == v[i].known_crtsh_ids@,
        ct::baseline_map(v)[v[i].domain@].last_checked == v[i].last_checked,
    decreases v.len(),
{
    if i < v.len() - 1 {
        let r = v.drop_last();
        assert(v[v.len() - 1].domain@ != v[i].domain@);
        assert forall|j: int| i < j < r.len() implies (#[trigger] r[j]).domain@ != r[i].domain@ by {
            assert(r[j] == v[j]);
        }
        law_last_baseline_counts(r, i);
    }
}

/// A domain that no baseline is for is not known.
pub proof fn law_no_baseline_no_domain(v: Seq<DomainBaseline>, domain: Seq<char>)
    requires
        forall|j: int| 0 <= j < v.len() ==> (#[trigger] v[j]).domain@ != domain,
    ensures
        !ct::baseline_map(v).contains_key(domain),
    decreases v.len(),
{
    if v.len() > 0 {
        let r = v.drop_last();
        assert(v[v.len() - 1].domain@ != domain);
        assert forall|j: int| 0 <= j < r.len() implies (#[trigger] r[j]).domain@ != domain by {
            assert(r[j] == v[j]);
        }
        law_no_baseline_no_domain(r, domain);
    }
}

// ---------------------------------------------------------------------
// Querying the logs
// ---------------------------------------------------------------------

/// What comes of each answer: entries only from a success whose body is a list
/// of them, and all of those, in their order.
pub proof fn law_answers(fetch: CtFetch)
    ensures
        match fetch {
            CtFetch::NoClient(why) => ct::fetched(fetch) == Err::<Seq<CrtShEntryView>, Seq<char>>(
                why@,
            ),
            CtFetch::Unreachable(why) => ct::fetched(fetch) == Err::<
                Seq<CrtShEntryView>,
                Seq<char>,
            >("request to crt.sh failed: "@ + why@),
            CtFetch::Answer(status, body) => {
                &&& !(200 <= status <= 299) ==> ct::fetched(fetch) == Err::<
                    Seq<CrtShEntryView>,
                    Seq<char>,
                >(
                    "crt.sh returned HTTP "@ + text::decimal(status as nat) + " "@ + (
                    match ct::reason_phrase(status) {
                        Some(phrase) => phrase,
                        None => "<unknown status code>"@,
                    }),
                )
                &&& 200 <= status <= 299 ==> match body {
                    Err(why) => ct::fetched(fetch) == Err::<Seq<CrtShEntryView>, Seq<char>>(
                        "could not parse crt.sh response: "@ + why@,
                    ),
                    Ok(v) => ct::fetched(fetch) matches Ok(entries) && entries.len() == v@.len() && (
                    forall|i: int|
                        0 <= i < v@.len() ==> {
                            &&& (#[trigger] entries[i]).id == v@[i].id
                            &&& entries[i].issuer_name == v@[i].issuer_name@
                            &&& entries[i].common_name == v@[i].common_name@
                            &&& entries[i].not_before == v@[i].not_before@
                            &&& entries[i].not_after == v@[i].not_after@
                        }),
                }
            },
        },
{
    if let CtFetch::Answer(status, body) = fetch {
        let phrase = match ct::reason_phrase(status) {
            Some(phrase) => phrase,
            None => "<unknown status code>"@,
        };
        assert("crt.sh returned HTTP "@ + (text::decimal(status as nat) + " "@ + phrase)
            =~= "crt.sh returned HTTP "@ + text::decimal(status as nat) + " "@ + phrase);
    }
}

/// The result of the check: skipped with the reason where there are no entries,
/// else what the entries amount to.
pub proof fn law_check_result(
    domain: Seq<char>,
    fetch: CtFetch,
    known: Set<i64>,
    cfg: CtConfigView,
    live: Option<Seq<char>>,
)
    ensures
        ct::fetched(fetch) matches Err(why) ==> {
            let r = ct::checked(domain, fetch, known, cfg, live);
            &&& r.check == "ct"@
            &&& r.status == Status::Skip
            &&& r.summary == "could not query CT logs for "@ + domain + ": "@ + why
            &&& r.details.len() == 0
        },
        ct::fetched(fetch) matches Ok(entries) ==> ct::checked(domain, fetch, known, cfg, live)
            == ct::evaluated(domain, entries, known, cfg, live),
{
}

/// Where the logs are queried: the configured address without the slashes at its
/// end, and the domain in the query.
pub proof fn law_query_url(base: Seq<char>, domain: Seq<char>, cfg: CtConfigView)
    requires
        base.len() > 0 ==> base[base.len() - 1] != '/',
        base.len() <= cfg.crtsh_url.len(),
        cfg.crtsh_url.take(base.len() as int) == base,
        forall|i: int| base.len() <= i < cfg.crtsh_url.len() ==> cfg.crtsh_url[i] == '/',
    ensures
        ct::log_url(domain, cfg) == base + "/?q="@ + domain + "&output=json"@,
{
    let url = cfg.crtsh_url;
    let t = text::without_trailing(url, '/');
    text_laws::law_without_trailing(url, '/');
    assert(t.len() == base.len()) by {
        if t.len() > base.len() {
            assert(url[t.len() - 1] == '/');
            assert(url.take(t.len() as int)[t.len() - 1] == t[t.len() - 1]);
        }
        if t.len() < base.len() {
            assert(url[base.len() - 1] == '/');
            assert(url.take(base.len() as int)[base.len() - 1] == base[base.len() - 1]);
        }
    }
    assert(t =~= base);
}

/// What is recorded for a domain is the ids and the time, and nothing is changed
/// for another.
pub proof fn law_recorded(
    state: Map<Seq<char>, DomainBaselineView>,
    domain: Seq<char>,
    other: Seq<char>,
    ids: Set<i64>,
    now: Moment,
)
    ensures
        ({
            let after = ct::recorded(state, domain, ids, now);
            &&& after.contains_key(domain)
            &&& after[domain].known == ids
            &&& after[domain].last_checked == Some(now)
            &&& other != domain ==> after.contains_key(other) == state.contains_key(other)
            &&& other != domain && state.contains_key(other) ==> after[other] == state[other]
        }),
{
}

/// No domain occurs twice exactly where any two baselines are for different
/// ones.
pub proof fn law_distinct_domains_iff(v: Seq<DomainBaseline>)
    ensures
        ct::distinct_domains(v) <==> forall|i: int, j: int|
            0 <= i < v.len() && 0 <= j < v.len() && i != j ==> (#[trigger] v[i]).domain@ != (
            #[trigger] v[j]).domain@,
{
    if ct::distinct_domains(v) {
        assert forall|i: int, j: int|
            0 <= i < v.len() && 0 <= j < v.len() && i != j implies (#[trigger] v[i]).domain@ != (
        #[trigger] v[j]).domain@ by {
            if i > j {
                assert(v[j].domain@ != v[i].domain@);
            }
        }
    }
}

/// A fingerprint is two hexadecimal digits in lower case for each byte, the
/// higher half first.
pub proof fn law_hex_text(bytes: Seq<u8>, i: int)
    requires
        0 <= i < bytes.len(),
    ensures
        ct::hex_text(bytes).len() == 2 * bytes.len(),
        ct::hex_text(bytes)[2 * i] == hex_digits()[bytes[i] as int / 16],
        ct::hex_text(bytes)[2 * i + 1] == hex_digits()[bytes[i] as int % 16],
{
    reveal_strlit("0123456789abcdef");
}

/// The hexadecimal digits.
pub open spec fn hex_digits() -> Seq<char> {
    "0123456789abcdef"@
}

/// An optional text is read as it stands.
pub proof fn law_optional_text(s: &str)
    ensures
        ct::opt_text(Some(s)) == Some(s@),
        ct::opt_text(None) is None,
{
}

} // verus!
