//! What the header check makes of a header set, in terms of the values and the
//! settings alone.

use crate::config::HeadersConfigView;
use crate::headers;
use crate::headers::{HeaderFetch, HeaderFixView};
use crate::report::Status;
use crate::text;
use crate::text_laws;
use vstd::prelude::*;

verus! {

// ---------------------------------------------------------------------
// Header values
// ---------------------------------------------------------------------

/// A header has a text exactly where there is a value under its name in lower
/// case and every byte of it is a tab or a visible ASCII character; the text is
/// the bytes as characters.
pub proof fn law_header_text(map: Map<Seq<char>, Seq<u8>>, name: Seq<char>, key: Seq<char>)
    requires
        key.len() == name.len(),
        forall|i: int| 0 <= i < name.len() ==> #[trigger] key[i] == text::lower_char(name[i]),
    ensures
        headers::header_text(map, name) is Some <==> map.contains_key(key) && forall|i: int|
            0 <= i < map[key].len() ==> ((#[trigger] map[key][i]) == 9 || 32 <= map[key][i] <= 126),
        headers::header_text(map, name) matches Some(t) ==> t.len() == map[key].len() && forall|
            i: int,
        |
            0 <= i < t.len() ==> #[trigger] t[i] == map[key][i] as char,
{
    assert(text::ascii_lower(name) =~= key);
    let bytes = map[key];
    if map.contains_key(key) && headers::header_text(map, name) is Some {
        assert forall|i: int| 0 <= i < bytes.len() implies ((#[trigger] bytes[i]) == 9 || 32
            <= bytes[i] <= 126) by {
            assert(headers::is_visible(bytes[i]));
        }
    }
    if map.contains_key(key) && forall|i: int|
        0 <= i < bytes.len() ==> ((#[trigger] bytes[i]) == 9 || 32 <= bytes[i] <= 126) {
        assert forall|i: int| 0 <= i < bytes.len() implies headers::is_visible(
            #[trigger] bytes[i],
        ) by {}
    }
}

/// Two header sets with the same text under every name amount to the same.
pub proof fn law_only_the_texts_matter(
    a: Map<Seq<char>, Seq<u8>>,
    b: Map<Seq<char>, Seq<u8>>,
    cfg: HeadersConfigView,
)
    requires
        forall|name: Seq<char>| #[trigger]
            headers::header_text(a, name) == headers::header_text(b, name),
    ensures
        headers::evaluated(a, cfg) == headers::evaluated(b, cfg),
        headers::suggested(a, cfg) == headers::suggested(b, cfg),
{
    lemma_missing_by_texts(a, b, cfg.require);
}

proof fn lemma_missing_by_texts(
    a: Map<Seq<char>, Seq<u8>>,
    b: Map<Seq<char>, Seq<u8>>,
    require: Seq<Seq<char>>,
)
    requires
        forall|name: Seq<char>| #[trigger]
            headers::header_text(a, name) == headers::header_text(b, name),
    ensures
        headers::missing_details(a, require) == headers::missing_details(b, require),
        headers::present(a, require) == headers::present(b, require),
    decreases require.len(),
{
    if require.len() > 0 {
        lemma_missing_by_texts(a, b, require.drop_last());
        let name = text::lowercase(require.last());
        assert(headers::header_text(a, name) == headers::header_text(b, name));
    }
}

/// Whether a value, without white space around it and in lower case, is this
/// word.
pub open spec fn reads(value: Seq<char>, word: Seq<char>) -> bool {
    text::lowercase(text::trimmed(value)) == word
}

// ---------------------------------------------------------------------
// Required headers
// ---------------------------------------------------------------------

/// Whether some required header has no text.
pub open spec fn some_missing(map: Map<Seq<char>, Seq<u8>>, require: Seq<Seq<char>>) -> bool {
    exists|i: int|
        0 <= i < require.len() && headers::header_text(
            map,
            text::lowercase(#[trigger] require[i]),
        ) is None
}

/// Required headers are looked at one by one: each that has no text is reported
/// by its name in lower case, and each other one is counted.
pub proof fn law_required_headers(
    map: Map<Seq<char>, Seq<u8>>,
    a: Seq<Seq<char>>,
    b: Seq<Seq<char>>,
    name: Seq<char>,
)
    ensures
        headers::missing_details(map, a + b) == headers::missing_details(map, a)
            + headers::missing_details(map, b),
        headers::present(map, a + b) == headers::present(map, a) + headers::present(map, b),
        headers::header_text(map, text::lowercase(name)) is None ==> headers::missing_details(
            map,
            seq![name],
        ) == seq!["missing required header: "@ + text::lowercase(name)] && headers::present(
            map,
            seq![name],
        ) == 0,
        headers::header_text(map, text::lowercase(name)) is Some ==> headers::missing_details(
            map,
            seq![name],
        ).len() == 0 && headers::present(map, seq![name]) == 1,
    decreases b.len(),
{
    let none = Seq::<Seq<char>>::empty();
    assert(seq![name].drop_last() =~= none);
    assert(headers::missing_details(map, none) =~= none);
    assert(headers::present(map, none) == 0);
    let detail = "missing required header: "@ + text::lowercase(name);
    assert(none.push(detail) =~= seq![detail]);
    if b.len() == 0 {
        assert(a + b =~= a);
        assert(headers::missing_details(map, a) + headers::missing_details(map, b)
            =~= headers::missing_details(map, a));
    } else {
        law_required_headers(map, a, b.drop_last(), name);
        assert((a + b).drop_last() =~= a + b.drop_last());
        assert((a + b).last() == b.last());
        assert(headers::missing_details(map, a + b) =~= headers::missing_details(map, a)
            + headers::missing_details(map, b));
    }
}

/// There is a detail on a missing header exactly where one is missing.
proof fn lemma_some_missing(map: Map<Seq<char>, Seq<u8>>, require: Seq<Seq<char>>)
    ensures
        headers::missing_details(map, require).len() > 0 <==> some_missing(map, require),
    decreases require.len(),
{
    if require.len() > 0 {
        let rest = require.drop_last();
        lemma_some_missing(map, rest);
        if some_missing(map, rest) {
            let i = choose|i: int|
                0 <= i < rest.len() && headers::header_text(
                    map,
                    text::lowercase(#[trigger] rest[i]),
                ) is None;
            assert(require[i] == rest[i]);
        }
        if headers::header_text(map, text::lowercase(require.last())) is None {
            assert(require[require.len() - 1] == require.last());
        }
        if some_missing(map, require) {
            let i = choose|i: int|
                0 <= i < require.len() && headers::header_text(
                    map,
                    text::lowercase(#[trigger] require[i]),
                ) is None;
            if i < rest.len() {
                assert(rest[i] == require[i]);
            }
        }
    }
}

// ---------------------------------------------------------------------
// The status and the details
// ---------------------------------------------------------------------

/// Whether clickjacking protection is in place: X-Frame-Options reads `deny` or
/// `sameorigin`, or the Content-Security-Policy has the directive.
pub open spec fn frames_are_restricted(map: Map<Seq<char>, Seq<u8>>) -> bool {
    ||| headers::header_text(map, "x-frame-options"@) matches Some(v) && (reads(v, "deny"@)
        || reads(v, "sameorigin"@))
    ||| headers::header_text(map, "content-security-policy"@) matches Some(v)
        && headers::has_directive(v, "frame-ancestors"@)
}

/// When the check fails, warns and passes.
pub proof fn law_status_iff(map: Map<Seq<char>, Seq<u8>>, cfg: HeadersConfigView)
    ensures
        ({
            let status = headers::evaluated(map, cfg).status;
            let hsts = headers::header_text(map, "strict-transport-security"@);
            let sniffing = headers::header_text(map, "x-content-type-options"@);
            let referrer = headers::header_text(map, "referrer-policy"@);
            let fails = some_missing(map, cfg.require) || (hsts is Some && headers::hsts_outcome(
                hsts->0,
                cfg,
            ) is Err) || (sniffing is Some && !reads(sniffing->0, "nosniff"@)) || (
            cfg.require_frame_protection && !frames_are_restricted(map));
            let leaks = referrer is Some && reads(referrer->0, "unsafe-url"@);
            &&& status == Status::Fail <==> fails
            &&& status == Status::Warn <==> !fails && leaks
            &&& status == Status::Pass <==> !fails && !leaks
        }),
{
    lemma_some_missing(map, cfg.require);
}

/// A readable Referrer-Policy warns exactly where it reads `unsafe-url`; any
/// other value passes where nothing fails, and only then is there a word on it.
pub proof fn law_only_unsafe_url_warns(
    map: Map<Seq<char>, Seq<u8>>,
    cfg: HeadersConfigView,
    value: Seq<char>,
)
    requires
        headers::header_text(map, "referrer-policy"@) == Some(value),
        headers::evaluated(map, cfg).status != Status::Fail,
    ensures
        headers::evaluated(map, cfg).status == Status::Warn <==> text::lowercase(
            text::trimmed(value),
        ) == "unsafe-url"@,
        headers::evaluated(map, cfg).status == Status::Pass <==> text::lowercase(
            text::trimmed(value),
        ) != "unsafe-url"@,
{
    law_status_iff(map, cfg);
}

/// What the details say, in order: the headers that are missing, the outcome on
/// Strict-Transport-Security, and what is wrong with X-Content-Type-Options,
/// Referrer-Policy and clickjacking protection.
pub proof fn law_details_in_order(map: Map<Seq<char>, Seq<u8>>, cfg: HeadersConfigView)
    ensures
        ({
            let r = headers::evaluated(map, cfg);
            let hsts = headers::header_text(map, "strict-transport-security"@);
            let sniffing = headers::header_text(map, "x-content-type-options"@);
            let referrer = headers::header_text(map, "referrer-policy"@);
            let none = Seq::<Seq<char>>::empty();
            &&& r.check == "headers"@
            &&& r.summary == text::decimal(headers::present(map, cfg.require)) + "/"@
                + text::decimal(cfg.require.len()) + " required headers present"@
            &&& r.details == headers::missing_details(map, cfg.require) + (if hsts is Some {
                match headers::hsts_outcome(hsts->0, cfg) {
                    Ok(note) => seq![note],
                    Err(why) => seq![why],
                }
            } else {
                none
            }) + (if sniffing is Some && !reads(sniffing->0, "nosniff"@) {
                seq![
                    "x-content-type-options has non-standard value '"@ + sniffing->0
                        + "' (expected 'nosniff')"@,
                ]
            } else {
                none
            }) + (if referrer is Some && reads(referrer->0, "unsafe-url"@) {
                seq!["referrer-policy is 'unsafe-url', which leaks the full referrer cross-origin"@]
            } else {
                none
            }) + (if cfg.require_frame_protection && !frames_are_restricted(map) {
                seq![
                    "no clickjacking protection: missing X-Frame-Options (DENY/SAMEORIGIN) and no CSP frame-ancestors directive"@,
                ]
            } else {
                none
            })
        }),
{
}

/// What fetching a page amounts to.
pub proof fn law_fetch_outcomes(url: Seq<char>, cfg: HeadersConfigView, fetch: HeaderFetch)
    ensures
        ({
            let r = headers::checked(url, cfg, fetch);
            match fetch {
                HeaderFetch::NoClient(why) => r.check == "headers"@ && r.status == Status::Skip
                    && r.summary == "could not build HTTP client: "@ + why@ && r.details.len() == 0,
                HeaderFetch::Unreachable(why) => r.check == "headers"@ && r.status == Status::Skip
                    && r.summary == "could not fetch "@ + url + ": "@ + why@ && r.details.len()
                    == 0,
                HeaderFetch::Response(h) => r == headers::evaluated(
                    headers::header_contents(h),
                    cfg,
                ),
            }
        }),
        headers::front_page(url) == "https://"@ + url + "/"@,
{
}

// ---------------------------------------------------------------------
// Strict-Transport-Security
// ---------------------------------------------------------------------

/// A header without directives says nothing, and each further directive after a
/// semicolon says what it says: the last `max-age=` counts, and the two others,
/// once there, stay.
pub proof fn law_hsts_directives(a: Seq<char>, d: Seq<char>)
    requires
        !d.contains(';'),
    ensures
        ({
            let before = headers::hsts_of(a);
            let after = headers::hsts_of(a + seq![';'] + d);
            let alone = headers::hsts_of(d);
            let part = text::trimmed(d);
            let ages = "max-age="@.is_prefix_of(part);
            let age = text::i64_of(text::trimmed(part.skip(8)));
            let subdomains = text::same_ignoring_case(part, "includeSubDomains"@);
            let preloads = text::same_ignoring_case(part, "preload"@);
            &&& after.max_age == if ages {
                age
            } else {
                before.max_age
            }
            &&& after.include_subdomains == (before.include_subdomains || subdomains)
            &&& after.preload == (before.preload || preloads)
            &&& alone.max_age == if ages {
                age
            } else {
                None
            }
            &&& alone.include_subdomains == subdomains
            &&& alone.preload == preloads
        }),
{
    let part = text::trimmed(d);
    assert(a + seq![';'] + d =~= a.push(';') + d);
    text::lemma_pieces_join(a, d, ';');
    text::lemma_pieces_of_one(d, ';');
    let parts = text::pieces(a, ';');
    assert(parts + seq![d] =~= parts.push(d));
    assert(parts.push(d).drop_last() =~= parts);
    assert(seq![d].drop_last() =~= Seq::<Seq<char>>::empty());
    reveal_with_fuel(headers::hsts_of_parts, 2);
    reveal_strlit("max-age=");
    reveal_strlit("includeSubDomains");
    reveal_strlit("preload");
    let p = "max-age="@;
    if p.is_prefix_of(part) {
        assert(part[0] == 'm') by {
            assert(part.subrange(0, p.len() as int)[0] == p[0]);
        }
        text_laws::law_same_ignoring_case_iff(part, "includeSubDomains"@);
        text_laws::law_same_ignoring_case_iff(part, "preload"@);
        if text::same_ignoring_case(part, "includeSubDomains"@) {
            assert("includeSubDomains"@[0] == 'i');
            assert(part[0] as u32 == 109 && 'i' as u32 == 105);
        }
        if text::same_ignoring_case(part, "preload"@) {
            assert("preload"@[0] == 'p');
            assert(part[0] as u32 == 109 && 'p' as u32 == 112);
        }
    }
    if text::same_ignoring_case(part, "includeSubDomains"@) {
        text_laws::law_same_ignoring_case_iff(part, "includeSubDomains"@);
        assert("includeSubDomains"@.len() == 17);
        assert(part.len() == 17);
        text_laws::law_same_ignoring_case_iff(part, "preload"@);
        assert("preload"@.len() == 7);
    }
}

/// What a header's directives amount to against the policy: the first thing that
/// is amiss, in the order of age, subdomains and preload.
pub proof fn law_hsts_outcome(value: Seq<char>, cfg: HeadersConfigView)
    ensures
        ({
            let hsts = headers::hsts_of(value);
            let out = headers::hsts_outcome(value, cfg);
            let young = hsts.max_age matches Some(age) && age < cfg.hsts_min_max_age_seconds;
            let narrow = cfg.hsts_require_include_subdomains && !hsts.include_subdomains;
            let unloaded = cfg.hsts_require_preload && !hsts.preload;
            &&& out is Ok <==> hsts.max_age is Some && !young && !narrow && !unloaded
            &&& hsts.max_age is None ==> out == Err::<Seq<char>, Seq<char>>(
                "strict-transport-security has no parseable max-age"@,
            )
            &&& hsts.max_age is Some && young ==> out == Err::<Seq<char>, Seq<char>>(
                "strict-transport-security max-age="@ + text::decimal_int(hsts.max_age->0 as int)
                    + " is below the required minimum of "@ + text::decimal_int(
                    cfg.hsts_min_max_age_seconds as int,
                ),
            )
            &&& hsts.max_age is Some && !young && narrow ==> out == Err::<Seq<char>, Seq<char>>(
                "strict-transport-security is missing includeSubDomains"@,
            )
            &&& hsts.max_age is Some && !young && !narrow && unloaded ==> out == Err::<
                Seq<char>,
                Seq<char>,
            >("strict-transport-security is missing preload"@)
            &&& out is Ok ==> out->Ok_0 == "hsts ok: max-age="@ + text::decimal_int(
                hsts.max_age->0 as int,
            ) + ", includeSubDomains="@ + (if hsts.include_subdomains {
                "true"@
            } else {
                "false"@
            }) + ", preload="@ + (if hsts.preload {
                "true"@
            } else {
                "false"@
            })
        }),
{
}

// ---------------------------------------------------------------------
// Content-Security-Policy
// ---------------------------------------------------------------------

/// Whether one part of a list holds something for a directive.
proof fn lemma_policy_parts(a: Seq<char>, b: Seq<char>, name: Seq<char>)
    ensures
        headers::policy_sets(a + seq![';'] + b, name) <==> headers::policy_sets(a, name)
            || headers::policy_sets(b, name),
{
    let whole = a + seq![';'] + b;
    text_laws::law_pieces(a, b, ';');
    let pa = text::pieces(a, ';');
    let pb = text::pieces(b, ';');
    let pw = text::pieces(whole, ';');
    if headers::policy_sets(a, name) {
        let i = choose|i: int|
            0 <= i < pa.len() && text::same_ignoring_case(
                text::first_word(text::trimmed(#[trigger] pa[i])),
                name,
            );
        assert(pw[i] == pa[i]);
    }
    if headers::policy_sets(b, name) {
        let i = choose|i: int|
            0 <= i < pb.len() && text::same_ignoring_case(
                text::first_word(text::trimmed(#[trigger] pb[i])),
                name,
            );
        assert(pw[pa.len() + i] == pb[i]);
    }
    if headers::policy_sets(whole, name) {
        let i = choose|i: int|
            0 <= i < pw.len() && text::same_ignoring_case(
                text::first_word(text::trimmed(#[trigger] pw[i])),
                name,
            );
        if i < pa.len() {
            assert(pw[i] == pa[i]);
        } else {
            assert(pw[i] == pb[i - pa.len()]);
        }
    }
}

/// A list of policies has a directive exactly where one side of a comma, or of a
/// semicolon, has it.
pub proof fn law_directives_of_a_list(a: Seq<char>, b: Seq<char>, name: Seq<char>)
    ensures
        headers::has_directive(a + seq![','] + b, name) <==> headers::has_directive(a, name)
            || headers::has_directive(b, name),
        headers::has_directive(a + seq![';'] + b, name) <==> headers::has_directive(a, name)
            || headers::has_directive(b, name),
{
    let pa = text::pieces(a, ',');
    let pb = text::pieces(b, ',');
    text::lemma_pieces_nonempty(a, ',');
    text::lemma_pieces_nonempty(b, ',');
    lemma_has_by_pieces(a, name, pa);
    lemma_has_by_pieces(b, name, pb);
    text_laws::law_pieces(a, b, ',');
    lemma_has_by_pieces(a + seq![','] + b, name, pa + pb);
    lemma_some_sets_append(pa, pb, name);
    // At a semicolon the last policy of one side and the first of the other are
    // one policy.
    let whole = a + seq![';'] + b;
    let ra = pa.drop_last();
    let rb = pb.drop_first();
    let mid = pa.last() + seq![';'] + pb[0];
    lemma_pieces_at_other(a, b, ',', ';');
    lemma_has_by_pieces(whole, name, ra.push(mid) + rb);
    assert(pa =~= ra + seq![pa.last()]);
    assert(pb =~= seq![pb[0]] + rb);
    assert(ra.push(mid) + rb =~= ra + (seq![mid] + rb));
    lemma_some_sets_append(ra, seq![pa.last()], name);
    lemma_some_sets_append(seq![pb[0]], rb, name);
    lemma_some_sets_append(ra, seq![mid] + rb, name);
    lemma_some_sets_append(seq![mid], rb, name);
    lemma_policy_parts(pa.last(), pb[0], name);
    lemma_some_sets_one(pa.last(), name);
    lemma_some_sets_one(pb[0], name);
    lemma_some_sets_one(mid, name);
}

/// Whether one of several policies has a directive.
spec fn some_sets(policies: Seq<Seq<char>>, name: Seq<char>) -> bool {
    exists|i: int| 0 <= i < policies.len() && headers::policy_sets(#[trigger] policies[i], name)
}

proof fn lemma_has_by_pieces(s: Seq<char>, name: Seq<char>, p: Seq<Seq<char>>)
    requires
        text::pieces(s, ',') == p,
    ensures
        headers::has_directive(s, name) <==> some_sets(p, name),
{
}

proof fn lemma_some_sets_one(p: Seq<char>, name: Seq<char>)
    ensures
        some_sets(seq![p], name) <==> headers::policy_sets(p, name),
{
    assert(seq![p][0] == p);
}

proof fn lemma_some_sets_append(a: Seq<Seq<char>>, b: Seq<Seq<char>>, name: Seq<char>)
    ensures
        some_sets(a + b, name) <==> some_sets(a, name) || some_sets(b, name),
{
    if some_sets(a, name) {
        let i = choose|i: int| 0 <= i < a.len() && headers::policy_sets(#[trigger] a[i], name);
        assert((a + b)[i] == a[i]);
    }
    if some_sets(b, name) {
        let i = choose|i: int| 0 <= i < b.len() && headers::policy_sets(#[trigger] b[i], name);
        assert((a + b)[a.len() + i] == b[i]);
    }
    if some_sets(a + b, name) {
        let i = choose|i: int|
            0 <= i < (a + b).len() && headers::policy_sets(#[trigger] (a + b)[i], name);
        if i < a.len() {
            assert((a + b)[i] == a[i]);
        } else {
            assert((a + b)[i] == b[i - a.len()]);
        }
    }
}

/// At a character that is not the separator, the last piece of one side and the
/// first of the other are one piece.
proof fn lemma_pieces_at_other(a: Seq<char>, b: Seq<char>, sep: char, c: char)
    requires
        sep != c,
    ensures
        ({
            let pa = text::pieces(a, sep);
            let pb = text::pieces(b, sep);
            &&& pa.len() > 0
            &&& pb.len() > 0
            &&& text::pieces(a + seq![c] + b, sep) == pa.drop_last().push(
                pa.last() + seq![c] + pb[0],
            ) + pb.drop_first()
        }),
    decreases b.len(),
{
    let pa = text::pieces(a, sep);
    let pb = text::pieces(b, sep);
    text::lemma_pieces_nonempty(a, sep);
    text::lemma_pieces_nonempty(b, sep);
    let whole = a + seq![c] + b;
    let pw = text::pieces(whole, sep);
    if b.len() == 0 {
        assert(whole.drop_last() =~= a);
        assert(whole.last() == c);
        assert(pa.last() + seq![c] + pb[0] =~= pa.last().push(c));
        assert(pb.drop_first() =~= Seq::<Seq<char>>::empty());
        assert(pw =~= pa.drop_last().push(pa.last() + seq![c] + pb[0]) + pb.drop_first());
    } else {
        let rest = b.drop_last();
        let pr = text::pieces(rest, sep);
        lemma_pieces_at_other(a, rest, sep, c);
        assert(whole.drop_last() =~= a + seq![c] + rest);
        assert(whole.last() == b.last());
        let before = pa.drop_last().push(pa.last() + seq![c] + pr[0]) + pr.drop_first();
        if b.last() == sep {
            assert(pb == pr.push(Seq::empty()));
            assert(pb.drop_first() =~= pr.drop_first().push(Seq::empty()));
            assert(pw =~= pa.drop_last().push(pa.last() + seq![c] + pb[0]) + pb.drop_first());
        } else {
            assert(pb == pr.drop_last().push(pr.last().push(b.last())));
            if pr.len() == 1 {
                assert(before.last() == pa.last() + seq![c] + pr[0]);
                assert(before.drop_last() =~= pa.drop_last());
                assert((pa.last() + seq![c] + pr[0]).push(b.last()) =~= pa.last() + seq![c]
                    + pb[0]);
                assert(pb.drop_first() =~= Seq::<Seq<char>>::empty());
            } else {
                assert(before.last() == pr.last());
                assert(pb[0] == pr[0]);
                assert(pb.drop_first() =~= pr.drop_first().drop_last().push(
                    pr.last().push(b.last()),
                ));
                assert(before.drop_last() =~= pa.drop_last().push(pa.last() + seq![c] + pr[0])
                    + pr.drop_first().drop_last());
            }
            assert(pw =~= pa.drop_last().push(pa.last() + seq![c] + pb[0]) + pb.drop_first());
        }
    }
}

/// A text without commas and semicolons has a directive exactly where, after
/// white space, it begins with the directive's name as a word of its own.
pub proof fn law_directive_is_the_first_word(p: Seq<char>, name: Seq<char>)
    requires
        !p.contains(','),
        !p.contains(';'),
    ensures
        headers::has_directive(p, name) <==> text::same_ignoring_case(
            text::first_word(text::trimmed(p)),
            name,
        ),
{
    text::lemma_pieces_of_one(p, ',');
    text::lemma_pieces_of_one(p, ';');
    lemma_has_by_pieces(p, name, seq![p]);
    lemma_some_sets_one(p, name);
    assert(text::pieces(p, ';')[0] == p);
}

// ---------------------------------------------------------------------
// Fixes
// ---------------------------------------------------------------------

/// Whether a header is required under this name in lower case.
pub open spec fn is_required(require: Seq<Seq<char>>, name: Seq<char>) -> bool {
    exists|i: int| 0 <= i < require.len() && text::lowercase(#[trigger] require[i]) == name
}

/// What is suggested, and why: for each of the four headers that is required and
/// missing or that has something wrong with it, and for no other, one value that
/// puts it right.
pub proof fn law_suggestions(map: Map<Seq<char>, Seq<u8>>, cfg: HeadersConfigView)
    ensures
        ({
            let none = Seq::<HeaderFixView>::empty();
            let hsts = headers::header_text(map, "strict-transport-security"@);
            let sniffing = headers::header_text(map, "x-content-type-options"@);
            let referrer = headers::header_text(map, "referrer-policy"@);
            let age: int = if cfg.hsts_min_max_age_seconds > 31_536_000 {
                cfg.hsts_min_max_age_seconds as int
            } else {
                31_536_000
            };
            headers::suggested(map, cfg) == (if hsts is None && is_required(
                cfg.require,
                "strict-transport-security"@,
            ) || hsts is Some && headers::hsts_outcome(hsts->0, cfg) is Err {
                seq![
                    HeaderFixView {
                        header: "Strict-Transport-Security"@,
                        value: "max-age="@ + text::decimal_int(age) + (
                        if cfg.hsts_require_include_subdomains {
                            "; includeSubDomains"@
                        } else {
                            ""@
                        }) + (if cfg.hsts_require_preload {
                            "; preload"@
                        } else {
                            ""@
                        }),
                        reason: if hsts is None {
                            "missing required header: "@ + "strict-transport-security"@
                        } else {
                            headers::hsts_outcome(hsts->0, cfg)->Err_0
                        },
                    },
                ]
            } else {
                none
            }) + (if sniffing is None && is_required(cfg.require, "x-content-type-options"@)
                || sniffing is Some && !reads(sniffing->0, "nosniff"@) {
                seq![
                    HeaderFixView {
                        header: "X-Content-Type-Options"@,
                        value: "nosniff"@,
                        reason: if sniffing is None {
                            "missing required header: "@ + "x-content-type-options"@
                        } else {
                            "x-content-type-options has non-standard value '"@ + sniffing->0
                                + "' (expected 'nosniff')"@
                        },
                    },
                ]
            } else {
                none
            }) + (if referrer is None && is_required(cfg.require, "referrer-policy"@) || referrer
                is Some && reads(referrer->0, "unsafe-url"@) {
                seq![
                    HeaderFixView {
                        header: "Referrer-Policy"@,
                        value: "no-referrer"@,
                        reason: if referrer is None {
                            "missing required header: "@ + "referrer-policy"@
                        } else {
                            "referrer-policy is 'unsafe-url', which leaks the full referrer cross-origin"@
                        },
                    },
                ]
            } else {
                none
            }) + (if cfg.require_frame_protection && !frames_are_restricted(map) {
                seq![
                    HeaderFixView {
                        header: "X-Frame-Options"@,
                        value: "DENY"@,
                        reason: "no clickjacking protection: missing X-Frame-Options (DENY/SAMEORIGIN) and no CSP frame-ancestors directive"@,
                    },
                ]
            } else {
                none
            })
        }),
{
}

} // verus!
