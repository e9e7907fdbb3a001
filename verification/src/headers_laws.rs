//! What the header check and its fixes promise.

use crate::config::HeadersConfigView;
use crate::headers::{self, HeaderFetch, HeaderFixView, HstsView};
use crate::headers_file;
use crate::headers_file_laws;
use crate::report::Status;
use crate::text;
use vstd::prelude::*;

verus! {

// ---------------------------------------------------------------------
// The check
// ---------------------------------------------------------------------

/// Every required header is either counted as present or reported as missing.
pub proof fn law_present_or_missing(
    map: Map<Seq<char>, Seq<u8>>,
    require: Seq<Seq<char>>,
)
    ensures
        headers::present(map, require) + headers::missing_details(map, require).len()
            == require.len(),
    decreases require.len(),
{
    if require.len() > 0 {
        law_present_or_missing(map, require.drop_last());
    }
}

/// The check is skipped exactly where there was no response to look at.
pub proof fn law_skip_iff_no_response(
    url: Seq<char>,
    cfg: HeadersConfigView,
    fetch: HeaderFetch,
)
    ensures
        headers::checked(url, cfg, fetch).status == Status::Skip <==> !(fetch is Response),
{
}

/// A Strict-Transport-Security header meets the policy exactly where its
/// `max-age` is a number no smaller than the minimum and every directive that
/// is asked for is there.
pub proof fn law_hsts_ok_iff(value: Seq<char>, cfg: HeadersConfigView)
    ensures
        headers::hsts_outcome(value, cfg) is Ok <==> {
            let hsts = headers::hsts_of(value);
            &&& hsts.max_age is Some
            &&& hsts.max_age->0 >= cfg.hsts_min_max_age_seconds
            &&& cfg.hsts_require_include_subdomains ==> hsts.include_subdomains
            &&& cfg.hsts_require_preload ==> hsts.preload
        },
{
}

/// Either X-Frame-Options or a `frame-ancestors` directive is enough: with one
/// of them in place nothing else bears on clickjacking protection.
pub proof fn law_either_frame_header_is_enough(
    map: Map<Seq<char>, Seq<u8>>,
    value: Seq<u8>,
    cfg: HeadersConfigView,
)
    requires
        headers::value_text(value) is Some,
    ensures
        ({
            let shown = headers::normalized(headers::value_text(value)->0);
            shown == "deny"@ || shown == "sameorigin"@
        }) ==> !headers::frame_fails(map.insert("x-frame-options"@, value), cfg),
        headers::has_directive(headers::value_text(value)->0, "frame-ancestors"@)
            ==> !headers::frame_fails(map.insert("content-security-policy"@, value), cfg),
{
    reveal_strlit("x-frame-options");
    reveal_strlit("content-security-policy");
    assert(text::ascii_lower("x-frame-options"@) =~= "x-frame-options"@);
    assert(text::ascii_lower("content-security-policy"@) =~= "content-security-policy"@);
}

/// With neither of them in place, a check that asks for clickjacking protection
/// fails and says so: a `frame-ancestors` that is no directive, in a URL for
/// one, does not count.
pub proof fn law_neither_frame_header_fails(
    map: Map<Seq<char>, Seq<u8>>,
    cfg: HeadersConfigView,
)
    requires
        cfg.require_frame_protection,
        headers::header_text(map, "x-frame-options"@) matches Some(value)
            ==> headers::normalized(value) != "deny"@ && headers::normalized(value)
            != "sameorigin"@,
        headers::header_text(map, "content-security-policy"@) matches Some(value)
            ==> !headers::has_directive(value, "frame-ancestors"@),
    ensures
        headers::frame_fails(map, cfg),
        headers::evaluated(map, cfg).status == Status::Fail,
        headers::evaluated(map, cfg).details.last() == headers::frame_details(map, cfg)[0],
{
}

// ---------------------------------------------------------------------
// Fixes
// ---------------------------------------------------------------------

/// The bytes of a header value.
pub open spec fn value_bytes(value: Seq<char>) -> Seq<u8> {
    Seq::new(value.len(), |i: int| value[i] as u8)
}

/// A header set with every fix in place.
pub open spec fn served(map: Map<Seq<char>, Seq<u8>>, fixes: Seq<HeaderFixView>) -> Map<
    Seq<char>,
    Seq<u8>,
>
    decreases fixes.len(),
{
    if fixes.len() == 0 {
        map
    } else {
        served(map, fixes.drop_last()).insert(
            text::ascii_lower(fixes.last().header),
            value_bytes(fixes.last().value),
        )
    }
}

/// Whether every character can stand in a header value.
pub open spec fn is_value(value: Seq<char>) -> bool {
    forall|i: int| 0 <= i < value.len() ==> '\u{20}' <= #[trigger] value[i] <= '\u{7e}'
}

/// The text of a value is the value that was set.
proof fn lemma_value_text(value: Seq<char>)
    requires
        is_value(value),
    ensures
        headers::value_text(value_bytes(value)) == Some(value),
{
    let bytes = value_bytes(value);
    assert forall|i: int| 0 <= i < bytes.len() implies headers::is_visible(#[trigger] bytes[i]) by {
        assert('\u{20}' <= value[i] <= '\u{7e}');
    }
    assert(Seq::new(bytes.len(), |i: int| bytes[i] as char) =~= value) by {
        assert forall|i: int| 0 <= i < value.len() implies (value[i] as u8) as char == value[i] by {
            assert('\u{20}' <= value[i] <= '\u{7e}');
        }
    }
}

/// A text that is visible at both ends is left alone by trimming.
proof fn lemma_trimmed_visible(s: Seq<char>)
    requires
        s.len() > 0,
        !text::is_space(s[0]),
        !text::is_space(s.last()),
    ensures
        text::trimmed(s) == s,
{
}

/// A directive after a space is read as the directive.
proof fn lemma_trimmed_after_space(s: Seq<char>)
    requires
        s.len() > 0,
        !text::is_space(s[0]),
        !text::is_space(s.last()),
    ensures
        text::trimmed(seq![' '] + s) == s,
{
    let t = seq![' '] + s;
    assert(t.last() == s.last());
    assert(text::trimmed_end(t) == t);
    assert(t.drop_first() =~= s);
    assert(text::trimmed_start(t) == text::trimmed_start(s));
}

/// What the `max-age` directive says.
proof fn lemma_max_age_directive(hsts: HstsView, age: i64)
    requires
        age >= 0,
    ensures
        headers::with_directive(hsts, "max-age="@ + text::decimal_int(age as int)) == (HstsView {
            max_age: Some(age),
            ..hsts
        }),
        !("max-age="@ + text::decimal_int(age as int)).contains(';'),
        is_value("max-age="@ + text::decimal_int(age as int)),
{
    reveal_strlit("max-age=");
    let digits = text::decimal_int(age as int);
    let key = "max-age="@;
    let part = key + digits;
    text::law_decimal_reads_back(age as nat);
    text::law_i64_reads_back(age);
    assert(part[0] == 'm');
    assert('0' <= digits[digits.len() - 1] <= '9');
    assert(part.last() == digits.last());
    lemma_trimmed_visible(part);
    assert(part.subrange(0, key.len() as int) =~= key);
    assert(key.is_prefix_of(part));
    assert(part.skip(key.len() as int) =~= digits);
    assert('0' <= digits[0] <= '9');
    lemma_trimmed_visible(digits);
    assert forall|i: int| 0 <= i < part.len() implies '\u{20}' <= #[trigger] part[i] <= '\u{7e}'
        && part[i] != ';' by {
        if i >= key.len() {
            assert('0' <= digits[i - key.len()] <= '9');
        }
    }
}

/// What the `includeSubDomains` directive says.
proof fn lemma_subdomains_directive(hsts: HstsView)
    ensures
        headers::with_directive(hsts, " includeSubDomains"@) == (HstsView {
            include_subdomains: true,
            ..hsts
        }),
        !" includeSubDomains"@.contains(';'),
        "; includeSubDomains"@ == seq![';'] + " includeSubDomains"@,
        is_value("; includeSubDomains"@),
{
    reveal_strlit(" includeSubDomains");
    reveal_strlit("; includeSubDomains");
    reveal_strlit("includeSubDomains");
    reveal_strlit("max-age=");
    let word = "includeSubDomains"@;
    assert(" includeSubDomains"@ =~= seq![' '] + word);
    assert("; includeSubDomains"@ =~= seq![';'] + " includeSubDomains"@);
    lemma_trimmed_after_space(word);
    assert(word[0] == 'i' && "max-age="@[0] == 'm');
}

/// What the `preload` directive says.
proof fn lemma_preload_directive(hsts: HstsView)
    ensures
        headers::with_directive(hsts, " preload"@) == (HstsView { preload: true, ..hsts }),
        !" preload"@.contains(';'),
        "; preload"@ == seq![';'] + " preload"@,
        is_value("; preload"@),
{
    reveal_strlit(" preload");
    reveal_strlit("; preload");
    reveal_strlit("preload");
    reveal_strlit("max-age=");
    reveal_strlit("includeSubDomains");
    let word = "preload"@;
    assert(" preload"@ =~= seq![' '] + word);
    assert("; preload"@ =~= seq![';'] + " preload"@);
    lemma_trimmed_after_space(word);
    assert(word[0] == 'p' && "max-age="@[0] == 'm');
    assert(text::ascii_lower(word).len() != text::ascii_lower("includeSubDomains"@).len());
}

/// One more directive after a semicolon is one more step of reading.
proof fn lemma_hsts_push(a: Seq<char>, directive: Seq<char>)
    requires
        !directive.contains(';'),
    ensures
        headers::hsts_of(a + (seq![';'] + directive)) == headers::with_directive(
            headers::hsts_of(a),
            directive,
        ),
{
    assert(a + (seq![';'] + directive) =~= a.push(';') + directive);
    text::lemma_pieces_join(a, directive, ';');
    text::lemma_pieces_of_one(directive, ';');
    let parts = text::pieces(a, ';');
    assert(parts + seq![directive] =~= parts.push(directive));
    assert(parts.push(directive).drop_last() =~= parts);
}

/// The proposed Strict-Transport-Security value meets the policy it was made
/// for.
pub proof fn law_proposed_hsts_meets_policy(cfg: HeadersConfigView)
    ensures
        headers::hsts_outcome(headers::proposed_hsts(cfg), cfg) is Ok,
        is_value(headers::proposed_hsts(cfg)),
{
    let age = headers::proposed_max_age(cfg);
    let none = HstsView { max_age: None, include_subdomains: false, preload: false };
    let base = "max-age="@ + text::decimal_int(age as int);
    lemma_max_age_directive(none, age);
    text::lemma_pieces_of_one(base, ';');
    assert(seq![base].drop_last() =~= Seq::<Seq<char>>::empty());
    reveal_with_fuel(headers::hsts_of_parts, 2);
    assert(headers::hsts_of(base) == (HstsView { max_age: Some(age), ..none }));
    reveal_strlit("");
    let subdomains = if cfg.hsts_require_include_subdomains {
        "; includeSubDomains"@
    } else {
        ""@
    };
    let preload = if cfg.hsts_require_preload {
        "; preload"@
    } else {
        ""@
    };
    let second = base + subdomains;
    lemma_subdomains_directive(headers::hsts_of(base));
    if cfg.hsts_require_include_subdomains {
        lemma_hsts_push(base, " includeSubDomains"@);
    } else {
        assert(second =~= base);
    }
    let third = second + preload;
    lemma_preload_directive(headers::hsts_of(second));
    if cfg.hsts_require_preload {
        lemma_hsts_push(second, " preload"@);
    } else {
        assert(third =~= second);
    }
    assert(headers::proposed_hsts(cfg) == third);
    assert forall|i: int| 0 <= i < third.len() implies '\u{20}' <= #[trigger] third[i]
        <= '\u{7e}' by {
        if i < base.len() {
            assert(third[i] == base[i]);
        } else if i < second.len() {
            assert(third[i] == subdomains[i - base.len()]);
        } else {
            assert(third[i] == preload[i - second.len()]);
        }
    }
}

/// The header names of the fixes, in lower case, are the names that the check
/// looks up, and no two of them are the same.
proof fn lemma_names()
    ensures
        text::ascii_lower("Strict-Transport-Security"@) == "strict-transport-security"@,
        text::ascii_lower("X-Content-Type-Options"@) == "x-content-type-options"@,
        text::ascii_lower("Referrer-Policy"@) == "referrer-policy"@,
        text::ascii_lower("X-Frame-Options"@) == "x-frame-options"@,
        text::ascii_lower("strict-transport-security"@) == "strict-transport-security"@,
        text::ascii_lower("x-content-type-options"@) == "x-content-type-options"@,
        text::ascii_lower("referrer-policy"@) == "referrer-policy"@,
        text::ascii_lower("x-frame-options"@) == "x-frame-options"@,
        "strict-transport-security"@.len() == 25,
        "x-content-type-options"@.len() == 22,
        "referrer-policy"@ != "x-frame-options"@,
        "referrer-policy"@.len() == 15,
        "x-frame-options"@.len() == 15,
{
    reveal_strlit("Strict-Transport-Security");
    reveal_strlit("X-Content-Type-Options");
    reveal_strlit("Referrer-Policy");
    reveal_strlit("X-Frame-Options");
    reveal_strlit("strict-transport-security");
    reveal_strlit("x-content-type-options");
    reveal_strlit("referrer-policy");
    reveal_strlit("x-frame-options");
    assert(text::ascii_lower("Strict-Transport-Security"@) =~= "strict-transport-security"@);
    assert(text::ascii_lower("X-Content-Type-Options"@) =~= "x-content-type-options"@);
    assert(text::ascii_lower("Referrer-Policy"@) =~= "referrer-policy"@);
    assert(text::ascii_lower("X-Frame-Options"@) =~= "x-frame-options"@);
    assert(text::ascii_lower("strict-transport-security"@) =~= "strict-transport-security"@);
    assert(text::ascii_lower("x-content-type-options"@) =~= "x-content-type-options"@);
    assert(text::ascii_lower("referrer-policy"@) =~= "referrer-policy"@);
    assert(text::ascii_lower("x-frame-options"@) =~= "x-frame-options"@);
    assert("referrer-policy"@[0] == 'r' && "x-frame-options"@[0] == 'x');
}

/// How the values of the fixes are read.
proof fn lemma_values()
    ensures
        is_value("nosniff"@),
        is_value("no-referrer"@),
        is_value("DENY"@),
        headers::normalized("nosniff"@) == "nosniff"@,
        headers::normalized("no-referrer"@) != "unsafe-url"@,
        headers::normalized("DENY"@) == "deny"@,
{
    reveal_strlit("nosniff");
    reveal_strlit("no-referrer");
    reveal_strlit("DENY");
    reveal_strlit("deny");
    reveal_strlit("unsafe-url");
    lemma_trimmed_visible("nosniff"@);
    lemma_trimmed_visible("no-referrer"@);
    lemma_trimmed_visible("DENY"@);
    assert(text::ascii_lower("nosniff"@) =~= "nosniff"@);
    assert(text::ascii_lower("DENY"@) =~= "deny"@);
    assert(text::ascii_lower("no-referrer"@).len() == 11);
    assert("unsafe-url"@.len() == 10);
}

/// A header set with the fixes of `more` in place after those of `fixes`.
proof fn lemma_served_append(
    map: Map<Seq<char>, Seq<u8>>,
    fixes: Seq<HeaderFixView>,
    more: Seq<HeaderFixView>,
)
    requires
        more.len() <= 1,
    ensures
        served(map, fixes + more) == if more.len() == 0 {
            served(map, fixes)
        } else {
            served(map, fixes).insert(
                text::ascii_lower(more[0].header),
                value_bytes(more[0].value),
            )
        },
{
    if more.len() == 0 {
        assert(fixes + more =~= fixes);
    } else {
        assert((fixes + more).drop_last() =~= fixes);
        assert((fixes + more).last() == more[0]);
    }
}

/// With the suggested fixes in place the findings on those headers are gone:
/// nothing is wrong with any of them, clickjacking protection is there where it
/// is asked for, and none of the three required by default is missing.
pub proof fn law_suggested_fixes_clear_findings(
    map: Map<Seq<char>, Seq<u8>>,
    cfg: HeadersConfigView,
)
    ensures
        ({
            let after = served(map, headers::suggested(map, cfg));
            &&& !headers::hsts_fails(after, cfg)
            &&& !headers::sniffing_fails(after)
            &&& !headers::referrer_warns(after)
            &&& !headers::frame_fails(after, cfg)
            &&& !headers::is_missing(after, cfg.require, "strict-transport-security"@)
            &&& !headers::is_missing(after, cfg.require, "x-content-type-options"@)
            &&& !headers::is_missing(after, cfg.require, "referrer-policy"@)
        }),
{
    let f1 = headers::hsts_fix(map, cfg);
    let f2 = headers::sniffing_fix(map, cfg);
    let f3 = headers::referrer_fix(map, cfg);
    let f4 = headers::frame_fix(map, cfg);
    lemma_names();
    lemma_values();
    law_proposed_hsts_meets_policy(cfg);
    lemma_value_text(headers::proposed_hsts(cfg));
    lemma_value_text("nosniff"@);
    lemma_value_text("no-referrer"@);
    lemma_value_text("DENY"@);
    let none = Seq::<HeaderFixView>::empty();
    assert(none + f1 =~= f1);
    lemma_served_append(map, none, f1);
    lemma_served_append(map, f1, f2);
    lemma_served_append(map, f1 + f2, f3);
    lemma_served_append(map, f1 + f2 + f3, f4);
    let after = served(map, headers::suggested(map, cfg));
    let csp = "content-security-policy"@;
    assert(text::ascii_lower(csp).len() == 23) by {
        reveal_strlit("content-security-policy");
    }
    if f1.len() == 0 {
        assert(headers::header_text(after, "strict-transport-security"@) == headers::header_text(
            map,
            "strict-transport-security"@,
        ));
    }
    if f2.len() == 0 {
        assert(headers::header_text(after, "x-content-type-options"@) == headers::header_text(
            map,
            "x-content-type-options"@,
        ));
    }
    if f3.len() == 0 {
        assert(headers::header_text(after, "referrer-policy"@) == headers::header_text(
            map,
            "referrer-policy"@,
        ));
    }
    if f4.len() == 0 {
        assert(headers::header_text(after, "x-frame-options"@) == headers::header_text(
            map,
            "x-frame-options"@,
        ));
    }
    assert(headers::header_text(after, csp) == headers::header_text(map, csp));
}

/// Nothing is suggested exactly where none of those findings was made.
pub proof fn law_no_suggestion_iff_no_finding(
    map: Map<Seq<char>, Seq<u8>>,
    cfg: HeadersConfigView,
)
    ensures
        headers::suggested(map, cfg).len() == 0 <==> {
            &&& !headers::hsts_fails(map, cfg)
            &&& !headers::sniffing_fails(map)
            &&& !headers::referrer_warns(map)
            &&& !headers::frame_fails(map, cfg)
            &&& !headers::is_missing(map, cfg.require, "strict-transport-security"@)
            &&& !headers::is_missing(map, cfg.require, "x-content-type-options"@)
            &&& !headers::is_missing(map, cfg.require, "referrer-policy"@)
        },
{
}

/// A header name and a value that can be served can be written to a
/// `_headers` file.
proof fn lemma_plain(fix: HeaderFixView)
    requires
        is_value(fix.value),
        fix.header.len() > 0,
        forall|i: int|
            0 <= i < fix.header.len() ==> '\u{21}' <= #[trigger] fix.header[i] <= '\u{7e}'
                && fix.header[i] != ':',
    ensures
        headers_file_laws::plain(fix),
{
    assert('\u{21}' <= fix.header[0] <= '\u{7e}');
    assert('\u{21}' <= fix.header[fix.header.len() - 1] <= '\u{7e}');
    lemma_trimmed_visible(fix.header);
}

/// Every suggested fix can be written to a `_headers` file.
pub proof fn law_suggested_fixes_are_plain(
    map: Map<Seq<char>, Seq<u8>>,
    cfg: HeadersConfigView,
)
    ensures
        headers_file_laws::all_plain(headers::suggested(map, cfg)),
{
    reveal_strlit("Strict-Transport-Security");
    reveal_strlit("X-Content-Type-Options");
    reveal_strlit("Referrer-Policy");
    reveal_strlit("X-Frame-Options");
    lemma_values();
    law_proposed_hsts_meets_policy(cfg);
    let fixes = headers::suggested(map, cfg);
    assert forall|i: int| 0 <= i < fixes.len() implies headers_file_laws::plain(
        #[trigger] fixes[i],
    ) by {
        let f = fixes[i];
        assert(f.header == "Strict-Transport-Security"@ || f.header == "X-Content-Type-Options"@
            || f.header == "Referrer-Policy"@ || f.header == "X-Frame-Options"@);
        assert(f.value == headers::proposed_hsts(cfg) || f.value == "nosniff"@ || f.value
            == "no-referrer"@ || f.value == "DENY"@);
        lemma_plain(f);
    }
}

/// Suggested fixes that are in a `_headers` file already change nothing there.
pub proof fn law_suggested_fixes_settle(
    map: Map<Seq<char>, Seq<u8>>,
    cfg: HeadersConfigView,
    existing: Seq<char>,
)
    ensures
        ({
            let fixes = headers::suggested(map, cfg);
            let once = headers_file::fixed_contents(existing, fixes);
            headers_file::fixed_contents(once, fixes) == once
        }),
{
    law_suggested_fixes_are_plain(map, cfg);
    headers_file_laws::law_fixes_settle(existing, headers::suggested(map, cfg));
}

} // verus!
