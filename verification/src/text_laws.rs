//! What operations on text amount to, in terms of the characters alone.

use crate::text;
use vstd::prelude::*;

verus! {

// ---------------------------------------------------------------------
// Characters
// ---------------------------------------------------------------------

/// White space is what Unicode calls so: five control characters, the space,
/// the next-line and no-break spaces, and the wide spaces.
pub proof fn law_white_space(c: char)
    ensures
        text::is_space(c) <==> {
            let n = c as u32;
            9 <= n <= 13 || n == 32 || n == 133 || n == 160 || n == 5760 || 8192 <= n <= 8202 || n
                == 8232 || n == 8233 || n == 8239 || n == 8287 || n == 12288
        },
{
}

/// Lower case moves a letter between `A` and `Z` by 32, and no other character.
pub proof fn law_lower_case_of_a_character(c: char)
    ensures
        65 <= c as u32 <= 90 ==> text::lower_char(c) as u32 == c as u32 + 32,
        !(65 <= c as u32 <= 90) ==> text::lower_char(c) == c,
{
}

/// ASCII lower case keeps the length of a text and goes character by character.
pub proof fn law_ascii_lower(s: Seq<char>)
    ensures
        text::ascii_lower(s).len() == s.len(),
        forall|i: int|
            0 <= i < s.len() ==> #[trigger] text::ascii_lower(s)[i] == text::lower_char(s[i]),
{
}

/// Lower case of an ASCII text is that of each of its characters.
pub proof fn law_lower_case_of_ascii(s: Seq<char>)
    requires
        forall|i: int| 0 <= i < s.len() ==> '\0' <= #[trigger] s[i] <= '\u{7f}',
    ensures
        text::lowercase(s).len() == s.len(),
        forall|i: int|
            0 <= i < s.len() ==> #[trigger] text::lowercase(s)[i] == text::lower_char(s[i]),
{
    assert(vstd::utf8::is_ascii_chars(s));
}

/// Texts are the same ignoring case exactly where they have the same length
/// and, at each place, the same character or the same letter in either case.
pub proof fn law_same_ignoring_case_iff(a: Seq<char>, b: Seq<char>)
    ensures
        text::same_ignoring_case(a, b) <==> a.len() == b.len() && forall|i: int|
            0 <= i < a.len() ==> {
                let (x, y) = ((#[trigger] a[i]) as u32, b[i] as u32);
                x == y || (65 <= x <= 90 && y == x + 32) || (65 <= y <= 90 && x == y + 32)
            },
{
    let la = text::ascii_lower(a);
    let lb = text::ascii_lower(b);
    if text::same_ignoring_case(a, b) {
        assert(la.len() == a.len() && lb.len() == b.len());
        assert forall|i: int| 0 <= i < a.len() implies {
            let (x, y) = ((#[trigger] a[i]) as u32, b[i] as u32);
            x == y || (65 <= x <= 90 && y == x + 32) || (65 <= y <= 90 && x == y + 32)
        } by {
            assert(la[i] == lb[i]);
            law_lower_case_of_a_character(a[i]);
            law_lower_case_of_a_character(b[i]);
        }
    }
    if a.len() == b.len() && forall|i: int|
        0 <= i < a.len() ==> {
            let (x, y) = ((#[trigger] a[i]) as u32, b[i] as u32);
            x == y || (65 <= x <= 90 && y == x + 32) || (65 <= y <= 90 && x == y + 32)
        } {
        assert forall|i: int| 0 <= i < a.len() implies la[i] == lb[i] by {
            let (x, y) = (a[i] as u32, b[i] as u32);
            assert(x == y || (65 <= x <= 90 && y == x + 32) || (65 <= y <= 90 && x == y + 32));
            law_lower_case_of_a_character(a[i]);
            law_lower_case_of_a_character(b[i]);
            assert(la[i] as u32 == lb[i] as u32);
        }
        assert(la =~= lb);
    }
}

// ---------------------------------------------------------------------
// Trimming
// ---------------------------------------------------------------------

/// Whether a text has nothing but white space.
pub open spec fn all_space(s: Seq<char>) -> bool {
    forall|i: int| 0 <= i < s.len() ==> text::is_space(#[trigger] s[i])
}

/// A text is what is left of it after trimming its end, and white space; what is
/// left does not end in white space.
pub proof fn law_trimmed_end(s: Seq<char>)
    ensures
        ({
            let t = text::trimmed_end(s);
            &&& t.len() <= s.len()
            &&& s == t + s.skip(t.len() as int)
            &&& all_space(s.skip(t.len() as int))
            &&& t.len() > 0 ==> !text::is_space(t[t.len() - 1])
        }),
    decreases s.len(),
{
    let t = text::trimmed_end(s);
    if s.len() > 0 && text::is_space(s.last()) {
        let r = s.drop_last();
        law_trimmed_end(r);
        let n = t.len() as int;
        assert forall|i: int| 0 <= i < s.skip(n).len() implies text::is_space(
            #[trigger] s.skip(n)[i],
        ) by {
            if n + i < r.len() {
                assert(r.skip(n)[i] == s[n + i]);
            }
        }
        assert(s =~= t + s.skip(n)) by {
            assert(r == t + r.skip(n));
            assert forall|i: int| 0 <= i < n implies s[i] == t[i] by {
                assert(r[i] == (t + r.skip(n))[i]);
            }
        }
    } else {
        assert(s =~= t + s.skip(t.len() as int));
    }
}

/// What is left of a text after trimming its start.
proof fn lemma_trimmed_start(s: Seq<char>)
    ensures
        ({
            let t = text::trimmed_start(s);
            let k = s.len() - t.len();
            &&& t.len() <= s.len()
            &&& t == s.skip(k)
            &&& all_space(s.take(k))
            &&& t.len() > 0 ==> !text::is_space(t[0])
        }),
    decreases s.len(),
{
    let t = text::trimmed_start(s);
    if s.len() > 0 && text::is_space(s[0]) {
        let r = s.drop_first();
        lemma_trimmed_start(r);
        let k = s.len() - t.len();
        assert(t =~= s.skip(k));
        assert forall|i: int| 0 <= i < k implies text::is_space(#[trigger] s.take(k)[i]) by {
            if i > 0 {
                assert(r.take(k - 1)[i - 1] == s[i]);
            }
        }
    } else {
        assert(t =~= s.skip(0));
    }
}

/// A text is white space, what is left of it after trimming, and white space;
/// what is left neither begins nor ends with white space.
pub proof fn law_trimmed(s: Seq<char>)
    ensures
        ({
            let t = text::trimmed(s);
            &&& t.len() > 0 ==> !text::is_space(t[0]) && !text::is_space(t[t.len() - 1])
            &&& exists|a: Seq<char>, b: Seq<char>|
                #![trigger all_space(a), all_space(b)]
                all_space(a) && all_space(b) && s == a + t + b
        }),
{
    let e = text::trimmed_end(s);
    let t = text::trimmed(s);
    law_trimmed_end(s);
    lemma_trimmed_start(e);
    let k = e.len() - t.len();
    let a = e.take(k);
    let b = s.skip(e.len() as int);
    assert(e =~= a + t);
    assert(s =~= a + t + b);
    assert(all_space(a) && all_space(b));
    if t.len() > 0 {
        assert(t[t.len() - 1] == e[e.len() - 1]);
    }
}

/// What stands between white space is what is left after trimming, and nothing
/// else is.
pub proof fn law_trimmed_is_what_is_between(a: Seq<char>, t: Seq<char>, b: Seq<char>)
    requires
        all_space(a),
        all_space(b),
        t.len() > 0 ==> !text::is_space(t[0]) && !text::is_space(t[t.len() - 1]),
    ensures
        text::trimmed(a + t + b) == t,
{
    let s = a + t + b;
    let e = text::trimmed_end(s);
    let r = text::trimmed(s);
    law_trimmed_end(s);
    lemma_trimmed_start(e);
    let k = e.len() - r.len();
    if t.len() > 0 {
        let last = a.len() + t.len() - 1;
        assert(s[last] == t[t.len() - 1]);
        assert(e.len() >= a.len() + t.len()) by {
            if e.len() <= last {
                assert(s.skip(e.len() as int)[last - e.len()] == s[last]);
            }
        }
        assert(e.len() == a.len() + t.len()) by {
            if e.len() > a.len() + t.len() {
                let j = e.len() - 1;
                assert(s[j] == e[j]);
                assert(s[j] == b[j - a.len() - t.len()]);
            }
        }
        assert(e =~= a + t) by {
            assert forall|i: int| 0 <= i < e.len() implies e[i] == (a + t)[i] by {
                assert(s[i] == (e + s.skip(e.len() as int))[i]);
            }
        }
        assert(k == a.len()) by {
            if k < a.len() {
                assert(r[0] == e[k]);
                assert(e[k] == a[k]);
            }
            if k > a.len() {
                assert(e.take(k)[a.len() as int] == t[0]);
            }
        }
        assert(r =~= t);
    } else {
        assert(e.len() == 0) by {
            if e.len() > 0 {
                let j = e.len() - 1;
                assert(s[j] == e[j]);
                if j < a.len() {
                    assert(s[j] == a[j]);
                } else {
                    assert(s[j] == b[j - a.len()]);
                }
            }
        }
        assert(r =~= t);
    }
}

/// A text is what is left of it without a character at its end, and that
/// character some number of times; what is left does not end in it.
pub proof fn law_without_trailing(s: Seq<char>, c: char)
    ensures
        ({
            let t = text::without_trailing(s, c);
            &&& t.len() <= s.len()
            &&& s.take(t.len() as int) == t
            &&& forall|i: int| t.len() <= i < s.len() ==> s[i] == c
            &&& t.len() > 0 ==> t[t.len() - 1] != c
        }),
    decreases s.len(),
{
    let t = text::without_trailing(s, c);
    if s.len() > 0 && s.last() == c {
        law_without_trailing(s.drop_last(), c);
        assert(s.take(t.len() as int) =~= s.drop_last().take(t.len() as int));
        assert forall|i: int| t.len() <= i < s.len() implies s[i] == c by {
            if i < s.len() - 1 {
                assert(s.drop_last()[i] == s[i]);
            }
        }
    } else {
        assert(s.take(t.len() as int) =~= s);
    }
}

// ---------------------------------------------------------------------
// Splitting, joining and searching
// ---------------------------------------------------------------------

/// A text without the separator is one piece; at a separator the pieces of both
/// sides follow each other.
pub proof fn law_pieces(a: Seq<char>, b: Seq<char>, sep: char)
    ensures
        !a.contains(sep) ==> text::pieces(a, sep) == seq![a],
        text::pieces(a + seq![sep] + b, sep) == text::pieces(a, sep) + text::pieces(b, sep),
{
    if !a.contains(sep) {
        text::lemma_pieces_of_one(a, sep);
    }
    text::lemma_pieces_join(a, b, sep);
    assert(a + seq![sep] + b =~= a.push(sep) + b);
}

/// One text joined is that text; of two lists of texts joined, the first comes
/// before a separator and the second after it.
pub proof fn law_joined(a: Seq<Seq<char>>, b: Seq<Seq<char>>, sep: char)
    ensures
        a.len() == 1 ==> text::joined(a, sep) == a[0],
        a.len() > 0 && b.len() > 0 ==> text::joined(a + b, sep) == text::joined(a, sep) + seq![sep]
            + text::joined(b, sep),
{
    if a.len() == 1 {
        assert(a.drop_first() =~= Seq::<Seq<char>>::empty());
        assert(text::joined(a, sep) =~= a[0]);
    }
    if a.len() > 0 && b.len() > 0 {
        text::lemma_joined_append(a, b, sep);
        let one = seq![b[0]];
        assert(b =~= one + b.drop_first());
        text::lemma_below_append(one, b.drop_first(), sep);
        assert(one.drop_last() =~= Seq::<Seq<char>>::empty());
        assert(text::below(one.drop_last(), sep) =~= Seq::<char>::empty());
        assert(one.last() == b[0]);
        assert(text::below(one, sep) =~= seq![sep] + b[0]);
        assert(text::joined(a + b, sep) =~= text::joined(a, sep) + seq![sep] + text::joined(
            b,
            sep,
        ));
    }
}

/// What stands before the first of a character: it does not hold that
/// character, and the text goes on with it or ends.
pub proof fn law_up_to(s: Seq<char>, c: char)
    ensures
        ({
            let t = text::up_to(s, c);
            &&& t.len() <= s.len()
            &&& s.take(t.len() as int) == t
            &&& forall|i: int| 0 <= i < t.len() ==> t[i] != c
            &&& t.len() < s.len() ==> s[t.len() as int] == c
        }),
{
    text::lemma_prefix_len(s, c);
    assert(s.take(text::up_to(s, c).len() as int) =~= text::up_to(s, c));
}

/// The first word: no white space in it, and the text goes on with white space
/// or ends.
pub proof fn law_first_word(s: Seq<char>)
    ensures
        ({
            let t = text::first_word(s);
            &&& t.len() <= s.len()
            &&& s.take(t.len() as int) == t
            &&& forall|i: int| 0 <= i < t.len() ==> !text::is_space(#[trigger] t[i])
            &&& t.len() < s.len() ==> text::is_space(s[t.len() as int])
        }),
    decreases s.len(),
{
    let t = text::first_word(s);
    if s.len() > 0 && !text::is_space(s[0]) {
        let r = s.drop_first();
        law_first_word(r);
        let u = text::first_word(r);
        assert(t =~= seq![s[0]] + u);
        assert(s.take(t.len() as int) =~= t) by {
            assert forall|i: int| 0 < i < t.len() implies s[i] == t[i] by {
                assert(r.take(u.len() as int)[i - 1] == u[i - 1]);
            }
        }
        assert forall|i: int| 0 <= i < t.len() implies !text::is_space(#[trigger] t[i]) by {
            if i > 0 {
                assert(t[i] == u[i - 1]);
            }
        }
        if t.len() < s.len() {
            assert(r[u.len() as int] == s[t.len() as int]);
        }
    } else {
        assert(s.take(0) =~= t);
    }
}

/// A text occurs in another exactly where the other is made of something, the
/// text, and something.
pub proof fn law_contains_text_iff(s: Seq<char>, pat: Seq<char>)
    ensures
        text::contains_text(s, pat) <==> exists|a: Seq<char>, b: Seq<char>|
            s == #[trigger] (a + pat + b),
{
    if text::contains_text(s, pat) {
        let i = choose|i: int| text::stands_at(s, pat, i);
        let a = s.take(i);
        let b = s.skip(i + pat.len());
        assert(s.subrange(i, i + pat.len()) =~= pat);
        assert forall|k: int| 0 <= k < pat.len() implies s[i + k] == pat[k] by {
            assert(s.subrange(i, i + pat.len())[k] == pat[k]);
        }
        assert(s =~= a + pat + b);
    }
    if exists|a: Seq<char>, b: Seq<char>| s == #[trigger] (a + pat + b) {
        let (a, b) = choose|a: Seq<char>, b: Seq<char>| s == #[trigger] (a + pat + b);
        let i = a.len() as int;
        assert(s.subrange(i, i + pat.len()) =~= pat);
        assert(text::stands_at(s, pat, i));
    }
}

// ---------------------------------------------------------------------
// Numbers
// ---------------------------------------------------------------------

/// What a row of digits stands for: one more digit counts once, and the digits
/// before it ten times.
pub proof fn law_digits_value(s: Seq<char>, c: char)
    requires
        '0' <= c <= '9',
    ensures
        text::digits_value(Seq::empty()) == 0,
        text::digits_value(s.push(c)) == 10 * text::digits_value(s) + (c as int - 48),
{
    assert(s.push(c).drop_last() =~= s);
}

/// Decimal notation is the shortest row of digits for a number: it has no zero
/// in front, but for zero itself.
pub proof fn law_decimal_is_shortest(n: nat)
    ensures
        forall|i: int|
            0 <= i < text::decimal(n).len() ==> '0' <= #[trigger] text::decimal(n)[i] <= '9',
        text::decimal(n).len() > 0,
        n > 0 ==> text::decimal(n)[0] != '0',
        n < 10 ==> text::decimal(n).len() == 1,
        text::digits_value(text::decimal(n)) == n,
    decreases n,
{
    text::law_decimal_reads_back(n);
    if n >= 10 {
        law_decimal_is_shortest(n / 10);
        assert(text::decimal(n)[0] == text::decimal(n / 10)[0]);
    }
}

/// A negative number is a minus sign and the number without its sign; any other
/// is in decimal notation.
pub proof fn law_decimal_int(n: int)
    ensures
        n >= 0 ==> text::decimal_int(n) == text::decimal(n as nat),
        n < 0 ==> text::decimal_int(n) == seq!['-'] + text::decimal((-n) as nat),
{
}

/// Whether every character is a decimal digit.
pub open spec fn digits_only(s: Seq<char>) -> bool {
    forall|i: int| 0 <= i < s.len() ==> '0' <= #[trigger] s[i] <= '9'
}

/// What digits, alone or after a sign, stand for, where it lies in the range of
/// 64 bits.
pub proof fn law_integers_are_read(d: Seq<char>)
    requires
        d.len() > 0,
        digits_only(d),
    ensures
        ({
            let v = text::digits_value(d);
            &&& text::i64_of(d) == if v <= 9_223_372_036_854_775_807 {
                Some(v as i64)
            } else {
                None
            }
            &&& text::i64_of(seq!['+'] + d) == text::i64_of(d)
            &&& text::i64_of(seq!['-'] + d) == if v <= 9_223_372_036_854_775_808 {
                Some((-v) as i64)
            } else {
                None
            }
        }),
{
    assert(text::all_digits(d));
    assert('0' <= d[0] <= '9');
    assert(d[0] != '-' && d[0] != '+');
    assert((seq!['+'] + d).drop_first() =~= d);
    assert((seq!['-'] + d).drop_first() =~= d);
}

/// Nothing else is a number: no digits, or a character that is neither a digit
/// nor a sign in front.
pub proof fn law_other_texts_are_no_integers(s: Seq<char>, i: int)
    ensures
        s.len() == 0 ==> text::i64_of(s) is None,
        s.len() == 1 && !('0' <= s[0] <= '9') ==> text::i64_of(s) is None,
        0 <= i < s.len() && !('0' <= s[i] <= '9') && (i > 0 || (s[0] != '+' && s[0] != '-'))
            ==> text::i64_of(s) is None,
{
    if 0 <= i < s.len() && !('0' <= s[i] <= '9') {
        if i > 0 {
            assert(s.drop_first()[i - 1] == s[i]);
        }
        if s.len() == 1 {
            assert(s.drop_first().len() == 0);
        }
    }
    if s.len() == 1 {
        assert(s.drop_first().len() == 0);
        if s[0] != '+' && s[0] != '-' && text::all_digits(s) {
            assert('0' <= s[0] <= '9');
        }
    }
}

/// The texts of a list of strings are the strings, in their order.
pub proof fn law_texts(v: Seq<String>)
    ensures
        text::texts(v).len() == v.len(),
        forall|i: int| 0 <= i < v.len() ==> #[trigger] text::texts(v)[i] == v[i]@,
{
}

/// Texts below a heading are a separator and the texts joined.
pub proof fn law_below(lines: Seq<Seq<char>>, sep: char)
    ensures
        lines.len() == 0 ==> text::below(lines, sep).len() == 0,
        lines.len() > 0 ==> text::below(lines, sep) == seq![sep] + text::joined(lines, sep),
{
    if lines.len() > 0 {
        let one = seq![lines[0]];
        let rest = lines.drop_first();
        assert(lines =~= one + rest);
        text::lemma_below_append(one, rest, sep);
        assert(one.drop_last() =~= Seq::<Seq<char>>::empty());
        assert(text::below(one.drop_last(), sep) =~= Seq::<char>::empty());
        assert(one.last() == lines[0]);
        assert(text::below(lines, sep) =~= seq![sep] + text::joined(lines, sep));
    }
}

} // verus!
