//! Text as sequences of characters: trimming, splitting, searching,
//! ASCII case folding and decimal numbers.

use vstd::prelude::*;
use vstd::slice::slice_subrange;

verus! {

// ---------------------------------------------------------------------
// Characters
// ---------------------------------------------------------------------

/// The characters with the Unicode property White_Space.
pub open spec fn is_space(c: char) -> bool {
    ||| '\u{9}' <= c <= '\u{d}'
    ||| c == '\u{20}'
    ||| c == '\u{85}'
    ||| c == '\u{a0}'
    ||| c == '\u{1680}'
    ||| '\u{2000}' <= c <= '\u{200a}'
    ||| c == '\u{2028}'
    ||| c == '\u{2029}'
    ||| c == '\u{202f}'
    ||| c == '\u{205f}'
    ||| c == '\u{3000}'
}

/// Whether `c` is white space.
pub fn space(c: char) -> (r: bool)
    ensures
        r == is_space(c),
{
    ('\u{9}' <= c && c <= '\u{d}') || c == '\u{20}' || c == '\u{85}' || c == '\u{a0}' || c
        == '\u{1680}' || ('\u{2000}' <= c && c <= '\u{200a}') || c == '\u{2028}' || c == '\u{2029}'
        || c == '\u{202f}' || c == '\u{205f}' || c == '\u{3000}'
}

/// `c`, with the letters `A` to `Z` mapped to `a` to `z`.
pub open spec fn lower_char(c: char) -> char {
    if 'A' <= c <= 'Z' {
        (c as u8 + 32) as char
    } else {
        c
    }
}

/// `c`, with the letters `A` to `Z` mapped to `a` to `z`.
pub fn ascii_lower_char(c: char) -> (r: char)
    ensures
        r == lower_char(c),
{
    if 'A' <= c && c <= 'Z' {
        ((c as u8) + 32) as char
    } else {
        c
    }
}

/// Every character of `s`, ASCII letters in lower case.
pub open spec fn ascii_lower(s: Seq<char>) -> Seq<char> {
    Seq::new(s.len(), |i: int| lower_char(s[i]))
}

/// Equality up to the case of ASCII letters.
pub open spec fn same_ignoring_case(a: Seq<char>, b: Seq<char>) -> bool {
    ascii_lower(a) == ascii_lower(b)
}

// ---------------------------------------------------------------------
// Strings and character slices
// ---------------------------------------------------------------------

/// `String::push` of the standard library: appends one character.
pub assume_specification[ String::push ](s: &mut String, c: char)
    ensures
        final(s)@ == old(s)@.push(c),
;

/// The characters of `s`, in order.
pub fn to_chars(s: &str) -> (v: Vec<char>)
    ensures
        v@ == s@,
{
    let mut v: Vec<char> = Vec::new();
    for c in it: s.chars()
        invariant
            v@ == it.seq().take(it.index() as int),
            it.seq() == s@,
    {
        v.push(c);
    }
    v
}

/// The text made of the characters `v`.
pub fn from_chars(v: &[char]) -> (s: String)
    ensures
        s@ == v@,
{
    let mut s = String::new();
    for i in 0..v.len()
        invariant
            s@ == v@.take(i as int),
    {
        s.push(v[i]);
    }
    s
}

/// Whether two character sequences are equal.
pub fn same_chars(a: &[char], b: &[char]) -> (r: bool)
    ensures
        r == (a@ == b@),
{
    if a.len() != b.len() {
        return false;
    }
    for i in 0..a.len()
        invariant
            a@.len() == b@.len(),
            forall|j: int| 0 <= j < i ==> a@[j] == b@[j],
    {
        if a[i] != b[i] {
            return false;
        }
    }
    assert(a@ =~= b@);
    true
}

/// Whether two texts are equal.
pub fn same_text(a: &str, b: &str) -> (r: bool)
    ensures
        r == (a@ == b@),
{
    same_chars(to_chars(a).as_slice(), to_chars(b).as_slice())
}

/// The texts of a list of strings.
pub open spec fn texts(v: Seq<String>) -> Seq<Seq<char>> {
    Seq::new(v.len(), |i: int| v[i]@)
}

/// Appends one string to a list.
pub fn push_text(v: &mut Vec<String>, s: String)
    ensures
        texts(final(v)@) == texts(old(v)@).push(s@),
{
    v.push(s);
    assert(texts(v@) =~= texts(old(v)@).push(s@));
}

/// A copy of a list of strings.
pub fn clone_texts(v: &Vec<String>) -> (r: Vec<String>)
    ensures
        texts(r@) == texts(v@),
{
    let mut r: Vec<String> = Vec::new();
    for i in 0..v.len()
        invariant
            texts(r@) == texts(v@).take(i as int),
    {
        push_text(&mut r, v[i].clone());
        assert(texts(v@).take(i + 1) =~= texts(v@).take(i as int).push(v@[i as int]@));
    }
    assert(texts(v@).take(v@.len() as int) =~= texts(v@));
    r
}

/// Moves every string of `more` to the end of `v`.
pub fn append_texts(v: &mut Vec<String>, more: Vec<String>)
    ensures
        texts(final(v)@) == texts(old(v)@) + texts(more@),
{
    let mut more = more;
    let ghost tail = more@;
    v.append(&mut more);
    assert(texts(v@) =~= texts(old(v)@) + texts(tail));
}

// ---------------------------------------------------------------------
// Case
// ---------------------------------------------------------------------

/// Whether `a` and `b` are equal up to the case of ASCII letters.
pub fn eq_ignore_ascii_case(a: &[char], b: &[char]) -> (r: bool)
    ensures
        r == same_ignoring_case(a@, b@),
{
    if a.len() != b.len() {
        assert(ascii_lower(a@).len() != ascii_lower(b@).len());
        return false;
    }
    for i in 0..a.len()
        invariant
            a@.len() == b@.len(),
            forall|j: int| 0 <= j < i ==> lower_char(a@[j]) == lower_char(b@[j]),
    {
        if ascii_lower_char(a[i]) != ascii_lower_char(b[i]) {
            assert(ascii_lower(a@)[i as int] != ascii_lower(b@)[i as int]);
            return false;
        }
    }
    assert(ascii_lower(a@) =~= ascii_lower(b@));
    true
}

/// What `str::to_lowercase` makes of a text with a character outside ASCII.
pub uninterp spec fn unicode_lowercase(s: Seq<char>) -> Seq<char>;

/// `s` in lower case.
pub open spec fn lowercase(s: Seq<char>) -> Seq<char> {
    if vstd::utf8::is_ascii_chars(s) {
        ascii_lower(s)
    } else {
        unicode_lowercase(s)
    }
}

/// `str::to_lowercase` of the standard library. On ASCII text it maps the
/// letters `A` to `Z` and keeps the rest; on other text it follows the Unicode
/// tables, and the result is only named.
#[verifier::external_body]
pub(crate) fn to_lowercase(s: &str) -> (r: String)
    ensures
        vstd::utf8::is_ascii_chars(s@) ==> r@ == ascii_lower(s@),
        !vstd::utf8::is_ascii_chars(s@) ==> r@ == unicode_lowercase(s@),
{
    s.to_lowercase()
}

// ---------------------------------------------------------------------
// Trimming
// ---------------------------------------------------------------------

/// `s` without its leading white space.
pub open spec fn trimmed_start(s: Seq<char>) -> Seq<char>
    decreases s.len(),
{
    if s.len() > 0 && is_space(s[0]) {
        trimmed_start(s.drop_first())
    } else {
        s
    }
}

/// `s` without its trailing white space.
pub open spec fn trimmed_end(s: Seq<char>) -> Seq<char>
    decreases s.len(),
{
    if s.len() > 0 && is_space(s.last()) {
        trimmed_end(s.drop_last())
    } else {
        s
    }
}

/// `s` without white space at either end.
pub open spec fn trimmed(s: Seq<char>) -> Seq<char> {
    trimmed_start(trimmed_end(s))
}

/// `s` without the characters `c` at its end.
pub open spec fn without_trailing(s: Seq<char>, c: char) -> Seq<char>
    decreases s.len(),
{
    if s.len() > 0 && s.last() == c {
        without_trailing(s.drop_last(), c)
    } else {
        s
    }
}

/// Text in front of visible text takes no part in trimming the end.
pub proof fn lemma_trimmed_end_prefix(p: Seq<char>, s: Seq<char>)
    requires
        trimmed_end(s).len() > 0,
    ensures
        trimmed_end(p + s) == p + trimmed_end(s),
    decreases s.len(),
{
    if is_space(s.last()) {
        assert((p + s).drop_last() =~= p + s.drop_last());
        lemma_trimmed_end_prefix(p, s.drop_last());
    }
}

/// `v` without its trailing white space.
pub fn trim_end(v: &[char]) -> (r: &[char])
    ensures
        r@ == trimmed_end(v@),
{
    let mut n: usize = v.len();
    assert(v@.take(n as int) =~= v@);
    while n > 0 && space(v[n - 1])
        invariant
            n <= v@.len(),
            trimmed_end(v@) == trimmed_end(v@.take(n as int)),
        decreases n,
    {
        assert(v@.take(n as int).drop_last() =~= v@.take(n - 1));
        n = n - 1;
    }
    slice_subrange(v, 0, n)
}

/// `v` without its leading white space.
pub fn trim_start(v: &[char]) -> (r: &[char])
    ensures
        r@ == trimmed_start(v@),
{
    let mut k: usize = 0;
    assert(v@.skip(k as int) =~= v@);
    while k < v.len() && space(v[k])
        invariant
            k <= v@.len(),
            trimmed_start(v@) == trimmed_start(v@.skip(k as int)),
        decreases v@.len() - k,
    {
        assert(v@.skip(k as int).drop_first() =~= v@.skip(k + 1));
        k = k + 1;
    }
    slice_subrange(v, k, v.len())
}

/// `v` without white space at either end.
pub fn trim(v: &[char]) -> (r: &[char])
    ensures
        r@ == trimmed(v@),
{
    trim_start(trim_end(v))
}

/// `v` without the characters `c` at its end.
pub fn trim_end_char(v: &[char], c: char) -> (r: &[char])
    ensures
        r@ == without_trailing(v@, c),
{
    let mut n: usize = v.len();
    assert(v@.take(n as int) =~= v@);
    while n > 0 && v[n - 1] == c
        invariant
            n <= v@.len(),
            without_trailing(v@, c) == without_trailing(v@.take(n as int), c),
        decreases n,
    {
        assert(v@.take(n as int).drop_last() =~= v@.take(n - 1));
        n = n - 1;
    }
    slice_subrange(v, 0, n)
}

// ---------------------------------------------------------------------
// Splitting and searching
// ---------------------------------------------------------------------

/// The pieces of `s` between the characters `sep`: always one more than
/// there are separators.
pub open spec fn pieces(s: Seq<char>, sep: char) -> Seq<Seq<char>>
    decreases s.len(),
{
    if s.len() == 0 {
        seq![Seq::empty()]
    } else {
        let before = pieces(s.drop_last(), sep);
        if s.last() == sep {
            before.push(Seq::empty())
        } else {
            before.drop_last().push(before.last().push(s.last()))
        }
    }
}

/// The texts of a list of character sequences.
pub open spec fn char_texts(v: Seq<Vec<char>>) -> Seq<Seq<char>> {
    Seq::new(v.len(), |i: int| v[i]@)
}

/// There is always a last piece.
pub proof fn lemma_pieces_nonempty(s: Seq<char>, sep: char)
    ensures
        pieces(s, sep).len() > 0,
    decreases s.len(),
{
    if s.len() > 0 {
        lemma_pieces_nonempty(s.drop_last(), sep);
    }
}

/// A text without the separator is one piece.
pub proof fn lemma_pieces_of_one(s: Seq<char>, sep: char)
    requires
        !s.contains(sep),
    ensures
        pieces(s, sep) == seq![s],
    decreases s.len(),
{
    if s.len() > 0 {
        assert(s.last() == s[s.len() - 1]);
        assert(!s.drop_last().contains(sep)) by {
            if s.drop_last().contains(sep) {
                let i = s.drop_last().index_of(sep);
                assert(s[i] == sep);
            }
        }
        lemma_pieces_of_one(s.drop_last(), sep);
        assert(s.drop_last().push(s.last()) =~= s);
        assert(pieces(s, sep) =~= seq![s]);
    } else {
        assert(s =~= Seq::<char>::empty());
    }
}

/// Splitting at a separator splits the two sides.
pub proof fn lemma_pieces_join(a: Seq<char>, b: Seq<char>, sep: char)
    ensures
        pieces(a.push(sep) + b, sep) == pieces(a, sep) + pieces(b, sep),
    decreases b.len(),
{
    if b.len() == 0 {
        assert(a.push(sep) + b =~= a.push(sep));
        assert(a.push(sep).drop_last() =~= a);
        assert(pieces(a.push(sep), sep) =~= pieces(a, sep) + pieces(b, sep));
    } else {
        let whole = a.push(sep) + b;
        assert(whole.drop_last() =~= a.push(sep) + b.drop_last());
        lemma_pieces_join(a, b.drop_last(), sep);
        lemma_pieces_nonempty(b.drop_last(), sep);
        let left = pieces(a, sep);
        let right = pieces(b.drop_last(), sep);
        assert((left + right).last() == right.last());
        assert((left + right).drop_last() =~= left + right.drop_last());
        assert(pieces(whole, sep) =~= left + pieces(b, sep));
    }
}

/// No piece holds the separator.
pub proof fn lemma_pieces_hold_no_separator(s: Seq<char>, sep: char)
    ensures
        forall|i: int|
            0 <= i < pieces(s, sep).len() ==> !(#[trigger] pieces(s, sep)[i]).contains(sep),
    decreases s.len(),
{
    lemma_pieces_nonempty(s, sep);
    if s.len() > 0 {
        let before = pieces(s.drop_last(), sep);
        lemma_pieces_hold_no_separator(s.drop_last(), sep);
        lemma_pieces_nonempty(s.drop_last(), sep);
        assert forall|i: int| 0 <= i < pieces(s, sep).len() implies !(#[trigger] pieces(
            s,
            sep,
        )[i]).contains(sep) by {
            if s.last() != sep && i == before.len() - 1 {
                assert(!before[i].contains(sep));
                let p = before[i].push(s.last());
                if p.contains(sep) {
                    let k = p.index_of(sep);
                    assert(before[i][k] == sep);
                }
            } else if i < before.len() {
                assert(pieces(s, sep)[i] == before[i]);
            }
        }
    }
}

/// Texts one below the other, each after a separator.
pub open spec fn below(lines: Seq<Seq<char>>, sep: char) -> Seq<char>
    decreases lines.len(),
{
    if lines.len() == 0 {
        Seq::empty()
    } else {
        below(lines.drop_last(), sep) + seq![sep] + lines.last()
    }
}

/// Texts with a separator between them.
pub open spec fn joined(lines: Seq<Seq<char>>, sep: char) -> Seq<char> {
    if lines.len() == 0 {
        Seq::empty()
    } else {
        lines[0] + below(lines.drop_first(), sep)
    }
}

/// Texts below others come after them.
pub proof fn lemma_below_append(a: Seq<Seq<char>>, b: Seq<Seq<char>>, sep: char)
    ensures
        below(a + b, sep) == below(a, sep) + below(b, sep),
    decreases b.len(),
{
    if b.len() == 0 {
        assert(a + b =~= a);
        assert(below(a, sep) + below(b, sep) =~= below(a, sep));
    } else {
        lemma_below_append(a, b.drop_last(), sep);
        assert((a + b).drop_last() =~= a + b.drop_last());
        assert((a + b).last() == b.last());
        assert(below(a + b, sep) =~= below(a, sep) + below(b, sep));
    }
}

/// Texts that follow others stand below them.
pub proof fn lemma_joined_append(a: Seq<Seq<char>>, b: Seq<Seq<char>>, sep: char)
    requires
        a.len() > 0,
    ensures
        joined(a + b, sep) == joined(a, sep) + below(b, sep),
{
    lemma_below_append(a.drop_first(), b, sep);
    assert((a + b).drop_first() =~= a.drop_first() + b);
    assert(joined(a + b, sep) =~= joined(a, sep) + below(b, sep));
}

/// One more text stands below the others.
pub proof fn lemma_joined_push(a: Seq<Seq<char>>, l: Seq<char>, sep: char)
    ensures
        a.len() > 0 ==> joined(a.push(l), sep) == joined(a, sep) + seq![sep] + l,
        a.len() == 0 ==> joined(a.push(l), sep) == l,
{
    if a.len() > 0 {
        assert(a.push(l).drop_first() =~= a.drop_first().push(l));
        assert(a.drop_first().push(l).drop_last() =~= a.drop_first());
        assert(joined(a.push(l), sep) =~= joined(a, sep) + seq![sep] + l);
    } else {
        assert(a.push(l).drop_first() =~= Seq::<Seq<char>>::empty());
        assert(joined(a.push(l), sep) =~= l);
    }
}

/// The pieces of a text, joined, are the text.
pub proof fn lemma_joined_pieces(s: Seq<char>, sep: char)
    ensures
        joined(pieces(s, sep), sep) == s,
    decreases s.len(),
{
    if s.len() == 0 {
        let one = seq![Seq::<char>::empty()];
        assert(one.drop_first() =~= Seq::<Seq<char>>::empty());
        assert(joined(one, sep) =~= s);
    } else {
        let before = pieces(s.drop_last(), sep);
        lemma_joined_pieces(s.drop_last(), sep);
        lemma_pieces_nonempty(s.drop_last(), sep);
        if s.last() == sep {
            lemma_joined_push(before, Seq::empty(), sep);
            assert(joined(before, sep) + seq![sep] + Seq::<char>::empty() =~= s);
        } else {
            let rest = before.drop_last();
            let piece = before.last();
            assert(rest.push(piece) =~= before);
            lemma_joined_push(rest, piece, sep);
            lemma_joined_push(rest, piece.push(s.last()), sep);
            assert(joined(before, sep).push(s.last()) =~= s);
            if rest.len() > 0 {
                assert(joined(rest, sep) + seq![sep] + piece.push(s.last()) =~= s);
            }
        }
    }
}

/// Texts without the separator, joined, have those texts as pieces.
pub proof fn lemma_pieces_of_joined(lines: Seq<Seq<char>>, sep: char)
    requires
        lines.len() > 0,
        forall|i: int| 0 <= i < lines.len() ==> !(#[trigger] lines[i]).contains(sep),
    ensures
        pieces(joined(lines, sep), sep) == lines,
    decreases lines.len(),
{
    let rest = lines.drop_last();
    let l = lines.last();
    assert(lines =~= rest.push(l));
    assert(!lines[lines.len() - 1].contains(sep));
    lemma_joined_push(rest, l, sep);
    lemma_pieces_of_one(l, sep);
    if rest.len() > 0 {
        assert forall|i: int| 0 <= i < rest.len() implies !(#[trigger] rest[i]).contains(sep) by {
            assert(rest[i] == lines[i]);
        }
        lemma_pieces_of_joined(rest, sep);
        assert(joined(lines, sep) =~= joined(rest, sep).push(sep) + l);
        lemma_pieces_join(joined(rest, sep), l, sep);
    }
    assert(pieces(joined(lines, sep), sep) =~= lines);
}

/// Joins texts with a separator between them.
pub fn join(lines: &Vec<String>, sep: char) -> (r: String)
    ensures
        r@ == joined(texts(lines@), sep),
{
    let mut out = String::new();
    let ghost all = texts(lines@);
    assert(all.take(0) =~= Seq::<Seq<char>>::empty());
    for i in 0..lines.len()
        invariant
            all == texts(lines@),
            out@ == joined(all.take(i as int), sep),
    {
        proof {
            assert(all.take(i + 1) =~= all.take(i as int).push(all[i as int]));
            lemma_joined_push(all.take(i as int), all[i as int], sep);
        }
        let ghost before = out@;
        if i > 0 {
            out.push(sep);
            assert(out@ =~= before + seq![sep]);
        }
        out.append(lines[i].as_str());
        assert(out@ =~= joined(all.take(i + 1), sep));
    }
    assert(all.take(all.len() as int) =~= all);
    out
}

/// Splits `v` at every character `sep`.
pub fn split_on(v: &[char], sep: char) -> (r: Vec<Vec<char>>)
    ensures
        char_texts(r@) == pieces(v@, sep),
{
    let mut done: Vec<Vec<char>> = Vec::new();
    let mut current: Vec<char> = Vec::new();
    assert(char_texts(done@).push(current@) =~= pieces(v@.take(0), sep));
    for i in 0..v.len()
        invariant
            char_texts(done@).push(current@) == pieces(v@.take(i as int), sep),
    {
        let c = v[i];
        let ghost before = char_texts(done@).push(current@);
        proof {
            assert(v@.take(i + 1).drop_last() =~= v@.take(i as int));
            assert(before.drop_last() =~= char_texts(done@));
        }
        if c == sep {
            done.push(current);
            current = Vec::new();
            assert(char_texts(done@) =~= before);
        } else {
            current.push(c);
        }
    }
    let ghost prefix = done@;
    done.push(current);
    proof {
        assert(v@.take(v@.len() as int) =~= v@);
        assert(char_texts(done@) =~= char_texts(prefix).push(current@));
    }
    done
}

/// The number of characters of `s` before its first `c`.
pub open spec fn prefix_len(s: Seq<char>, c: char) -> nat
    decreases s.len(),
{
    if s.len() == 0 || s[0] == c {
        0
    } else {
        1 + prefix_len(s.drop_first(), c)
    }
}

/// The characters of `s` before its first `c`: all of them where there is none.
pub open spec fn up_to(s: Seq<char>, c: char) -> Seq<char> {
    s.take(prefix_len(s, c) as int)
}

/// The prefix before the first `c` is within `s`.
pub proof fn lemma_prefix_len(s: Seq<char>, c: char)
    ensures
        prefix_len(s, c) <= s.len(),
        forall|i: int| 0 <= i < prefix_len(s, c) ==> s[i] != c,
        prefix_len(s, c) < s.len() ==> s[prefix_len(s, c) as int] == c,
    decreases s.len(),
{
    if s.len() > 0 && s[0] != c {
        let rest = s.drop_first();
        lemma_prefix_len(rest, c);
        assert forall|i: int| 0 <= i < prefix_len(s, c) implies s[i] != c by {
            if i > 0 {
                assert(s[i] == rest[i - 1]);
            }
        }
        if prefix_len(s, c) < s.len() {
            assert(s[prefix_len(s, c) as int] == rest[prefix_len(rest, c) as int]);
        }
    }
}

/// The characters of `v` before its first `c`.
pub fn take_up_to(v: &[char], c: char) -> (r: &[char])
    ensures
        r@ == up_to(v@, c),
{
    let mut n: usize = 0;
    proof {
        lemma_prefix_len(v@, c);
    }
    while n < v.len() && v[n] != c
        invariant
            n <= prefix_len(v@, c) <= v@.len(),
            forall|i: int| 0 <= i < prefix_len(v@, c) ==> v@[i] != c,
            prefix_len(v@, c) < v@.len() ==> v@[prefix_len(v@, c) as int] == c,
        decreases v@.len() - n,
    {
        n = n + 1;
    }
    slice_subrange(v, 0, n)
}

/// The characters of `s` before its first white space: all of them where there
/// is none.
pub open spec fn first_word(s: Seq<char>) -> Seq<char>
    decreases s.len(),
{
    if s.len() == 0 || is_space(s[0]) {
        Seq::empty()
    } else {
        seq![s[0]] + first_word(s.drop_first())
    }
}

/// The first word is what comes before the first white space.
pub proof fn lemma_first_word(s: Seq<char>, n: int)
    requires
        0 <= n <= s.len(),
        forall|i: int| 0 <= i < n ==> !is_space(#[trigger] s[i]),
        n < s.len() ==> is_space(s[n]),
    ensures
        first_word(s) == s.take(n),
    decreases n,
{
    if n == 0 {
        assert(s.take(0) =~= Seq::<char>::empty());
    } else {
        let rest = s.drop_first();
        assert forall|i: int| 0 <= i < n - 1 implies !is_space(#[trigger] rest[i]) by {
            assert(rest[i] == s[i + 1]);
        }
        lemma_first_word(rest, n - 1);
        assert(s.take(n) =~= seq![s[0]] + rest.take(n - 1));
    }
}

/// The characters of `v` before its first white space.
pub fn take_word(v: &[char]) -> (r: &[char])
    ensures
        r@ == first_word(v@),
{
    let mut n: usize = 0;
    while n < v.len() && !space(v[n])
        invariant
            n <= v@.len(),
            forall|i: int| 0 <= i < n ==> !is_space(#[trigger] v@[i]),
        decreases v@.len() - n,
    {
        n = n + 1;
    }
    proof {
        lemma_first_word(v@, n as int);
    }
    slice_subrange(v, 0, n)
}

/// What follows `prefix` in `v`, where `v` starts with it.
pub fn strip_prefix<'a>(v: &'a [char], prefix: &[char]) -> (r: Option<&'a [char]>)
    ensures
        r is Some <==> prefix@.is_prefix_of(v@),
        r is Some ==> r->0@ == v@.skip(prefix@.len() as int),
{
    if v.len() >= prefix.len() && same_chars(slice_subrange(v, 0, prefix.len()), prefix) {
        let r = slice_subrange(v, prefix.len(), v.len());
        assert(r@ =~= v@.skip(prefix@.len() as int));
        Some(r)
    } else {
        None
    }
}

/// Whether `pat` stands in `s` at position `i`.
pub open spec fn stands_at(s: Seq<char>, pat: Seq<char>, i: int) -> bool {
    0 <= i && i + pat.len() <= s.len() && s.subrange(i, i + pat.len()) == pat
}

/// Whether `pat` occurs in `s`.
pub open spec fn contains_text(s: Seq<char>, pat: Seq<char>) -> bool {
    exists|i: int| stands_at(s, pat, i)
}

/// Whether `pat` occurs in `v`.
pub fn contains(v: &[char], pat: &[char]) -> (r: bool)
    ensures
        r == contains_text(v@, pat@),
{
    let n: usize = v.len();
    let m: usize = pat.len();
    let mut i: usize = 0;
    while m <= n && i <= n - m
        invariant
            n == v@.len(),
            m == pat@.len(),
            forall|j: int| 0 <= j < i ==> !stands_at(v@, pat@, j),
        decreases n - i,
    {
        if same_chars(slice_subrange(v, i, i + m), pat) {
            assert(stands_at(v@, pat@, i as int));
            return true;
        }
        if i == n - m {
            return false;
        }
        i = i + 1;
    }
    false
}

/// Whether the text `pat` occurs in the text `s`.
pub fn text_contains(s: &str, pat: &str) -> (r: bool)
    ensures
        r == contains_text(s@, pat@),
{
    contains(to_chars(s).as_slice(), to_chars(pat).as_slice())
}

// ---------------------------------------------------------------------
// Numbers
// ---------------------------------------------------------------------

/// The digit for a number below ten.
pub open spec fn digit(n: int) -> char {
    (48 + n) as char
}

/// A natural number in decimal notation.
pub open spec fn decimal(n: nat) -> Seq<char>
    decreases n,
{
    if n < 10 {
        seq![digit(n as int)]
    } else {
        decimal(n / 10).push(digit((n % 10) as int))
    }
}

/// An integer in decimal notation, with a minus sign before a negative one.
pub open spec fn decimal_int(n: int) -> Seq<char> {
    if n < 0 {
        seq!['-'] + decimal((-n) as nat)
    } else {
        decimal(n as nat)
    }
}

/// `true` or `false`.
pub open spec fn bool_word(b: bool) -> Seq<char> {
    if b {
        "true"@
    } else {
        "false"@
    }
}

/// Decimal notation is a row of digits that stands for its number.
pub proof fn law_decimal_reads_back(n: nat)
    ensures
        decimal(n).len() > 0,
        all_digits(decimal(n)),
        digits_value(decimal(n)) == n,
    decreases n,
{
    if n < 10 {
        assert(decimal(n).drop_last() =~= Seq::<char>::empty());
        reveal_with_fuel(digits_value, 2);
    } else {
        law_decimal_reads_back(n / 10);
        let d = digit((n % 10) as int);
        let s = decimal(n / 10);
        assert(s.push(d).drop_last() =~= s);
        assert forall|i: int| 0 <= i < s.push(d).len() implies '0' <= #[trigger] s.push(d)[i]
            <= '9' by {
            if i < s.len() {
                assert('0' <= s[i] <= '9');
            }
        }
    }
}

/// An integer in decimal notation reads back as that integer.
pub proof fn law_i64_reads_back(n: i64)
    ensures
        i64_of(decimal_int(n as int)) == Some(n),
{
    if n < 0 {
        law_decimal_reads_back((-n) as nat);
        assert(decimal_int(n as int).drop_first() =~= decimal((-n) as nat));
    } else {
        law_decimal_reads_back(n as nat);
        let s = decimal_int(n as int);
        assert('0' <= s[0] <= '9');
    }
}

/// A natural number in decimal notation.
pub fn show_u128(n: u128) -> (r: String)
    ensures
        r@ == decimal(n as nat),
    decreases n,
{
    let d: char = (48 + (n % 10) as u8) as char;
    let mut r = if n < 10 {
        String::new()
    } else {
        show_u128(n / 10)
    };
    r.push(d);
    assert(n < 10 ==> r@ =~= decimal(n as nat));
    r
}

/// A size in decimal notation.
pub fn show_usize(n: usize) -> (r: String)
    ensures
        r@ == decimal(n as nat),
{
    show_u128(n as u128)
}

/// An integer in decimal notation.
pub fn show_i64(n: i64) -> (r: String)
    ensures
        r@ == decimal_int(n as int),
{
    if n < 0 {
        let mut r = String::new();
        r.push('-');
        let m: i128 = -(n as i128);
        let digits = show_u128(m as u128);
        let r2 = r.concat(digits.as_str());
        assert(r2@ =~= decimal_int(n as int));
        r2
    } else {
        show_u128(n as u128)
    }
}

/// `true` or `false`.
pub fn show_bool(b: bool) -> (r: &'static str)
    ensures
        r@ == bool_word(b),
{
    if b {
        "true"
    } else {
        "false"
    }
}

/// Whether every character of `s` is a decimal digit.
pub open spec fn all_digits(s: Seq<char>) -> bool {
    forall|i: int| 0 <= i < s.len() ==> '0' <= #[trigger] s[i] <= '9'
}

/// The number that a row of decimal digits stands for.
pub open spec fn digits_value(s: Seq<char>) -> nat
    decreases s.len(),
{
    if s.len() == 0 {
        0
    } else {
        10 * digits_value(s.drop_last()) + (s.last() as nat - 48) as nat
    }
}

/// The integer that `s` denotes: an optional sign before one or more decimal
/// digits.
pub open spec fn integer_of(s: Seq<char>) -> Option<int> {
    let signed = s.len() > 0 && (s[0] == '-' || s[0] == '+');
    let digits = if signed {
        s.drop_first()
    } else {
        s
    };
    if digits.len() > 0 && all_digits(digits) {
        if signed && s[0] == '-' {
            Some(-(digits_value(digits) as int))
        } else {
            Some(digits_value(digits) as int)
        }
    } else {
        None
    }
}

/// The integer that `s` denotes, where it lies in the range of 64 bits.
pub open spec fn i64_of(s: Seq<char>) -> Option<i64> {
    match integer_of(s) {
        Some(n) => if i64::MIN <= n <= i64::MAX {
            Some(n as i64)
        } else {
            None
        },
        None => None,
    }
}

/// The integer that `v` denotes, where it lies in the range of 64 bits.
pub fn parse_i64(v: &[char]) -> (r: Option<i64>)
    ensures
        r == i64_of(v@),
{
    let signed: bool = v.len() > 0 && (v[0] == '-' || v[0] == '+');
    let negative: bool = signed && v[0] == '-';
    let digits: &[char] = if signed {
        slice_subrange(v, 1, v.len())
    } else {
        v
    };
    assert(signed ==> digits@ =~= v@.drop_first());
    if digits.len() == 0 {
        return None;
    }
    let limit: u64 = if negative {
        0x8000_0000_0000_0000
    } else {
        0x7fff_ffff_ffff_ffff
    };
    let mut total: u64 = 0;
    let mut over: bool = false;
    for i in 0..digits.len()
        invariant
            forall|j: int| 0 <= j < i ==> '0' <= #[trigger] digits@[j] <= '9',
            !over ==> total == digits_value(digits@.take(i as int)),
            !over ==> total <= limit,
            over ==> digits_value(digits@.take(i as int)) > limit,
            limit <= 0x8000_0000_0000_0000,
            digits@.len() > 0,
            signed == (v@.len() > 0 && (v@[0] == '-' || v@[0] == '+')),
            digits@ == (if signed { v@.drop_first() } else { v@ }),
    {
        let c = digits[i];
        if !('0' <= c && c <= '9') {
            assert(!all_digits(digits@));
            return None;
        }
        proof {
            assert(digits@.take(i + 1).drop_last() =~= digits@.take(i as int));
        }
        if !over {
            let next: u128 = 10 * (total as u128) + ((c as u32 - 48) as u128);
            if next > limit as u128 {
                over = true;
            } else {
                total = next as u64;
            }
        }
    }
    assert(digits@.take(digits@.len() as int) =~= digits@);
    if over {
        None
    } else if negative {
        Some((-(total as i128)) as i64)
    } else {
        Some(total as i64)
    }
}

} // verus!
