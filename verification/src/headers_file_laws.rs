//! What patching a `_headers` file promises: a file that is read and written is
//! unchanged, a patch changes the lines of the site-wide block and nothing else
//! in the file, and a second run with the same fixes changes nothing.

use crate::headers::HeaderFixView;
use crate::headers_file::{self, BlockView, HeadersFileView, SITE_WIDE_PATTERN};
use crate::text;
use crate::text_laws;
use vstd::prelude::*;

verus! {

// ---------------------------------------------------------------------
// Reading and writing
// ---------------------------------------------------------------------

/// Reading lines keeps every one of them, in order.
proof fn lemma_lines_are_kept(lines: Seq<Seq<char>>)
    ensures
        headers_file::lines_of(headers_file::file_of_lines(lines)) == lines,
    decreases lines.len(),
{
    if lines.len() == 0 {
        assert(headers_file::lines_of(headers_file::file_of_lines(lines)) =~= lines);
    } else {
        let rest = lines.drop_last();
        let l = lines.last();
        let before = headers_file::file_of_lines(rest);
        let after = headers_file::file_of_lines(lines);
        lemma_lines_are_kept(rest);
        if headers_file::opens(l) {
            assert(after.blocks.drop_last() =~= before.blocks);
        } else if before.blocks.len() > 0 {
            assert(after.blocks.drop_last() =~= before.blocks.drop_last());
        }
        assert(headers_file::lines_of(after) =~= headers_file::lines_of(before).push(l));
        assert(rest.push(l) =~= lines);
    }
}

/// A file that is read and written back is unchanged, to the last character.
pub proof fn law_read_file_is_written_unchanged(contents: Seq<char>)
    ensures
        headers_file::rendered(headers_file::parsed(contents)) == contents,
{
    lemma_lines_are_kept(text::pieces(contents, '\n'));
    text::lemma_joined_pieces(contents, '\n');
}

/// Whether a line is on one line and opens no block.
pub open spec fn is_plain_line(l: Seq<char>) -> bool {
    !l.contains('\n') && !headers_file::opens(l)
}

/// Whether a block is as it comes out of a file.
pub open spec fn is_block(b: BlockView) -> bool {
    &&& !b.heading.contains('\n')
    &&& headers_file::opens(b.heading)
    &&& forall|i: int| 0 <= i < b.lines.len() ==> is_plain_line(#[trigger] b.lines[i])
}

/// Whether a file is as it comes out of reading: every line is on one line, and
/// the lines that open a block are the headings.
pub open spec fn well_formed(file: HeadersFileView) -> bool {
    &&& forall|i: int| 0 <= i < file.preamble.len() ==> is_plain_line(#[trigger] file.preamble[i])
    &&& forall|i: int| 0 <= i < file.blocks.len() ==> is_block(#[trigger] file.blocks[i])
}

proof fn lemma_file_of_lines_well_formed(lines: Seq<Seq<char>>)
    requires
        forall|i: int| 0 <= i < lines.len() ==> !(#[trigger] lines[i]).contains('\n'),
    ensures
        well_formed(headers_file::file_of_lines(lines)),
    decreases lines.len(),
{
    if lines.len() > 0 {
        let rest = lines.drop_last();
        let l = lines.last();
        assert forall|i: int| 0 <= i < rest.len() implies !(#[trigger] rest[i]).contains('\n') by {
            assert(rest[i] == lines[i]);
        }
        assert(!lines[lines.len() - 1].contains('\n'));
        lemma_file_of_lines_well_formed(rest);
        let before = headers_file::file_of_lines(rest);
        let after = headers_file::file_of_lines(lines);
        assert forall|i: int| 0 <= i < after.blocks.len() implies is_block(
            #[trigger] after.blocks[i],
        ) by {
            if i < before.blocks.len() {
                assert(is_block(before.blocks[i]));
                if after.blocks[i] != before.blocks[i] {
                    let b = before.blocks[i];
                    assert(after.blocks[i].lines == b.lines.push(l));
                    assert forall|k: int| 0 <= k < after.blocks[i].lines.len() implies
                        is_plain_line(#[trigger] after.blocks[i].lines[k]) by {
                        if k < b.lines.len() {
                            assert(is_plain_line(b.lines[k]));
                        }
                    }
                }
            }
        }
        assert forall|i: int| 0 <= i < after.preamble.len() implies is_plain_line(
            #[trigger] after.preamble[i],
        ) by {
            if i < before.preamble.len() {
                assert(is_plain_line(before.preamble[i]));
            }
        }
    }
}

/// Every file that was read is well-formed, and has a line at least.
pub proof fn law_read_files_are_well_formed(contents: Seq<char>)
    ensures
        well_formed(headers_file::parsed(contents)),
        headers_file::lines_of(headers_file::parsed(contents)).len() > 0,
{
    let lines = text::pieces(contents, '\n');
    text::lemma_pieces_hold_no_separator(contents, '\n');
    text::lemma_pieces_nonempty(contents, '\n');
    lemma_lines_are_kept(lines);
    lemma_file_of_lines_well_formed(lines);
}

/// Lines that open no block are read as lines before the first block.
proof fn lemma_read_preamble(lines: Seq<Seq<char>>)
    requires
        forall|i: int| 0 <= i < lines.len() ==> is_plain_line(#[trigger] lines[i]),
    ensures
        headers_file::file_of_lines(lines) == (HeadersFileView {
            preamble: lines,
            blocks: Seq::empty(),
        }),
    decreases lines.len(),
{
    if lines.len() == 0 {
        assert(lines =~= Seq::<Seq<char>>::empty());
    } else {
        let rest = lines.drop_last();
        assert forall|i: int| 0 <= i < rest.len() implies is_plain_line(#[trigger] rest[i]) by {
            assert(rest[i] == lines[i]);
        }
        lemma_read_preamble(rest);
        assert(is_plain_line(lines[lines.len() - 1]));
        assert(rest.push(lines.last()) =~= lines);
    }
}

/// Lines that open no block are read as lines of the last block.
proof fn lemma_read_body(a: Seq<Seq<char>>, lines: Seq<Seq<char>>)
    requires
        headers_file::file_of_lines(a).blocks.len() > 0,
        forall|i: int| 0 <= i < lines.len() ==> is_plain_line(#[trigger] lines[i]),
    ensures
        ({
            let before = headers_file::file_of_lines(a);
            headers_file::file_of_lines(a + lines) == (HeadersFileView {
                preamble: before.preamble,
                blocks: before.blocks.drop_last().push(
                    BlockView {
                        heading: before.blocks.last().heading,
                        lines: before.blocks.last().lines + lines,
                    },
                ),
            })
        }),
    decreases lines.len(),
{
    let before = headers_file::file_of_lines(a);
    let expected = before.blocks.drop_last().push(
        BlockView {
            heading: before.blocks.last().heading,
            lines: before.blocks.last().lines + lines,
        },
    );
    if lines.len() == 0 {
        assert(a + lines =~= a);
        assert(before.blocks.last().lines + lines =~= before.blocks.last().lines);
        assert(expected =~= before.blocks);
    } else {
        let rest = lines.drop_last();
        assert forall|i: int| 0 <= i < rest.len() implies is_plain_line(#[trigger] rest[i]) by {
            assert(rest[i] == lines[i]);
        }
        lemma_read_body(a, rest);
        assert(is_plain_line(lines[lines.len() - 1]));
        assert((a + lines).drop_last() =~= a + rest);
        assert((a + lines).last() == lines.last());
        assert((before.blocks.last().lines + rest).push(lines.last()) =~= before.blocks.last().lines
            + lines);
        let after = headers_file::file_of_lines(a + lines);
        assert(after.blocks =~= expected);
    }
}

/// The lines of blocks after a preamble are read as those blocks.
proof fn lemma_read_blocks(file: HeadersFileView)
    requires
        well_formed(file),
    ensures
        headers_file::file_of_lines(headers_file::lines_of(file)) == file,
    decreases file.blocks.len(),
{
    if file.blocks.len() == 0 {
        assert(headers_file::lines_of(file) =~= file.preamble);
        lemma_read_preamble(file.preamble);
        assert(file.blocks =~= Seq::<BlockView>::empty());
    } else {
        let rest = HeadersFileView { blocks: file.blocks.drop_last(), ..file };
        let b = file.blocks.last();
        assert forall|i: int| 0 <= i < rest.blocks.len() implies is_block(
            #[trigger] rest.blocks[i],
        ) by {
            assert(rest.blocks[i] == file.blocks[i]);
        }
        assert(is_block(file.blocks[file.blocks.len() - 1]));
        lemma_read_blocks(rest);
        let before = headers_file::lines_of(rest);
        let opened = before.push(b.heading);
        assert(opened.drop_last() =~= before);
        let file_opened = headers_file::file_of_lines(opened);
        assert(file_opened.blocks == rest.blocks.push(
            BlockView { heading: b.heading, lines: Seq::empty() },
        ));
        lemma_read_body(opened, b.lines);
        assert(headers_file::lines_of(file) =~= opened + b.lines);
        assert(file_opened.blocks.drop_last() =~= rest.blocks);
        assert(Seq::<Seq<char>>::empty() + b.lines =~= b.lines);
        assert(rest.blocks.push(b) =~= file.blocks);
    }
}

/// The lines of a well-formed file hold no line break.
proof fn lemma_lines_have_no_break(file: HeadersFileView)
    requires
        well_formed(file),
    ensures
        forall|i: int|
            0 <= i < headers_file::lines_of(file).len() ==> !(#[trigger] headers_file::lines_of(
                file,
            )[i]).contains('\n'),
    decreases file.blocks.len(),
{
    let lines = headers_file::lines_of(file);
    if file.blocks.len() == 0 {
        assert(lines =~= file.preamble);
        assert forall|i: int| 0 <= i < lines.len() implies !(#[trigger] lines[i]).contains(
            '\n',
        ) by {
            assert(is_plain_line(file.preamble[i]));
        }
    } else {
        let rest = HeadersFileView { blocks: file.blocks.drop_last(), ..file };
        let b = file.blocks.last();
        assert forall|i: int| 0 <= i < rest.blocks.len() implies is_block(
            #[trigger] rest.blocks[i],
        ) by {
            assert(rest.blocks[i] == file.blocks[i]);
        }
        assert(is_block(file.blocks[file.blocks.len() - 1]));
        lemma_lines_have_no_break(rest);
        let before = headers_file::lines_of(rest);
        assert(lines =~= before.push(b.heading) + b.lines);
        assert forall|i: int| 0 <= i < lines.len() implies !(#[trigger] lines[i]).contains(
            '\n',
        ) by {
            if i < before.len() {
                assert(lines[i] == before[i]);
            } else if i > before.len() {
                assert(is_plain_line(b.lines[i - before.len() - 1]));
            }
        }
    }
}

/// A well-formed file that was written reads back as what was written.
pub proof fn law_written_file_reads_back(file: HeadersFileView)
    requires
        well_formed(file),
        headers_file::lines_of(file).len() > 0,
    ensures
        headers_file::parsed(headers_file::rendered(file)) == file,
{
    lemma_lines_have_no_break(file);
    text::lemma_pieces_of_joined(headers_file::lines_of(file), '\n');
    lemma_read_blocks(file);
}

// ---------------------------------------------------------------------
// Setting headers in a list of lines
// ---------------------------------------------------------------------

/// Whether a fix names one header and a value on one line: the header has no
/// colon, no line break and no white space around it, and the value no line
/// break.
pub open spec fn plain(fix: HeaderFixView) -> bool {
    &&& !fix.header.contains(':')
    &&& !fix.header.contains('\n')
    &&& text::trimmed(fix.header) == fix.header
    &&& !fix.value.contains('\n')
}

/// Whether every fix is plain.
pub open spec fn all_plain(fixes: Seq<HeaderFixView>) -> bool {
    forall|i: int| 0 <= i < fixes.len() ==> plain(#[trigger] fixes[i])
}

/// The header that a line sets, in lower case; a blank line sets none.
pub open spec fn key_of(line: Seq<char>) -> Option<Seq<char>> {
    if headers_file::is_blank(line) {
        None
    } else {
        Some(text::ascii_lower(headers_file::name_of(line)))
    }
}

/// The headers that lines set, in lower case.
pub open spec fn keys(lines: Seq<Seq<char>>) -> Seq<Option<Seq<char>>> {
    Seq::new(lines.len(), |i: int| key_of(lines[i]))
}

/// The last fix that sets the line at `i`, or -1.
pub open spec fn last_fix(lines: Seq<Seq<char>>, fixes: Seq<HeaderFixView>, i: int) -> int
    decreases fixes.len(),
{
    if fixes.len() == 0 {
        -1
    } else if headers_file::line_index(lines, fixes.last().header) == i {
        fixes.len() - 1
    } else {
        last_fix(lines, fixes.drop_last(), i)
    }
}

/// The line of a fix is not blank and opens no block.
proof fn lemma_fix_line_is_indented(fix: HeaderFixView)
    ensures
        !headers_file::is_blank(headers_file::fix_line(fix)),
        !headers_file::opens(headers_file::fix_line(fix)),
{
    reveal_strlit("  ");
    reveal_strlit(": ");
    let line = headers_file::fix_line(fix);
    let front = "  "@ + fix.header;
    let tail = ": "@ + fix.value;
    assert(line =~= front + tail);
    lemma_visible_tail(tail);
    text::lemma_trimmed_end_prefix(front, tail);
    assert(line[0] == ' ');
}

/// The line of a plain fix sets the header of the fix and is on one line.
proof fn lemma_fix_line(fix: HeaderFixView)
    requires
        plain(fix),
    ensures
        headers_file::name_of(headers_file::fix_line(fix)) == fix.header,
        headers_file::sets(headers_file::fix_line(fix), fix.header),
        key_of(headers_file::fix_line(fix)) == Some(text::ascii_lower(fix.header)),
        is_plain_line(headers_file::fix_line(fix)),
{
    reveal_strlit("  ");
    reveal_strlit(": ");
    let line = headers_file::fix_line(fix);
    let front = "  "@ + fix.header;
    let tail = ": "@ + fix.value;
    assert(line =~= front + tail);
    assert(!front.contains(':')) by {
        if front.contains(':') {
            let i = front.index_of(':');
            assert(fix.header[i - 2] == ':');
        }
    }
    lemma_up_to_colon(front, tail);
    lemma_trimmed_indented(fix.header);
    lemma_fix_line_is_indented(fix);
    if line.contains('\n') {
        let i = line.index_of('\n');
        if i < front.len() {
            assert(fix.header[i - 2] == '\n');
        } else if i >= front.len() + 2 {
            assert(fix.value[i - front.len() - 2] == '\n');
        }
    }
}

/// Indentation does not matter to a trimmed text.
proof fn lemma_trimmed_indented(s: Seq<char>)
    ensures
        text::trimmed("  "@ + s) == text::trimmed(s),
{
    reveal_strlit("  ");
    let raw = "  "@ + s;
    let e = text::trimmed_end(s);
    if e.len() == 0 {
        lemma_blank_indented(s);
    } else {
        text::lemma_trimmed_end_prefix("  "@, s);
        let re = text::trimmed_end(raw);
        assert(re.drop_first() =~= seq![' '] + e);
        assert(re.drop_first().drop_first() =~= e);
        assert(text::trimmed_start(re) == text::trimmed_start(re.drop_first()));
        assert(text::trimmed_start(re.drop_first()) == text::trimmed_start(
            re.drop_first().drop_first(),
        ));
    }
}

/// A blank text stays blank when it is indented.
proof fn lemma_blank_indented(s: Seq<char>)
    requires
        text::trimmed_end(s).len() == 0,
    ensures
        text::trimmed_end("  "@ + s).len() == 0,
    decreases s.len(),
{
    reveal_strlit("  ");
    let raw = "  "@ + s;
    if s.len() == 0 {
        assert(raw.drop_last() =~= seq![' ']);
        assert(seq![' '].drop_last() =~= Seq::<char>::empty());
        reveal_with_fuel(text::trimmed_end, 3);
    } else {
        assert(text::is_space(s.last()));
        lemma_blank_indented(s.drop_last());
        assert(raw.drop_last() =~= "  "@ + s.drop_last());
    }
}

/// Text that begins with a colon keeps it when its end is trimmed.
proof fn lemma_visible_tail(tail: Seq<char>)
    requires
        tail.len() > 0,
        tail[0] == ':',
    ensures
        text::trimmed_end(tail).len() > 0,
        text::trimmed_end(tail)[0] == ':',
    decreases tail.len(),
{
    if text::is_space(tail.last()) {
        assert(tail.len() > 1);
        lemma_visible_tail(tail.drop_last());
    }
}

/// What stands before the first colon.
proof fn lemma_up_to_colon(h: Seq<char>, tail: Seq<char>)
    requires
        !h.contains(':'),
        tail.len() > 0,
        tail[0] == ':',
    ensures
        text::up_to(h + tail, ':') == h,
{
    let s = h + tail;
    text::lemma_prefix_len(s, ':');
    let n = text::prefix_len(s, ':') as int;
    if n < h.len() {
        assert(h[n] == ':');
    }
    if n > h.len() {
        assert(s[h.len() as int] == ':');
    }
    assert(s.take(n) =~= h);
}

/// The first line for a header depends on the headers that the lines set.
proof fn lemma_line_index_by_keys(a: Seq<Seq<char>>, b: Seq<Seq<char>>, header: Seq<char>)
    requires
        a.len() <= b.len(),
        forall|i: int| 0 <= i < a.len() ==> keys(a)[i] == keys(b)[i],
    ensures
        headers_file::line_index(a, header) < a.len() ==> headers_file::line_index(b, header)
            == headers_file::line_index(a, header),
        a.len() == b.len() ==> headers_file::line_index(b, header) == headers_file::line_index(
            a,
            header,
        ),
{
    headers_file::lemma_line_index(a, header);
    headers_file::lemma_line_index(b, header);
    let ia = headers_file::line_index(a, header) as int;
    let ib = headers_file::line_index(b, header) as int;
    if ib < a.len() {
        assert(keys(a)[ib] == keys(b)[ib]);
        assert(headers_file::sets(a[ib], header));
    }
    if ia < a.len() {
        assert(keys(a)[ia] == keys(b)[ia]);
        assert(headers_file::sets(b[ia], header));
    }
}

/// The last fix for a line depends on the headers that the lines set.
proof fn lemma_last_fix_by_keys(
    a: Seq<Seq<char>>,
    b: Seq<Seq<char>>,
    fixes: Seq<HeaderFixView>,
    i: int,
)
    requires
        a.len() <= b.len(),
        forall|k: int| 0 <= k < a.len() ==> keys(a)[k] == keys(b)[k],
        forall|k: int|
            0 <= k < fixes.len() ==> headers_file::line_index(a, (#[trigger] fixes[k]).header)
                < a.len(),
    ensures
        last_fix(a, fixes, i) == last_fix(b, fixes, i),
    decreases fixes.len(),
{
    if fixes.len() > 0 {
        lemma_line_index_by_keys(a, b, fixes.last().header);
        assert(headers_file::line_index(a, fixes[fixes.len() - 1].header) < a.len());
        assert forall|k: int| 0 <= k < fixes.drop_last().len() implies headers_file::line_index(
            a,
            (#[trigger] fixes.drop_last()[k]).header,
        ) < a.len() by {
            assert(fixes.drop_last()[k] == fixes[k]);
        }
        lemma_last_fix_by_keys(a, b, fixes.drop_last(), i);
    }
}

/// Where the last fix for a line stands.
proof fn lemma_last_fix(lines: Seq<Seq<char>>, fixes: Seq<HeaderFixView>, i: int)
    ensures
        -1 <= last_fix(lines, fixes, i) < fixes.len(),
        last_fix(lines, fixes, i) >= 0 ==> headers_file::line_index(
            lines,
            fixes[last_fix(lines, fixes, i)].header,
        ) == i,
        forall|j: int|
            last_fix(lines, fixes, i) < j < fixes.len() ==> headers_file::line_index(
                lines,
                (#[trigger] fixes[j]).header,
            ) != i,
    decreases fixes.len(),
{
    if fixes.len() > 0 && headers_file::line_index(lines, fixes.last().header) != i {
        let rest = fixes.drop_last();
        lemma_last_fix(lines, rest, i);
        assert forall|j: int| last_fix(lines, fixes, i) < j < fixes.len() implies
            headers_file::line_index(lines, (#[trigger] fixes[j]).header) != i by {
            if j < rest.len() {
                assert(rest[j] == fixes[j]);
            }
        }
    }
}

/// Whether the line at `i` of `out` is the one that the last fix for it asks
/// for, or, where no fix is for it, the line that was there.
pub open spec fn settled_at(
    lines: Seq<Seq<char>>,
    fixes: Seq<HeaderFixView>,
    out: Seq<Seq<char>>,
    i: int,
) -> bool {
    let j = last_fix(out, fixes, i);
    if j >= 0 {
        out[i] == headers_file::fix_line(fixes[j])
    } else {
        i < lines.len() && out[i] == lines[i]
    }
}

/// What fixes make of lines: every header keeps its place, every fixed header
/// is set by its last fix on its first line, and every other line stays.
pub proof fn law_fixes_set_headers(lines: Seq<Seq<char>>, fixes: Seq<HeaderFixView>)
    requires
        all_plain(fixes),
    ensures
        ({
            let out = headers_file::with_fixes(lines, fixes);
            &&& lines.len() <= out.len()
            &&& forall|i: int| 0 <= i < lines.len() ==> keys(out)[i] == keys(lines)[i]
            &&& forall|k: int|
                0 <= k < fixes.len() ==> headers_file::line_index(
                    out,
                    (#[trigger] fixes[k]).header,
                ) < out.len()
            &&& forall|i: int| 0 <= i < out.len() ==> #[trigger] settled_at(lines, fixes, out, i)
        }),
    decreases fixes.len(),
{
    let out = headers_file::with_fixes(lines, fixes);
    if fixes.len() > 0 {
        let rest = fixes.drop_last();
        let f = fixes.last();
        assert forall|i: int| 0 <= i < rest.len() implies plain(#[trigger] rest[i]) by {
            assert(rest[i] == fixes[i]);
        }
        assert(plain(fixes[fixes.len() - 1]));
        law_fixes_set_headers(lines, rest);
        let mid = headers_file::with_fixes(lines, rest);
        headers_file::lemma_line_index(mid, f.header);
        lemma_fix_line(f);
        let t = headers_file::line_index(mid, f.header) as int;
        assert forall|i: int| 0 <= i < mid.len() implies keys(out)[i] == keys(mid)[i] by {
            if i == t {
                assert(headers_file::sets(mid[t], f.header));
            }
        }
        assert forall|i: int| 0 <= i < lines.len() implies keys(out)[i] == keys(lines)[i] by {
            assert(keys(mid)[i] == keys(lines)[i]);
        }
        assert(out[t] == headers_file::fix_line(f));
        headers_file::lemma_line_index(out, f.header);
        assert(headers_file::line_index(out, f.header) == t) by {
            let u = headers_file::line_index(out, f.header) as int;
            assert(headers_file::sets(out[t], f.header));
            if u < t {
                assert(keys(out)[u] == keys(mid)[u]);
                assert(headers_file::sets(mid[u], f.header));
            }
        }
        assert forall|k: int| 0 <= k < fixes.len() implies headers_file::line_index(
            out,
            (#[trigger] fixes[k]).header,
        ) < out.len() by {
            if k < rest.len() {
                assert(rest[k] == fixes[k]);
                lemma_line_index_by_keys(mid, out, fixes[k].header);
            }
        }
        assert forall|i: int| 0 <= i < out.len() implies #[trigger] settled_at(
            lines,
            fixes,
            out,
            i,
        ) by {
            if i != t {
                assert(settled_at(lines, rest, mid, i));
                lemma_last_fix_by_keys(mid, out, rest, i);
                assert(out[i] == mid[i]);
                lemma_last_fix(mid, rest, i);
                let j = last_fix(mid, rest, i);
                if j >= 0 {
                    assert(rest[j] == fixes[j]);
                }
            }
        }
    }
}

/// Fixes for headers that are all set add no line.
proof fn lemma_no_line_added(lines: Seq<Seq<char>>, fixes: Seq<HeaderFixView>)
    requires
        all_plain(fixes),
        forall|k: int|
            0 <= k < fixes.len() ==> headers_file::line_index(lines, (#[trigger] fixes[k]).header)
                < lines.len(),
    ensures
        headers_file::with_fixes(lines, fixes).len() == lines.len(),
    decreases fixes.len(),
{
    if fixes.len() > 0 {
        let rest = fixes.drop_last();
        assert forall|i: int| 0 <= i < rest.len() implies plain(#[trigger] rest[i])
            && headers_file::line_index(lines, rest[i].header) < lines.len() by {
            assert(rest[i] == fixes[i]);
        }
        lemma_no_line_added(lines, rest);
        law_fixes_set_headers(lines, rest);
        let mid = headers_file::with_fixes(lines, rest);
        assert(headers_file::line_index(lines, fixes[fixes.len() - 1].header) < lines.len());
        lemma_line_index_by_keys(lines, mid, fixes.last().header);
    }
}

/// Applying the same fixes once more gives the same lines.
proof fn lemma_lines_settle(lines: Seq<Seq<char>>, fixes: Seq<HeaderFixView>)
    requires
        all_plain(fixes),
    ensures
        headers_file::with_fixes(headers_file::with_fixes(lines, fixes), fixes)
            == headers_file::with_fixes(lines, fixes),
{
    let once = headers_file::with_fixes(lines, fixes);
    let twice = headers_file::with_fixes(once, fixes);
    law_fixes_set_headers(lines, fixes);
    law_fixes_set_headers(once, fixes);
    lemma_no_line_added(once, fixes);
    assert forall|i: int| 0 <= i < once.len() implies twice[i] == once[i] by {
        assert(settled_at(lines, fixes, once, i));
        assert(settled_at(once, fixes, twice, i));
        lemma_last_fix_by_keys(once, twice, fixes, i);
    }
    assert(twice =~= once);
}

/// Lines that end in a visible one still do after fixes, and there is one where
/// there are fixes.
proof fn lemma_fixed_lines_end_visibly(lines: Seq<Seq<char>>, fixes: Seq<HeaderFixView>)
    requires
        lines.len() > 0 ==> !headers_file::is_blank(lines.last()),
    ensures
        ({
            let out = headers_file::with_fixes(lines, fixes);
            &&& out.len() > 0 ==> !headers_file::is_blank(out.last())
            &&& fixes.len() > 0 ==> out.len() > 0
        }),
    decreases fixes.len(),
{
    if fixes.len() > 0 {
        lemma_fixed_lines_end_visibly(lines, fixes.drop_last());
        lemma_fix_line_is_indented(fixes.last());
    }
}

/// Blank lines at the end are no content.
proof fn lemma_content_before_blanks(a: Seq<Seq<char>>, blanks: Seq<Seq<char>>)
    requires
        a.len() > 0 ==> !headers_file::is_blank(a.last()),
        forall|i: int| 0 <= i < blanks.len() ==> headers_file::is_blank(#[trigger] blanks[i]),
    ensures
        headers_file::content_len(a + blanks) == a.len(),
    decreases blanks.len(),
{
    if blanks.len() == 0 {
        assert(a + blanks =~= a);
    } else {
        let rest = blanks.drop_last();
        assert forall|i: int| 0 <= i < rest.len() implies headers_file::is_blank(
            #[trigger] rest[i],
        ) by {
            assert(rest[i] == blanks[i]);
        }
        lemma_content_before_blanks(a, rest);
        assert((a + blanks).drop_last() =~= a + rest);
        assert((a + blanks).last() == blanks[blanks.len() - 1]);
    }
}

/// What a patch makes of the lines of a block: what comes before the blank
/// lines at its end has the fixes applied, and those blank lines stay.
proof fn lemma_patched_lines(lines: Seq<Seq<char>>, fixes: Seq<HeaderFixView>)
    ensures
        ({
            let n = headers_file::content_len(lines) as int;
            let content = headers_file::with_fixes(lines.take(n), fixes);
            let out = headers_file::patched_lines(lines, fixes);
            &&& 0 <= n <= lines.len()
            &&& headers_file::content_len(out) == content.len()
            &&& out.take(content.len() as int) == content
            &&& out.skip(content.len() as int) == lines.skip(n)
        }),
{
    headers_file::lemma_content_len(lines);
    let n = headers_file::content_len(lines) as int;
    let content = headers_file::with_fixes(lines.take(n), fixes);
    let blanks = lines.skip(n);
    let out = headers_file::patched_lines(lines, fixes);
    if n > 0 {
        assert(lines.take(n).last() == lines[n - 1]);
    }
    lemma_fixed_lines_end_visibly(lines.take(n), fixes);
    assert forall|i: int| 0 <= i < blanks.len() implies headers_file::is_blank(
        #[trigger] blanks[i],
    ) by {
        assert(blanks[i] == lines[n + i]);
    }
    lemma_content_before_blanks(content, blanks);
    assert(out.take(content.len() as int) =~= content);
    assert(out.skip(content.len() as int) =~= blanks);
}

// ---------------------------------------------------------------------
// Patching a file
// ---------------------------------------------------------------------

/// The file that a patch works on: the existing one, with a site-wide block.
pub open spec fn patch_base(existing: Seq<char>) -> HeadersFileView {
    headers_file::parsed(headers_file::with_site_block(existing))
}

/// What stands in a file up to the heading of its site-wide block, that heading
/// included.
pub open spec fn text_before(file: HeadersFileView) -> Seq<char> {
    let s = headers_file::site_index(file.blocks) as int;
    text::joined(
        (file.preamble + headers_file::lines_of_blocks(file.blocks.take(s))).push(
            file.blocks[s].heading,
        ),
        '\n',
    )
}

/// Lines as they stand below the heading of a block.
pub open spec fn body_text(lines: Seq<Seq<char>>) -> Seq<char> {
    text::below(lines, '\n')
}

/// What stands in a file below its site-wide block.
pub open spec fn text_after(file: HeadersFileView) -> Seq<char> {
    let s = headers_file::site_index(file.blocks) as int;
    text::below(headers_file::lines_of_blocks(file.blocks.skip(s + 1)), '\n')
}

/// The lines of blocks one after the other.
proof fn lemma_lines_of_blocks_append(a: Seq<BlockView>, b: Seq<BlockView>)
    ensures
        headers_file::lines_of_blocks(a + b) == headers_file::lines_of_blocks(a)
            + headers_file::lines_of_blocks(b),
    decreases b.len(),
{
    if b.len() == 0 {
        assert(a + b =~= a);
        assert(headers_file::lines_of_blocks(a) + headers_file::lines_of_blocks(b)
            =~= headers_file::lines_of_blocks(a));
    } else {
        lemma_lines_of_blocks_append(a, b.drop_last());
        assert((a + b).drop_last() =~= a + b.drop_last());
        assert((a + b).last() == b.last());
        assert(headers_file::lines_of_blocks(a + b) =~= headers_file::lines_of_blocks(a)
            + headers_file::lines_of_blocks(b));
    }
}

/// A file's contents, taken apart at one of its blocks.
proof fn lemma_contents_around_block(file: HeadersFileView, s: int)
    requires
        0 <= s < file.blocks.len(),
    ensures
        headers_file::rendered(file) == text::joined(
            (file.preamble + headers_file::lines_of_blocks(file.blocks.take(s))).push(
                file.blocks[s].heading,
            ),
            '\n',
        ) + body_text(file.blocks[s].lines) + text::below(
            headers_file::lines_of_blocks(file.blocks.skip(s + 1)),
            '\n',
        ),
{
    let blocks = file.blocks;
    let first = blocks.take(s);
    let b = blocks[s];
    let last = blocks.skip(s + 1);
    assert(first.push(b).drop_last() =~= first);
    assert(blocks =~= first.push(b) + last);
    lemma_lines_of_blocks_append(first.push(b), last);
    let top = (file.preamble + headers_file::lines_of_blocks(first)).push(b.heading);
    let bottom = headers_file::lines_of_blocks(last);
    assert(headers_file::lines_of(file) =~= top + (b.lines + bottom));
    text::lemma_joined_append(top, b.lines + bottom, '\n');
    text::lemma_below_append(b.lines, bottom, '\n');
    assert(text::joined(top, '\n') + (body_text(b.lines) + text::below(bottom, '\n')) =~= text::joined(
        top,
        '\n',
    ) + body_text(b.lines) + text::below(bottom, '\n'));
}

/// A patch changes nothing in a file but what stands below the heading of its
/// first site-wide block, up to the next block: what comes before and after is
/// the same, to the last character. To a file without such a block one is added
/// at the end, and all that was there stays.
pub proof fn law_patch_touches_nothing_else(existing: Seq<char>, fixes: Seq<HeaderFixView>)
    requires
        fixes.len() > 0,
    ensures
        ({
            let file = patch_base(existing);
            let s = headers_file::site_index(file.blocks) as int;
            let body = file.blocks[s].lines;
            let fixed = headers_file::fixed_contents(existing, fixes);
            &&& 0 <= s < file.blocks.len()
            &&& file.blocks[s].pattern() == SITE_WIDE_PATTERN@
            &&& headers_file::has_site_block(existing) ==> existing == text_before(file)
                + body_text(body) + text_after(file)
            &&& !headers_file::has_site_block(existing) ==> text_before(file) == existing
                + headers_file::separator(existing) + SITE_WIDE_PATTERN@ && text_after(
                file,
            ).len() == 0
            &&& fixed == text_before(file) + body_text(headers_file::patched_lines(body, fixes))
                + text_after(file)
        }),
{
    let base = headers_file::with_site_block(existing);
    let file = patch_base(existing);
    let s = headers_file::site_index(file.blocks) as int;
    headers_file::lemma_site_block_is_there(existing);
    headers_file::lemma_site_index(file.blocks);
    lemma_contents_around_block(file, s);
    law_read_file_is_written_unchanged(base);
    let out = headers_file::patched(file, fixes);
    lemma_contents_around_block(out, s);
    assert(out.blocks.take(s) =~= file.blocks.take(s));
    assert(out.blocks.skip(s + 1) =~= file.blocks.skip(s + 1));
    if !headers_file::has_site_block(existing) {
        reveal_strlit("\n");
        let nothing = Seq::<char>::empty();
        assert(file.blocks.skip(s + 1) =~= Seq::<BlockView>::empty());
        assert(seq![nothing].drop_last() =~= Seq::<Seq<char>>::empty());
        assert(body_text(seq![nothing]) =~= seq!['\n']);
        let front = existing + headers_file::separator(existing) + SITE_WIDE_PATTERN@;
        assert(base =~= front.push('\n'));
        assert(base =~= text_before(file).push('\n'));
        assert(front =~= base.drop_last());
        assert(text_before(file) =~= base.drop_last());
    }
}

/// The patched file is well-formed.
proof fn lemma_patched_file(existing: Seq<char>, fixes: Seq<HeaderFixView>)
    requires
        all_plain(fixes),
    ensures
        ({
            let file = patch_base(existing);
            let s = headers_file::site_index(file.blocks) as int;
            let out = headers_file::patched(file, fixes);
            &&& 0 <= s < file.blocks.len()
            &&& file.blocks[s].pattern() == SITE_WIDE_PATTERN@
            &&& well_formed(out)
            &&& headers_file::lines_of(out).len() > 0
            &&& headers_file::site_index(out.blocks) == s
        }),
{
    let base = headers_file::with_site_block(existing);
    let file = patch_base(existing);
    let s = headers_file::site_index(file.blocks) as int;
    let out = headers_file::patched(file, fixes);
    headers_file::lemma_site_block_is_there(existing);
    headers_file::lemma_site_index(file.blocks);
    law_read_files_are_well_formed(base);
    let lines = file.blocks[s].lines;
    let n = headers_file::content_len(lines) as int;
    lemma_patched_lines(lines, fixes);
    law_fixes_set_headers(lines.take(n), fixes);
    let content = headers_file::with_fixes(lines.take(n), fixes);
    let new_lines = out.blocks[s].lines;
    assert(is_block(file.blocks[s]));
    assert forall|k: int| 0 <= k < new_lines.len() implies is_plain_line(
        #[trigger] new_lines[k],
    ) by {
        if k < content.len() {
            assert(new_lines[k] == content[k]);
            assert(settled_at(lines.take(n), fixes, content, k));
            lemma_last_fix(content, fixes, k);
            let j = last_fix(content, fixes, k);
            if j >= 0 {
                assert(plain(fixes[j]));
                lemma_fix_line(fixes[j]);
            } else {
                assert(content[k] == lines[k]);
                assert(is_plain_line(lines[k]));
            }
        } else {
            assert(new_lines[k] == lines.skip(n)[k - content.len()]);
            assert(is_plain_line(lines[n + k - content.len()]));
        }
    }
    assert forall|i: int| 0 <= i < out.blocks.len() implies is_block(#[trigger] out.blocks[i]) by {
        assert(is_block(file.blocks[i]));
    }
    lemma_contents_around_block(out, s);
    assert(out.blocks =~= out.blocks.take(s).push(out.blocks[s]) + out.blocks.skip(s + 1));
    lemma_lines_of_blocks_append(out.blocks.take(s).push(out.blocks[s]), out.blocks.skip(s + 1));
    headers_file::lemma_site_index(out.blocks);
    let t = headers_file::site_index(out.blocks) as int;
    assert(out.blocks[s].pattern() == SITE_WIDE_PATTERN@);
    if t < s {
        assert(out.blocks[t] == file.blocks[t]);
    }
}

/// A patched file reads back as the file it was, with the lines of its
/// site-wide block patched.
pub proof fn law_only_the_site_block_changes(existing: Seq<char>, fixes: Seq<HeaderFixView>)
    requires
        fixes.len() > 0,
        all_plain(fixes),
    ensures
        headers_file::parsed(headers_file::fixed_contents(existing, fixes))
            == headers_file::patched(patch_base(existing), fixes),
{
    lemma_patched_file(existing, fixes);
    law_written_file_reads_back(headers_file::patched(patch_base(existing), fixes));
}

/// A file that already has its fixes stays as it is: applying the same fixes
/// again changes nothing.
pub proof fn law_fixes_settle(existing: Seq<char>, fixes: Seq<HeaderFixView>)
    requires
        all_plain(fixes),
    ensures
        headers_file::fixed_contents(headers_file::fixed_contents(existing, fixes), fixes)
            == headers_file::fixed_contents(existing, fixes),
{
    if fixes.len() > 0 {
        let file = patch_base(existing);
        let s = headers_file::site_index(file.blocks) as int;
        let out = headers_file::patched(file, fixes);
        let once = headers_file::fixed_contents(existing, fixes);
        lemma_patched_file(existing, fixes);
        law_only_the_site_block_changes(existing, fixes);
        assert(headers_file::has_site_block(once));
        let lines = file.blocks[s].lines;
        let n = headers_file::content_len(lines) as int;
        lemma_patched_lines(lines, fixes);
        lemma_lines_settle(lines.take(n), fixes);
        assert(headers_file::patched_lines(out.blocks[s].lines, fixes) == out.blocks[s].lines);
        assert(headers_file::patched(out, fixes).blocks =~= out.blocks);
    }
}

/// Every fix is in the patched file: the first line for its header in the
/// site-wide block is the line of the last fix for that header.
pub proof fn law_fixes_are_in_the_file(existing: Seq<char>, fixes: Seq<HeaderFixView>, k: int)
    requires
        all_plain(fixes),
        0 <= k < fixes.len(),
        forall|j: int|
            k < j < fixes.len() ==> !text::same_ignoring_case(
                (#[trigger] fixes[j]).header,
                fixes[k].header,
            ),
    ensures
        ({
            let after = headers_file::parsed(headers_file::fixed_contents(existing, fixes));
            let s = headers_file::site_index(after.blocks) as int;
            let lines = after.blocks[s].lines;
            let i = headers_file::line_index(lines, fixes[k].header) as int;
            &&& 0 <= s < after.blocks.len()
            &&& after.blocks[s].pattern() == SITE_WIDE_PATTERN@
            &&& 0 <= i < lines.len()
            &&& lines[i] == headers_file::fix_line(fixes[k])
        }),
{
    let file = patch_base(existing);
    let s = headers_file::site_index(file.blocks) as int;
    lemma_patched_file(existing, fixes);
    law_only_the_site_block_changes(existing, fixes);
    let before = file.blocks[s].lines;
    let n = headers_file::content_len(before) as int;
    lemma_patched_lines(before, fixes);
    let out = headers_file::with_fixes(before.take(n), fixes);
    let lines = headers_file::patched_lines(before, fixes);
    law_fixes_set_headers(before.take(n), fixes);
    let header = fixes[k].header;
    let i = headers_file::line_index(out, header) as int;
    assert forall|j: int| 0 <= j < out.len() implies keys(out)[j] == keys(lines)[j] by {
        assert(lines[j] == out[j]);
    }
    lemma_line_index_by_keys(out, lines, header);
    lemma_last_fix(out, fixes, i);
    assert(settled_at(before.take(n), fixes, out, i));
    headers_file::lemma_line_index(out, header);
    let j = last_fix(out, fixes, i);
    assert(j == k) by {
        headers_file::lemma_line_index(out, fixes[j].header);
    }
    assert(lines[i] == out[i]);
}

// ---------------------------------------------------------------------
// Patching, in terms of the lines of the file alone
// ---------------------------------------------------------------------

/// Whether a line sets a header: it is not blank, and what stands before its
/// first colon, without white space around it, is the header, ignoring case.
pub open spec fn line_sets(line: Seq<char>, header: Seq<char>) -> bool {
    &&& !text_laws::all_space(line)
    &&& text::same_ignoring_case(text::trimmed(text::up_to(line, ':')), header)
}

/// A line is blank exactly where it has nothing but white space.
proof fn lemma_blank_iff(line: Seq<char>)
    ensures
        headers_file::is_blank(line) <==> text_laws::all_space(line),
{
    text_laws::law_trimmed_end(line);
    let t = text::trimmed_end(line);
    if t.len() == 0 {
        assert(line.skip(0) =~= line);
    } else {
        assert(line[t.len() - 1] == t[t.len() - 1]) by {
            assert((t + line.skip(t.len() as int))[t.len() - 1] == t[t.len() - 1]);
        }
    }
}

/// One fix replaces the first line for its header, whatever its case, by two
/// spaces, the header, a colon and the value; where there is none, that line is
/// added at the end. No other line changes.
pub proof fn law_one_fix(lines: Seq<Seq<char>>, fix: HeaderFixView, i: int)
    requires
        0 <= i <= lines.len(),
        forall|j: int| 0 <= j < i ==> !line_sets(#[trigger] lines[j], fix.header),
        i < lines.len() ==> line_sets(lines[i], fix.header),
    ensures
        ({
            let line = "  "@ + fix.header + ": "@ + fix.value;
            headers_file::with_fix(lines, fix) == if i < lines.len() {
                lines.update(i, line)
            } else {
                lines.push(line)
            }
        }),
{
    headers_file::lemma_line_index(lines, fix.header);
    let k = headers_file::line_index(lines, fix.header) as int;
    assert forall|j: int| 0 <= j < lines.len() implies headers_file::sets(
        #[trigger] lines[j],
        fix.header,
    ) == line_sets(lines[j], fix.header) by {
        lemma_blank_iff(lines[j]);
    }
    if k < i {
        assert(!line_sets(lines[k], fix.header));
    }
    if i < k {
        assert(headers_file::sets(lines[i], fix.header));
    }
}

/// Fixes are applied one after the other.
pub proof fn law_fixes_in_order(
    lines: Seq<Seq<char>>,
    fixes: Seq<HeaderFixView>,
    fix: HeaderFixView,
)
    ensures
        headers_file::with_fixes(lines, Seq::empty()) == lines,
        headers_file::with_fixes(lines, fixes.push(fix)) == headers_file::with_fix(
            headers_file::with_fixes(lines, fixes),
            fix,
        ),
{
    assert(fixes.push(fix).drop_last() =~= fixes);
}

/// Blank lines at the end of a block stay at its end, after what the fixes add.
pub proof fn law_blank_lines_stay_last(
    content: Seq<Seq<char>>,
    blanks: Seq<Seq<char>>,
    fixes: Seq<HeaderFixView>,
)
    requires
        content.len() > 0 ==> !text_laws::all_space(content[content.len() - 1]),
        forall|i: int| 0 <= i < blanks.len() ==> text_laws::all_space(#[trigger] blanks[i]),
    ensures
        headers_file::patched_lines(content + blanks, fixes) == headers_file::with_fixes(
            content,
            fixes,
        ) + blanks,
{
    if content.len() > 0 {
        lemma_blank_iff(content.last());
    }
    assert forall|i: int| 0 <= i < blanks.len() implies headers_file::is_blank(
        #[trigger] blanks[i],
    ) by {
        lemma_blank_iff(blanks[i]);
    }
    lemma_content_before_blanks(content, blanks);
    let n = content.len() as int;
    assert((content + blanks).take(n) =~= content);
    assert((content + blanks).skip(n) =~= blanks);
}

/// Whether a line is the heading of a site-wide block: `/*`, and white space at
/// most.
pub open spec fn is_site_heading(line: Seq<char>) -> bool {
    &&& line.len() >= 2
    &&& line[0] == '/'
    &&& line[1] == '*'
    &&& text_laws::all_space(line.skip(2))
}

proof fn lemma_site_heading(line: Seq<char>)
    ensures
        is_site_heading(line) <==> text::trimmed_end(line) == SITE_WIDE_PATTERN@,
{
    reveal_strlit("/*");
    let t = text::trimmed_end(line);
    let p = SITE_WIDE_PATTERN@;
    text_laws::law_trimmed_end(line);
    assert forall|i: int| 0 <= i < t.len() implies line[i] == t[i] by {
        assert((t + line.skip(t.len() as int))[i] == t[i]);
    }
    if t == p {
        assert(line[0] == '/' && line[1] == '*');
    }
    if is_site_heading(line) {
        if t.len() < 2 {
            let k = t.len() as int;
            assert(line.skip(k)[1 - k] == line[1]);
            assert(text::is_space(line[1]));
        }
        if t.len() > 2 {
            let j = t.len() - 1;
            assert(line.skip(2)[j - 2] == line[j]);
        }
        assert(t =~= p);
    }
}

/// Every heading of a file is one of its lines.
proof fn lemma_headings_are_lines(lines: Seq<Seq<char>>)
    ensures
        forall|b: int|
            0 <= b < headers_file::file_of_lines(lines).blocks.len() ==> lines.contains(
                (#[trigger] headers_file::file_of_lines(lines).blocks[b]).heading,
            ),
    decreases lines.len(),
{
    if lines.len() > 0 {
        let rest = lines.drop_last();
        lemma_headings_are_lines(rest);
        let before = headers_file::file_of_lines(rest);
        let after = headers_file::file_of_lines(lines);
        assert forall|b: int| 0 <= b < after.blocks.len() implies lines.contains(
            (#[trigger] after.blocks[b]).heading,
        ) by {
            if b < before.blocks.len() {
                assert(after.blocks[b].heading == before.blocks[b].heading);
                let i = rest.index_of(before.blocks[b].heading);
                assert(lines[i] == rest[i]);
            } else {
                assert(lines[lines.len() - 1] == lines.last());
            }
        }
    }
}

/// Lines that begin with a heading are read as blocks of their own.
proof fn lemma_read_from_heading(a: Seq<Seq<char>>, r: Seq<Seq<char>>)
    requires
        r.len() > 0 ==> headers_file::opens(r[0]),
    ensures
        headers_file::file_of_lines(r).preamble.len() == 0,
        r.len() > 0 ==> headers_file::file_of_lines(r).blocks.len() > 0,
        headers_file::file_of_lines(a + r) == (HeadersFileView {
            preamble: headers_file::file_of_lines(a).preamble,
            blocks: headers_file::file_of_lines(a).blocks + headers_file::file_of_lines(r).blocks,
        }),
    decreases r.len(),
{
    let fa = headers_file::file_of_lines(a);
    let fr = headers_file::file_of_lines(r);
    let fw = headers_file::file_of_lines(a + r);
    if r.len() == 0 {
        assert(a + r =~= a);
        assert(fa.blocks + fr.blocks =~= fa.blocks);
    } else {
        let rest = r.drop_last();
        lemma_read_from_heading(a, rest);
        assert((a + r).drop_last() =~= a + rest);
        assert((a + r).last() == r.last());
        let fs = headers_file::file_of_lines(rest);
        if rest.len() == 0 {
            assert(r.last() == r[0]);
            assert(fs.blocks =~= Seq::<BlockView>::empty());
        }
        if headers_file::opens(r.last()) {
            assert(fw.blocks =~= fa.blocks + fr.blocks);
        } else {
            assert((fa.blocks + fs.blocks).last() == fs.blocks.last());
            assert((fa.blocks + fs.blocks).drop_last() =~= fa.blocks + fs.blocks.drop_last());
            assert(fw.blocks =~= fa.blocks + fr.blocks);
        }
    }
}

/// Where a patch takes place, by the lines of the file: the line at `h` is the
/// first site-wide heading, and the one at `e` the next that starts with a
/// visible character, or the end. The lines between them are patched; all others
/// stay, in their places.
pub proof fn law_patch_between_headings(
    existing: Seq<char>,
    fixes: Seq<HeaderFixView>,
    h: int,
    e: int,
)
    requires
        fixes.len() > 0,
        0 <= h < e <= text::pieces(existing, '\n').len(),
        is_site_heading(text::pieces(existing, '\n')[h]),
        forall|i: int|
            0 <= i < h ==> !is_site_heading(#[trigger] text::pieces(existing, '\n')[i]),
        forall|i: int|
            h < i < e ==> {
                let l = #[trigger] text::pieces(existing, '\n')[i];
                l.len() == 0 || text::is_space(l[0])
            },
        e < text::pieces(existing, '\n').len() ==> {
            let l = text::pieces(existing, '\n')[e];
            l.len() > 0 && !text::is_space(l[0])
        },
    ensures
        ({
            let lines = text::pieces(existing, '\n');
            headers_file::fixed_contents(existing, fixes) == text::joined(
                lines.take(h + 1) + headers_file::patched_lines(lines.subrange(h + 1, e), fixes)
                    + lines.skip(e),
                '\n',
            )
        }),
{
    let lines = text::pieces(existing, '\n');
    let top = lines.take(h);
    let heading = lines[h];
    let body = lines.subrange(h + 1, e);
    let rest = lines.skip(e);
    text::lemma_pieces_hold_no_separator(existing, '\n');
    let a = headers_file::file_of_lines(top);
    lemma_headings_are_lines(top);
    lemma_lines_are_kept(top);
    lemma_site_heading(heading);
    let opened = top.push(heading);
    assert(opened.drop_last() =~= top);
    assert(headers_file::opens(heading));
    let fo = headers_file::file_of_lines(opened);
    assert forall|i: int| 0 <= i < body.len() implies is_plain_line(#[trigger] body[i]) by {
        assert(body[i] == lines[h + 1 + i]);
    }
    lemma_read_body(opened, body);
    let b = BlockView { heading, lines: body };
    assert(fo.blocks.drop_last() =~= a.blocks);
    assert(Seq::<Seq<char>>::empty() + body =~= body);
    let fb = headers_file::file_of_lines(opened + body);
    assert(fb.blocks =~= a.blocks.push(b));
    assert(rest.len() > 0 ==> rest[0] == lines[e]);
    lemma_read_from_heading(opened + body, rest);
    lemma_lines_are_kept(rest);
    assert(opened + body + rest =~= lines);
    let file = headers_file::parsed(existing);
    let tail = headers_file::file_of_lines(rest);
    assert(file.blocks == a.blocks.push(b) + tail.blocks);
    let s = a.blocks.len() as int;
    headers_file::lemma_site_index(file.blocks);
    assert(file.blocks[s] == b);
    assert(headers_file::site_index(file.blocks) == s) by {
        let t = headers_file::site_index(file.blocks) as int;
        if t < s {
            assert(file.blocks[t] == a.blocks[t]);
            let i = top.index_of(a.blocks[t].heading);
            assert(top[i] == lines[i]);
            lemma_site_heading(lines[i]);
        }
    }
    assert(headers_file::has_site_block(existing));
    let new_body = headers_file::patched_lines(body, fixes);
    let nb = BlockView { heading, lines: new_body };
    let out = headers_file::patched(file, fixes);
    assert(out.blocks =~= a.blocks.push(nb) + tail.blocks);
    lemma_lines_of_blocks_append(a.blocks.push(nb), tail.blocks);
    assert(a.blocks.push(nb).drop_last() =~= a.blocks);
    assert(tail.preamble =~= Seq::<Seq<char>>::empty());
    assert(headers_file::lines_of(tail) =~= headers_file::lines_of_blocks(tail.blocks));
    assert(lines.take(h + 1) =~= opened);
    assert(headers_file::lines_of(out) =~= lines.take(h + 1) + new_body + rest);
}

/// A file without a site-wide heading keeps all it has, and gets one at its end
/// with a line for each fix: after an empty line, where there is anything before
/// it.
pub proof fn law_patch_without_heading(existing: Seq<char>, fixes: Seq<HeaderFixView>)
    requires
        fixes.len() > 0,
        forall|i: int|
            0 <= i < text::pieces(existing, '\n').len() ==> !is_site_heading(
                #[trigger] text::pieces(existing, '\n')[i],
            ),
    ensures
        headers_file::fixed_contents(existing, fixes) == existing + (if existing.len() == 0 {
            Seq::empty()
        } else if existing[existing.len() - 1] == '\n' {
            seq!['\n']
        } else {
            seq!['\n', '\n']
        }) + seq!['/', '*'] + text::below(
            headers_file::with_fixes(Seq::empty(), fixes),
            '\n',
        ) + seq!['\n'],
{
    let lines = text::pieces(existing, '\n');
    let file = headers_file::parsed(existing);
    lemma_headings_are_lines(lines);
    headers_file::lemma_site_index(file.blocks);
    assert(!headers_file::has_site_block(existing)) by {
        if headers_file::has_site_block(existing) {
            let s = headers_file::site_index(file.blocks) as int;
            let i = lines.index_of(file.blocks[s].heading);
            lemma_site_heading(lines[i]);
        }
    }
    law_patch_touches_nothing_else(existing, fixes);
    headers_file::lemma_site_block_is_there(existing);
    let nothing = Seq::<char>::empty();
    let none = Seq::<Seq<char>>::empty();
    law_blank_lines_stay_last(none, seq![nothing], fixes);
    assert(none + seq![nothing] =~= seq![nothing]);
    let new_lines = headers_file::with_fixes(none, fixes);
    text::lemma_below_append(new_lines, seq![nothing], '\n');
    assert(seq![nothing].drop_last() =~= none);
    assert(text::below(none, '\n') =~= nothing);
    assert(text::below(seq![nothing], '\n') =~= seq!['\n']);
    reveal_strlit("");
    reveal_strlit("\n");
    reveal_strlit("\n\n");
    reveal_strlit("/*");
    assert(""@ =~= nothing);
    assert("\n"@ =~= seq!['\n']);
    assert("\n\n"@ =~= seq!['\n', '\n']);
    assert("/*"@ =~= seq!['/', '*']);
    let front = existing + headers_file::separator(existing) + seq!['/', '*'];
    assert(headers_file::fixed_contents(existing, fixes) =~= front + text::below(new_lines, '\n')
        + seq!['\n']);
}

} // verus!
