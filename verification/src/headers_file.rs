//! Minimal patcher for the `_headers` file format of Netlify and Cloudflare
//! Pages: a path pattern at the start of a line, followed by indented
//! `Header: value` lines.
//!
//! A patch adds or replaces headers in the site-wide (`/*`) block and touches
//! nothing else in the file: every other line stays as it is, its white space
//! and its line break included.

use crate::headers::{HeaderFix, HeaderFixView};
use crate::text;
use vstd::prelude::*;

verus! {

/// The pattern of the block that holds for every path.
pub const SITE_WIDE_PATTERN: &'static str = "/*";

/// A line with a path pattern and the lines below it, as they stand in a file.
pub struct Block {
    pub heading: String,
    pub lines: Vec<String>,
}

/// The texts of a [`Block`].
#[verifier::ext_equal]
pub struct BlockView {
    pub heading: Seq<char>,
    pub lines: Seq<Seq<char>>,
}

impl View for Block {
    type V = BlockView;

    open spec fn view(&self) -> BlockView {
        BlockView { heading: self.heading@, lines: text::texts(self.lines@) }
    }
}

impl BlockView {
    /// The path pattern of the block.
    pub open spec fn pattern(self) -> Seq<char> {
        text::trimmed_end(self.heading)
    }
}

/// The texts of a list of blocks.
pub open spec fn block_views(v: Seq<Block>) -> Seq<BlockView> {
    Seq::new(v.len(), |i: int| v[i]@)
}

/// A file: the lines before the first block, and the blocks.
pub struct HeadersFile {
    pub preamble: Vec<String>,
    pub blocks: Vec<Block>,
}

/// The texts of a [`HeadersFile`].
#[verifier::ext_equal]
pub struct HeadersFileView {
    pub preamble: Seq<Seq<char>>,
    pub blocks: Seq<BlockView>,
}

impl View for HeadersFile {
    type V = HeadersFileView;

    open spec fn view(&self) -> HeadersFileView {
        HeadersFileView {
            preamble: text::texts(self.preamble@),
            blocks: block_views(self.blocks@),
        }
    }
}

// ---------------------------------------------------------------------
// Reading
// ---------------------------------------------------------------------

/// Whether a line has nothing but white space.
pub open spec fn is_blank(line: Seq<char>) -> bool {
    text::trimmed_end(line).len() == 0
}

/// Whether a line opens a block: it starts with a visible character.
pub open spec fn opens(line: Seq<char>) -> bool {
    line.len() > 0 && !text::is_space(line[0])
}

/// A file with one more line at its end: a line that starts with a visible
/// character opens a block, and any other belongs to the last block, or to what
/// comes before the first.
pub open spec fn with_line(file: HeadersFileView, line: Seq<char>) -> HeadersFileView {
    if opens(line) {
        HeadersFileView {
            blocks: file.blocks.push(BlockView { heading: line, lines: Seq::empty() }),
            ..file
        }
    } else if file.blocks.len() > 0 {
        HeadersFileView {
            blocks: file.blocks.drop_last().push(
                BlockView {
                    heading: file.blocks.last().heading,
                    lines: file.blocks.last().lines.push(line),
                },
            ),
            ..file
        }
    } else {
        HeadersFileView { preamble: file.preamble.push(line), ..file }
    }
}

/// The file that a list of lines describes.
pub open spec fn file_of_lines(lines: Seq<Seq<char>>) -> HeadersFileView
    decreases lines.len(),
{
    if lines.len() == 0 {
        HeadersFileView { preamble: Seq::empty(), blocks: Seq::empty() }
    } else {
        with_line(file_of_lines(lines.drop_last()), lines.last())
    }
}

/// The file with the given contents.
pub open spec fn parsed(contents: Seq<char>) -> HeadersFileView {
    file_of_lines(text::pieces(contents, '\n'))
}

/// Adds one line at the end of a file.
fn add_line(file: &mut HeadersFile, line: &[char])
    ensures
        final(file)@ == with_line(old(file)@, line@),
{
    let ghost before = file@;
    if line.len() > 0 && !text::space(line[0]) {
        file.blocks.push(Block { heading: text::from_chars(line), lines: Vec::new() });
        assert(text::texts(file.blocks@.last().lines@) =~= Seq::<Seq<char>>::empty());
        assert(file@ =~= with_line(before, line@));
    } else if file.blocks.len() > 0 {
        let popped = file.blocks.pop();
        match popped {
            Some(b) => {
                let mut b = b;
                text::push_text(&mut b.lines, text::from_chars(line));
                file.blocks.push(b);
                assert(file@.blocks =~= with_line(before, line@).blocks);
            },
            None => {},
        }
    } else {
        text::push_text(&mut file.preamble, text::from_chars(line));
    }
}

/// Reads a file into its blocks.
pub fn parse_blocks(contents: &str) -> (r: HeadersFile)
    ensures
        r@ == parsed(contents@),
{
    let chars = text::to_chars(contents);
    let lines = text::split_on(chars.as_slice(), '\n');
    let mut file = HeadersFile { preamble: Vec::new(), blocks: Vec::new() };
    let ghost all = text::char_texts(lines@);
    assert(all.take(0) =~= Seq::<Seq<char>>::empty());
    assert(file@ =~= file_of_lines(all.take(0)));
    for i in 0..lines.len()
        invariant
            all == text::char_texts(lines@),
            file@ == file_of_lines(all.take(i as int)),
    {
        proof {
            assert(all.take(i + 1).drop_last() =~= all.take(i as int));
            assert(all.take(i + 1).last() == lines@[i as int]@);
        }
        add_line(&mut file, lines[i].as_slice());
    }
    assert(all.take(all.len() as int) =~= all);
    file
}

// ---------------------------------------------------------------------
// Writing
// ---------------------------------------------------------------------

/// The lines of blocks, in order.
pub open spec fn lines_of_blocks(blocks: Seq<BlockView>) -> Seq<Seq<char>>
    decreases blocks.len(),
{
    if blocks.len() == 0 {
        Seq::empty()
    } else {
        lines_of_blocks(blocks.drop_last()).push(blocks.last().heading) + blocks.last().lines
    }
}

/// The lines of a file, in order.
pub open spec fn lines_of(file: HeadersFileView) -> Seq<Seq<char>> {
    file.preamble + lines_of_blocks(file.blocks)
}

/// The contents of a file.
pub open spec fn rendered(file: HeadersFileView) -> Seq<char> {
    text::joined(lines_of(file), '\n')
}

/// Writes a file.
pub fn render(file: &HeadersFile) -> (r: String)
    ensures
        r@ == rendered(file@),
{
    let mut lines = text::clone_texts(&file.preamble);
    let ghost start = file@.preamble;
    let ghost all = file@.blocks;
    assert(all.take(0) =~= Seq::<BlockView>::empty());
    assert(start + lines_of_blocks(all.take(0)) =~= start);
    for i in 0..file.blocks.len()
        invariant
            all == file@.blocks,
            text::texts(lines@) == start + lines_of_blocks(all.take(i as int)),
    {
        proof {
            assert(all.take(i + 1).drop_last() =~= all.take(i as int));
            assert(all.take(i + 1).last() == file.blocks@[i as int]@);
        }
        text::push_text(&mut lines, file.blocks[i].heading.clone());
        text::append_texts(&mut lines, text::clone_texts(&file.blocks[i].lines));
        assert(text::texts(lines@) =~= start + lines_of_blocks(all.take(i + 1)));
    }
    assert(all.take(all.len() as int) =~= all);
    text::join(&lines, '\n')
}

// ---------------------------------------------------------------------
// Setting headers
// ---------------------------------------------------------------------

/// The header that a line names.
pub open spec fn name_of(line: Seq<char>) -> Seq<char> {
    text::trimmed(text::up_to(line, ':'))
}

/// The header that a line names.
pub fn header_name(line: &str) -> (r: String)
    ensures
        r@ == name_of(line@),
{
    let chars = text::to_chars(line);
    text::from_chars(text::trim(text::take_up_to(chars.as_slice(), ':')))
}

/// Whether a line sets `header`, whatever the case of its letters.
pub open spec fn sets(line: Seq<char>, header: Seq<char>) -> bool {
    !is_blank(line) && text::same_ignoring_case(name_of(line), header)
}

/// Whether a line sets `header`.
fn is_set_by(line: &str, header: &str) -> (r: bool)
    ensures
        r == sets(line@, header@),
{
    let chars = text::to_chars(line);
    if text::trim_end(chars.as_slice()).len() == 0 {
        return false;
    }
    text::eq_ignore_ascii_case(
        text::to_chars(header_name(line).as_str()).as_slice(),
        text::to_chars(header).as_slice(),
    )
}

/// The line that a fix asks for.
pub open spec fn fix_line(fix: HeaderFixView) -> Seq<char> {
    "  "@ + fix.header + ": "@ + fix.value
}

/// The position of the first line that sets `header`, or the number of lines.
pub open spec fn line_index(lines: Seq<Seq<char>>, header: Seq<char>) -> nat
    decreases lines.len(),
{
    if lines.len() == 0 || sets(lines[0], header) {
        0
    } else {
        1 + line_index(lines.drop_first(), header)
    }
}

/// `lines` with one header set: its first line is replaced, or a line is added
/// at the end.
pub open spec fn with_fix(lines: Seq<Seq<char>>, fix: HeaderFixView) -> Seq<Seq<char>> {
    let i = line_index(lines, fix.header);
    if i < lines.len() {
        lines.update(i as int, fix_line(fix))
    } else {
        lines.push(fix_line(fix))
    }
}

/// `lines` with every fix applied, in order.
pub open spec fn with_fixes(lines: Seq<Seq<char>>, fixes: Seq<HeaderFixView>) -> Seq<Seq<char>>
    decreases fixes.len(),
{
    if fixes.len() == 0 {
        lines
    } else {
        with_fix(with_fixes(lines, fixes.drop_last()), fixes.last())
    }
}

/// The number of lines up to the last one that is not blank.
pub open spec fn content_len(lines: Seq<Seq<char>>) -> nat
    decreases lines.len(),
{
    if lines.len() == 0 || !is_blank(lines.last()) {
        lines.len()
    } else {
        content_len(lines.drop_last())
    }
}

/// The lines of a block with every fix applied: blank lines at its end stay
/// there.
pub open spec fn patched_lines(lines: Seq<Seq<char>>, fixes: Seq<HeaderFixView>) -> Seq<Seq<char>> {
    let n = content_len(lines) as int;
    with_fixes(lines.take(n), fixes) + lines.skip(n)
}

/// What [`line_index`] finds.
pub proof fn lemma_line_index(lines: Seq<Seq<char>>, header: Seq<char>)
    ensures
        line_index(lines, header) <= lines.len(),
        forall|i: int|
            0 <= i < line_index(lines, header) ==> !sets(#[trigger] lines[i], header),
        line_index(lines, header) < lines.len() ==> sets(
            lines[line_index(lines, header) as int],
            header,
        ),
    decreases lines.len(),
{
    if lines.len() > 0 && !sets(lines[0], header) {
        let rest = lines.drop_first();
        lemma_line_index(rest, header);
        assert forall|i: int| 0 <= i < line_index(lines, header) implies !sets(
            #[trigger] lines[i],
            header,
        ) by {
            if i > 0 {
                assert(lines[i] == rest[i - 1]);
            }
        }
        if line_index(lines, header) < lines.len() {
            assert(lines[line_index(lines, header) as int] == rest[line_index(
                rest,
                header,
            ) as int]);
        }
    }
}

/// What [`content_len`] counts.
pub proof fn lemma_content_len(lines: Seq<Seq<char>>)
    ensures
        content_len(lines) <= lines.len(),
        content_len(lines) > 0 ==> !is_blank(lines[content_len(lines) - 1]),
        forall|i: int| content_len(lines) <= i < lines.len() ==> is_blank(#[trigger] lines[i]),
    decreases lines.len(),
{
    if lines.len() > 0 && is_blank(lines.last()) {
        let rest = lines.drop_last();
        lemma_content_len(rest);
        assert forall|i: int| content_len(lines) <= i < lines.len() implies is_blank(
            #[trigger] lines[i],
        ) by {
            if i < rest.len() {
                assert(lines[i] == rest[i]);
            }
        }
    }
}

/// Sets one header in a list of lines.
fn apply_fix(lines: &mut Vec<String>, fix: &HeaderFix)
    ensures
        text::texts(final(lines)@) == with_fix(text::texts(old(lines)@), fix@),
{
    let ghost before = text::texts(lines@);
    let new_line = "  ".to_owned().concat(fix.header.as_str()).concat(": ").concat(
        fix.value.as_str(),
    );
    let n: usize = lines.len();
    proof {
        lemma_line_index(before, fix@.header);
    }
    let mut i: usize = 0;
    while i < n && !is_set_by(lines[i].as_str(), fix.header.as_str())
        invariant
            n == lines@.len(),
            before == text::texts(lines@),
            i <= line_index(before, fix@.header) <= n,
            forall|k: int|
                0 <= k < line_index(before, fix@.header) ==> !sets(
                    #[trigger] before[k],
                    fix@.header,
                ),
            line_index(before, fix@.header) < n ==> sets(
                before[line_index(before, fix@.header) as int],
                fix@.header,
            ),
        decreases n - i,
    {
        assert(before[i as int] == lines@[i as int]@);
        i = i + 1;
    }
    if i < n {
        assert(before[i as int] == lines@[i as int]@);
        lines.set(i, new_line);
        assert(text::texts(lines@) =~= with_fix(before, fix@));
    } else {
        text::push_text(lines, new_line);
    }
}

/// The number of lines up to the last one that is not blank.
fn count_content(lines: &Vec<String>) -> (r: usize)
    ensures
        r == content_len(text::texts(lines@)),
{
    let ghost all = text::texts(lines@);
    let mut n: usize = lines.len();
    assert(all.take(n as int) =~= all);
    while n > 0
        invariant
            n <= lines@.len(),
            all == text::texts(lines@),
            content_len(all) == content_len(all.take(n as int)),
        decreases n,
    {
        assert(all.take(n as int).last() == lines@[n - 1]@);
        assert(all.take(n as int).drop_last() =~= all.take(n - 1));
        let chars = text::to_chars(lines[n - 1].as_str());
        if text::trim_end(chars.as_slice()).len() > 0 {
            return n;
        }
        n = n - 1;
    }
    n
}

/// The lines of a block with every fix applied.
fn patch_lines(lines: &Vec<String>, fixes: &[HeaderFix]) -> (r: Vec<String>)
    ensures
        text::texts(r@) == patched_lines(
            text::texts(lines@),
            crate::headers::fix_views(fixes@),
        ),
{
    let ghost all = text::texts(lines@);
    let ghost views = crate::headers::fix_views(fixes@);
    let n = count_content(lines);
    proof {
        lemma_content_len(all);
    }
    let mut out: Vec<String> = Vec::new();
    assert(text::texts(out@) =~= all.take(0));
    for k in 0..n
        invariant
            n <= lines@.len(),
            all == text::texts(lines@),
            text::texts(out@) == all.take(k as int),
    {
        text::push_text(&mut out, lines[k].clone());
        assert(text::texts(out@) =~= all.take(k + 1));
    }
    assert(views.take(0) =~= Seq::<HeaderFixView>::empty());
    for k in 0..fixes.len()
        invariant
            views == crate::headers::fix_views(fixes@),
            text::texts(out@) == with_fixes(all.take(n as int), views.take(k as int)),
    {
        proof {
            assert(views.take(k + 1).drop_last() =~= views.take(k as int));
            assert(views.take(k + 1).last() == fixes@[k as int]@);
        }
        apply_fix(&mut out, &fixes[k]);
    }
    assert(views.take(views.len() as int) =~= views);
    let ghost patched_content = text::texts(out@);
    assert(patched_content + all.subrange(n as int, n as int) =~= patched_content);
    for k in n..lines.len()
        invariant
            n <= k <= lines@.len(),
            all == text::texts(lines@),
            text::texts(out@) == patched_content + all.subrange(n as int, k as int),
    {
        text::push_text(&mut out, lines[k].clone());
        assert(text::texts(out@) =~= patched_content + all.subrange(n as int, k + 1));
    }
    assert(all.subrange(n as int, all.len() as int) =~= all.skip(n as int));
    out
}

// ---------------------------------------------------------------------
// Patching
// ---------------------------------------------------------------------

/// The position of the first site-wide block, or the number of blocks.
pub open spec fn site_index(blocks: Seq<BlockView>) -> nat
    decreases blocks.len(),
{
    if blocks.len() == 0 || blocks[0].pattern() == SITE_WIDE_PATTERN@ {
        0
    } else {
        1 + site_index(blocks.drop_first())
    }
}

/// Whether a file has a site-wide block.
pub open spec fn has_site_block(contents: Seq<char>) -> bool {
    site_index(parsed(contents).blocks) < parsed(contents).blocks.len()
}

/// What stands between contents and a block added at their end: an empty line,
/// where there is anything before it.
pub open spec fn separator(contents: Seq<char>) -> Seq<char> {
    if contents.len() == 0 {
        ""@
    } else if contents.last() == '\n' {
        "\n"@
    } else {
        "\n\n"@
    }
}

/// Contents with a site-wide block: an empty one is added at the end where there
/// is none.
pub open spec fn with_site_block(contents: Seq<char>) -> Seq<char> {
    if has_site_block(contents) {
        contents
    } else {
        contents + separator(contents) + SITE_WIDE_PATTERN@ + "\n"@
    }
}

/// `file` with every fix applied to the first site-wide block.
pub open spec fn patched(file: HeadersFileView, fixes: Seq<HeaderFixView>) -> HeadersFileView {
    let i = site_index(file.blocks) as int;
    HeadersFileView {
        blocks: file.blocks.update(
            i,
            BlockView {
                heading: file.blocks[i].heading,
                lines: patched_lines(file.blocks[i].lines, fixes),
            },
        ),
        ..file
    }
}

/// The contents of a file after `fixes`.
pub open spec fn fixed_contents(existing: Seq<char>, fixes: Seq<HeaderFixView>) -> Seq<char> {
    if fixes.len() == 0 {
        existing
    } else {
        rendered(patched(parsed(with_site_block(existing)), fixes))
    }
}

/// What [`site_index`] finds.
pub proof fn lemma_site_index(blocks: Seq<BlockView>)
    ensures
        site_index(blocks) <= blocks.len(),
        forall|i: int|
            0 <= i < site_index(blocks) ==> (#[trigger] blocks[i]).pattern() != SITE_WIDE_PATTERN@,
        site_index(blocks) < blocks.len() ==> blocks[site_index(blocks) as int].pattern()
            == SITE_WIDE_PATTERN@,
    decreases blocks.len(),
{
    if blocks.len() > 0 && blocks[0].pattern() != SITE_WIDE_PATTERN@ {
        let rest = blocks.drop_first();
        lemma_site_index(rest);
        assert forall|i: int| 0 <= i < site_index(blocks) implies (#[trigger] blocks[i]).pattern()
            != SITE_WIDE_PATTERN@ by {
            if i > 0 {
                assert(blocks[i] == rest[i - 1]);
            }
        }
        if site_index(blocks) < blocks.len() {
            assert(blocks[site_index(blocks) as int] == rest[site_index(rest) as int]);
        }
    }
}

/// The lines of contents to which a site-wide block is added: what was there,
/// perhaps an empty line, the pattern and an empty line.
proof fn lemma_added_lines(contents: Seq<char>)
    ensures
        ({
            let base = contents + separator(contents) + SITE_WIDE_PATTERN@ + "\n"@;
            let old_lines = if contents.len() == 0 {
                Seq::empty()
            } else if contents.last() == '\n' {
                text::pieces(contents, '\n')
            } else {
                text::pieces(contents, '\n').push(Seq::empty())
            };
            text::pieces(base, '\n') == old_lines.push(SITE_WIDE_PATTERN@).push(Seq::empty())
        }),
{
    reveal_strlit("");
    reveal_strlit("\n");
    reveal_strlit("\n\n");
    reveal_strlit("/*");
    let nothing = Seq::<char>::empty();
    let pattern = SITE_WIDE_PATTERN@;
    let base = contents + separator(contents) + pattern + "\n"@;
    assert(!pattern.contains('\n'));
    text::lemma_pieces_of_one(pattern, '\n');
    assert(pattern.push('\n') + nothing =~= pattern.push('\n'));
    text::lemma_pieces_join(pattern, nothing, '\n');
    let tail = pattern.push('\n');
    assert(text::pieces(nothing, '\n') =~= seq![nothing]);
    assert(text::pieces(tail, '\n') =~= seq![pattern, nothing]);
    if contents.len() == 0 {
        assert(base =~= tail);
        assert(text::pieces(base, '\n') =~= Seq::<Seq<char>>::empty().push(pattern).push(nothing));
    } else if contents.last() == '\n' {
        assert(base =~= contents.push('\n') + tail);
        text::lemma_pieces_join(contents, tail, '\n');
        assert(text::pieces(base, '\n') =~= text::pieces(contents, '\n').push(pattern).push(
            nothing,
        ));
    } else {
        assert(contents.push('\n') + nothing =~= contents.push('\n'));
        text::lemma_pieces_join(contents, nothing, '\n');
        assert(base =~= contents.push('\n').push('\n') + tail);
        text::lemma_pieces_join(contents.push('\n'), tail, '\n');
        assert(text::pieces(base, '\n') =~= text::pieces(contents, '\n').push(nothing).push(
            pattern,
        ).push(nothing));
    }
}

/// There is a site-wide block to patch. One that was added is the last block of
/// the file, with one empty line.
pub proof fn lemma_site_block_is_there(existing: Seq<char>)
    ensures
        has_site_block(with_site_block(existing)),
        !has_site_block(existing) ==> {
            let blocks = parsed(with_site_block(existing)).blocks;
            &&& site_index(blocks) == blocks.len() - 1
            &&& blocks.last() == (BlockView {
                heading: SITE_WIDE_PATTERN@,
                lines: seq![Seq::<char>::empty()],
            })
        },
{
    if !has_site_block(existing) {
        let nothing = Seq::<char>::empty();
        let pattern = SITE_WIDE_PATTERN@;
        let base = with_site_block(existing);
        lemma_added_lines(existing);
        let before = text::pieces(existing, '\n');
        let old_lines = if existing.len() == 0 {
            Seq::empty()
        } else if existing.last() == '\n' {
            before
        } else {
            before.push(nothing)
        };
        let lines = text::pieces(base, '\n');
        assert(lines.drop_last() =~= old_lines.push(pattern));
        assert(old_lines.push(pattern).drop_last() =~= old_lines);
        let old_file = file_of_lines(old_lines);
        assert(opens(pattern) && pattern == text::trimmed_end(pattern)) by {
            reveal_strlit("/*");
        }
        let with_pattern = with_line(old_file, pattern);
        assert(file_of_lines(lines.drop_last()) == with_pattern);
        let blocks = parsed(base).blocks;
        assert(with_pattern.blocks.drop_last() =~= old_file.blocks);
        assert(Seq::<Seq<char>>::empty().push(nothing) =~= seq![nothing]);
        assert(blocks =~= old_file.blocks.push(
            BlockView { heading: pattern, lines: seq![nothing] },
        ));
        lemma_site_index(parsed(existing).blocks);
        assert forall|i: int| 0 <= i < old_file.blocks.len() implies (
        #[trigger] old_file.blocks[i]).pattern() != pattern by {
            if old_lines == before.push(nothing) {
                assert(before.push(nothing).drop_last() =~= before);
                assert(old_file == with_line(parsed(existing), nothing));
                assert(old_file.blocks[i].heading == parsed(existing).blocks[i].heading);
            }
            assert(parsed(existing).blocks[i].pattern() != pattern);
        }
        lemma_site_index(blocks);
        let s = site_index(blocks) as int;
        assert(blocks[blocks.len() - 1].pattern() == pattern);
        if s < blocks.len() - 1 {
            assert(blocks[s] == old_file.blocks[s]);
        }
    }
}

/// The position of the first site-wide block, or the number of blocks.
fn site_position(blocks: &Vec<Block>) -> (r: usize)
    ensures
        r == site_index(block_views(blocks@)),
{
    let ghost all = block_views(blocks@);
    proof {
        lemma_site_index(all);
    }
    let pattern = text::to_chars(SITE_WIDE_PATTERN);
    let n: usize = blocks.len();
    let mut i: usize = 0;
    while i < n && !text::same_chars(
        text::trim_end(text::to_chars(blocks[i].heading.as_str()).as_slice()),
        pattern.as_slice(),
    )
        invariant
            n == blocks@.len(),
            all == block_views(blocks@),
            pattern@ == SITE_WIDE_PATTERN@,
            i <= site_index(all) <= n,
            forall|k: int|
                0 <= k < site_index(all) ==> (#[trigger] all[k]).pattern() != SITE_WIDE_PATTERN@,
            site_index(all) < n ==> all[site_index(all) as int].pattern() == SITE_WIDE_PATTERN@,
        decreases n - i,
    {
        assert(all[i as int] == blocks@[i as int]@);
        i = i + 1;
    }
    if i < n {
        assert(all[i as int] == blocks@[i as int]@);
    }
    i
}

/// Contents with a site-wide block at their end.
fn add_site_block(existing: &str) -> (r: String)
    ensures
        r@ == existing@ + separator(existing@) + SITE_WIDE_PATTERN@ + "\n"@,
{
    let chars = text::to_chars(existing);
    let gap = if chars.len() == 0 {
        ""
    } else if chars[chars.len() - 1] == '\n' {
        "\n"
    } else {
        "\n\n"
    };
    existing.to_owned().concat(gap).concat(SITE_WIDE_PATTERN).concat("\n")
}

/// Applies `fixes` to the site-wide block of a `_headers` file, adding that
/// block where there is none, and returns the new contents. Without fixes the
/// contents stay as they are.
pub fn apply_fixes(existing: &str, fixes: &[HeaderFix]) -> (r: String)
    ensures
        r@ == fixed_contents(existing@, crate::headers::fix_views(fixes@)),
{
    if fixes.len() == 0 {
        return existing.to_owned();
    }
    proof {
        lemma_site_block_is_there(existing@);
    }
    let mut file = parse_blocks(existing);
    let mut i: usize = site_position(&file.blocks);
    if i >= file.blocks.len() {
        let base = add_site_block(existing);
        file = parse_blocks(base.as_str());
        i = site_position(&file.blocks);
    }
    let ghost before = file@;
    assert(before == parsed(with_site_block(existing@)));
    let lines = patch_lines(&file.blocks[i].lines, fixes);
    let heading = file.blocks[i].heading.clone();
    file.blocks.set(i, Block { heading, lines });
    assert(file@ =~= patched(before, crate::headers::fix_views(fixes@)));
    render(&file)
}

} // verus!
