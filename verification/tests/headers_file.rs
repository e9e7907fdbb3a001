use outpost::headers::HeaderFix;
use outpost::headers_file::{apply_fixes, header_name, parse_blocks, render};

fn fix(header: &str, value: &str) -> HeaderFix {
    HeaderFix {
        header: header.to_string(),
        value: value.to_string(),
        reason: "test".to_string(),
    }
}

#[test]
fn creates_site_wide_block_in_empty_file() {
    let result = apply_fixes("", &[fix("X-Frame-Options", "DENY")]);
    assert_eq!(result, "/*\n  X-Frame-Options: DENY\n");
}

#[test]
fn appends_to_existing_site_wide_block() {
    let existing = "/*\n  X-Content-Type-Options: nosniff\n";
    let result = apply_fixes(existing, &[fix("X-Frame-Options", "DENY")]);
    assert_eq!(
        result,
        "/*\n  X-Content-Type-Options: nosniff\n  X-Frame-Options: DENY\n"
    );
}

#[test]
fn replaces_existing_header_value_in_place_case_insensitively() {
    let existing = "/*\n  strict-transport-security: max-age=60\n";
    let result = apply_fixes(
        existing,
        &[fix("Strict-Transport-Security", "max-age=31536000")],
    );
    assert_eq!(
        result,
        "/*\n  Strict-Transport-Security: max-age=31536000\n"
    );
}

#[test]
fn preserves_other_path_blocks_untouched() {
    let existing = "/api/*\n  Cache-Control: no-store\n\n/*\n  X-Content-Type-Options: nosniff\n";
    let result = apply_fixes(existing, &[fix("X-Frame-Options", "DENY")]);
    assert!(result.contains("/api/*\n  Cache-Control: no-store\n"));
    assert!(result.contains("X-Frame-Options: DENY"));
}

#[test]
fn no_fixes_leaves_file_byte_for_byte_unchanged() {
    let existing = "/*\n  X-Content-Type-Options: nosniff\n";
    let result = apply_fixes(existing, &[]);
    assert_eq!(result, existing);
}

#[test]
fn multiple_fixes_in_one_pass() {
    let result = apply_fixes(
        "",
        &[
            fix("X-Frame-Options", "DENY"),
            fix("X-Content-Type-Options", "nosniff"),
        ],
    );
    assert_eq!(
        result,
        "/*\n  X-Frame-Options: DENY\n  X-Content-Type-Options: nosniff\n"
    );
}

#[test]
fn a_missing_site_wide_block_is_added_at_the_end() {
    let existing = "/api/*\n  Cache-Control: no-store\n";
    let result = apply_fixes(existing, &[fix("X-Frame-Options", "DENY")]);
    assert_eq!(
        result,
        "/api/*\n  Cache-Control: no-store\n\n/*\n  X-Frame-Options: DENY\n"
    );
}

#[test]
fn applying_twice_changes_nothing_more() {
    let existing = "/a\n  X: 1\n\n/*\n  x-frame-options: SAMEORIGIN\n  Y: 2\n\n/b\n  Z: 3\n";
    let fixes = [fix("X-Frame-Options", "DENY"), fix("W", "4")];
    let once = apply_fixes(existing, &fixes);
    assert_eq!(
        once,
        "/a\n  X: 1\n\n/*\n  X-Frame-Options: DENY\n  Y: 2\n  W: 4\n\n/b\n  Z: 3\n"
    );
    assert_eq!(apply_fixes(&once, &fixes), once);
}

#[test]
fn other_blocks_stay_byte_for_byte() {
    let existing =
        "/api/*\n    Cache-Control: no-store\n\n/*\n  X-Content-Type-Options: nosniff\n";
    let result = apply_fixes(existing, &[fix("X-Frame-Options", "DENY")]);
    assert_eq!(
        result,
        "/api/*\n    Cache-Control: no-store\n\n/*\n  X-Content-Type-Options: nosniff\n  X-Frame-Options: DENY\n"
    );
}

#[test]
fn white_space_line_breaks_and_leading_lines_stay() {
    let existing = "  stray: 1\r\n\n\n/a \r\n\tX: 1  \r\n\r\n\r\n/*\r\n\tY: 2\r\n\n\n/b\n      Z: 3";
    let result = apply_fixes(existing, &[fix("W", "4")]);
    assert_eq!(
        result,
        "  stray: 1\r\n\n\n/a \r\n\tX: 1  \r\n\r\n\r\n/*\r\n\tY: 2\r\n  W: 4\n\n\n/b\n      Z: 3"
    );
}

#[test]
fn other_lines_of_the_site_wide_block_stay() {
    let existing = "/*\n\n      A:1\n\n\tx-frame-options : SAMEORIGIN\n  not a header\n\n";
    let result = apply_fixes(existing, &[fix("X-Frame-Options", "DENY"), fix("B", "2")]);
    assert_eq!(
        result,
        "/*\n\n      A:1\n\n  X-Frame-Options: DENY\n  not a header\n  B: 2\n\n"
    );
}

#[test]
fn only_the_first_site_wide_block_and_line_are_patched() {
    let existing = "/*\n  A: 1\n  A: 2\n/*\n  A: 3\n";
    assert_eq!(
        apply_fixes(existing, &[fix("a", "9")]),
        "/*\n  a: 9\n  A: 2\n/*\n  A: 3\n"
    );
}

#[test]
fn a_file_without_a_last_line_break_is_patched_in_place() {
    assert_eq!(
        apply_fixes("/*\n  A: 1", &[fix("B", "2")]),
        "/*\n  A: 1\n  B: 2"
    );
    assert_eq!(apply_fixes("/*", &[fix("B", "2")]), "/*\n  B: 2");
    assert_eq!(
        apply_fixes("/a\n  A: 1", &[fix("B", "2")]),
        "/a\n  A: 1\n\n/*\n  B: 2\n"
    );
}

#[test]
fn a_file_that_is_read_and_written_is_unchanged() {
    for contents in [
        "",
        "\n",
        "  x\n",
        "/a\n    X: 1\r\n\n\n/*\n\tY: 2",
        "\n/*\n\n",
    ] {
        let file = parse_blocks(contents);
        assert_eq!(render(&file), contents);
    }
    let file = parse_blocks("  x\n/a \n  X: 1\n\n/*\n");
    assert_eq!(file.preamble, vec!["  x"]);
    assert_eq!(file.blocks.len(), 2);
    assert_eq!(file.blocks[0].heading, "/a ");
    assert_eq!(file.blocks[0].lines, vec!["  X: 1", ""]);
    assert_eq!(file.blocks[1].heading, "/*");
}

#[test]
fn header_names_end_at_the_colon() {
    assert_eq!(header_name("  X-Frame-Options : DENY"), "X-Frame-Options");
    assert_eq!(header_name("no colon "), "no colon");
}
