use codex_acp::block::{read_block, read_indent_block, trim_empty_lines, IndentationArgs};
use codex_acp::cli::SessionPersistCli;
use codex_acp::defaults;
use codex_acp::error::ReadError;
use codex_acp::lines::{collect_file_lines, compute_effective_indents, split_lines};
use codex_acp::slice::{read_slice, validate_window};
use codex_acp::text::{format_line, measure_indent, take_bytes_at_char_boundary};
use codex_acp::tools::ensure_read_file_tool_enabled;

fn chars(s: &str) -> Vec<char> {
    s.chars().collect()
}

fn options() -> IndentationArgs {
    IndentationArgs::default()
}

#[test]
fn slice_returns_window_numbered_from_offset() {
    // The fetched window of a ten-line file, from line 3 on, two lines long.
    let out = read_slice("line 3\nline 4\n", 3, 2).unwrap();
    assert_eq!(out, vec!["L3: line 3".to_string(), "L4: line 4".to_string()]);
}

#[test]
fn slice_keeps_at_most_limit_lines() {
    let out = read_slice("a\nb\nc\nd\n", 7, 2).unwrap();
    assert_eq!(out, vec!["L7: a".to_string(), "L8: b".to_string()]);
}

#[test]
fn slice_of_empty_file_fails() {
    let err = read_slice("", 1, 2000).unwrap_err();
    assert_eq!(err, ReadError::SliceEmpty);
    assert_eq!(err.message(), "offset exceeds file length or file is empty");
}

#[test]
fn slice_rejects_zero_offset_and_limit() {
    assert_eq!(read_slice("a\n", 0, 5).unwrap_err(), ReadError::OffsetZero);
    assert_eq!(read_slice("a\n", 1, 0).unwrap_err(), ReadError::LimitZero);
}

#[test]
fn slice_strips_carriage_returns_and_truncates() {
    let long = "é".repeat(300);
    let content = format!("one\r\n{}\n", long);
    let out = read_slice(&content, 1, 10).unwrap();
    assert_eq!(out[0], "L1: one");
    assert_eq!(out[1], format!("L2: {}", "é".repeat(250)));
}

#[test]
fn window_checks_come_in_order() {
    assert_eq!(validate_window(0, 0), Err(ReadError::OffsetZero));
    assert_eq!(validate_window(1, 0), Err(ReadError::LimitZero));
    assert_eq!(validate_window(1, 1), Ok(()));
}

#[test]
fn siblings_with_one_level_reach_outer_lines() {
    // Indents 0, 4, 4, 4, 0; anchor on line 3; one level up is depth 0,
    // so every line of the file is deep enough.
    let content = "fn a() {\n    one\n    two\n    three\n}\n";
    let opts = IndentationArgs {
        anchor_line: Some(3),
        max_levels: 1,
        include_siblings: true,
        ..options()
    };
    let out = read_indent_block(content, 3, 2000, &opts).unwrap();
    assert_eq!(
        out,
        vec!["L1: fn a() {", "L2:     one", "L3:     two", "L4:     three", "L5: }"]
    );
}

#[test]
fn deeper_threshold_keeps_the_inner_block() {
    let content = "top\n    a\n        b\n        c\n    d\nend\n";
    let opts = IndentationArgs {
        anchor_line: Some(3),
        max_levels: 1,
        include_siblings: true,
        ..options()
    };
    let out = read_indent_block(content, 3, 2000, &opts).unwrap();
    assert_eq!(out, vec!["L2:     a", "L3:         b", "L4:         c", "L5:     d"]);
}

#[test]
fn anchor_past_end_fails() {
    let opts = IndentationArgs { anchor_line: Some(9), ..options() };
    let err = read_indent_block("a\nb\n", 1, 10, &opts).unwrap_err();
    assert_eq!(err, ReadError::AnchorPastEnd);
    assert_eq!(err.message(), "anchor_line exceeds file length");
    let zero = IndentationArgs { anchor_line: Some(0), ..options() };
    assert_eq!(read_indent_block("a\nb\n", 1, 10, &zero).unwrap_err(), ReadError::AnchorPastEnd);
}

#[test]
fn max_lines_one_gives_the_anchor() {
    let content = "a\n    b\n    c\n    d\ne\n";
    let opts = IndentationArgs { anchor_line: Some(4), max_lines: Some(1), ..options() };
    let out = read_indent_block(content, 1, 2000, &opts).unwrap();
    assert_eq!(out, vec!["L4:     d"]);
}

#[test]
fn comment_header_kept_and_one_boundary_below() {
    let content = "x = 0\n# one\n# two\n    a\n    b\ny = 1\nz = 2\n";
    let opts = IndentationArgs { anchor_line: Some(5), ..options() };
    let out = read_indent_block(content, 1, 2000, &opts).unwrap();
    assert_eq!(
        out,
        vec!["L2: # one", "L3: # two", "L4:     a", "L5:     b", "L6: y = 1"]
    );
}

#[test]
fn comment_header_dropped_without_include_header() {
    let content = "x = 0\n# one\n# two\n    a\n    b\ny = 1\nz = 2\n";
    let opts = IndentationArgs { anchor_line: Some(5), include_header: false, ..options() };
    let out = read_indent_block(content, 1, 2000, &opts).unwrap();
    assert_eq!(out, vec!["L3: # two", "L4:     a", "L5:     b", "L6: y = 1"]);
}

#[test]
fn blank_lines_do_not_close_the_block_and_are_trimmed() {
    let content = "\ndef f():\n    a\n\n    b\n\n";
    let opts = IndentationArgs { anchor_line: Some(3), max_levels: 1, ..options() };
    let out = read_indent_block(content, 1, 2000, &opts).unwrap();
    assert_eq!(out, vec!["L2: def f():", "L3:     a", "L4: ", "L5:     b"]);
}

#[test]
fn limit_bounds_the_block() {
    let content = "a\n    b\n    c\n    d\n    e\nf\n";
    let opts = IndentationArgs { anchor_line: Some(3), ..options() };
    let out = read_indent_block(content, 1, 3, &opts).unwrap();
    assert_eq!(out, vec!["L2:     b", "L3:     c", "L4:     d"]);
}

#[test]
fn indentation_errors() {
    assert_eq!(read_indent_block("", 1, 10, &options()).unwrap_err(), ReadError::EmptyFile);
    assert_eq!(ReadError::EmptyFile.message(), "file is empty; nothing to read");
    assert_eq!(read_indent_block("a\n", 0, 10, &options()).unwrap_err(), ReadError::OffsetZero);
    assert_eq!(read_indent_block("a\n", 3, 10, &options()).unwrap_err(), ReadError::OffsetPastEnd);
    assert_eq!(ReadError::OffsetPastEnd.message(), "offset exceeds file length");
    let zero = IndentationArgs { max_lines: Some(0), ..options() };
    assert_eq!(read_indent_block("a\n", 1, 10, &zero).unwrap_err(), ReadError::MaxLinesZero);
    assert_eq!(read_indent_block("a\n", 1, 0, &options()).unwrap_err(), ReadError::MaxLinesZero);
    let capped = IndentationArgs { max_lines: Some(3), ..options() };
    assert_eq!(read_indent_block("a\n", 1, 0, &capped).unwrap_err(), ReadError::LimitZero);
}

#[test]
fn repeated_requests_agree() {
    let content = "a\n    b\n    c\nd\n";
    let opts = IndentationArgs { anchor_line: Some(2), ..options() };
    let first = read_indent_block(content, 1, 100, &opts).unwrap();
    let second = read_indent_block(content, 1, 100, &opts).unwrap();
    assert_eq!(first, second);
    assert_eq!(read_slice(content, 2, 2), read_slice(content, 2, 2));
}

#[test]
fn records_are_numbered_and_measured() {
    let recs = collect_file_lines("a\r\n\t b\n  # c\n   \n");
    assert_eq!(recs.len(), 4);
    assert_eq!(recs[1].number, 2);
    assert_eq!(recs[0].raw, chars("a"));
    assert_eq!(recs[1].indent, 5);
    assert_eq!(recs[1].display, "\t b");
    assert_eq!(recs[1].trimmed(), chars("b"));
    assert!(recs[2].is_comment());
    assert!(!recs[1].is_comment());
    assert!(recs[3].is_blank());
    assert!(!recs[0].is_blank());
}

#[test]
fn comment_markers() {
    let recs = collect_file_lines("-- sql\n// c\n#x\n- y\n/ z\n");
    let flags: Vec<bool> = recs.iter().map(|r| r.is_comment()).collect();
    assert_eq!(flags, vec![true, true, true, false, false]);
}

#[test]
fn effective_indents_carry_over_blank_lines() {
    let recs = collect_file_lines("\n    a\n\n        b\n \nc\n");
    assert_eq!(compute_effective_indents(&recs), vec![0, 4, 4, 8, 8, 0]);
}

#[test]
fn trim_drops_blank_ends() {
    let recs = collect_file_lines("\n \na\n\nb\n\t\n");
    assert_eq!(trim_empty_lines(&recs, 0, 6), (2, 5));
    assert_eq!(trim_empty_lines(&recs, 0, 2), (2, 2));
}

#[test]
fn read_block_on_records() {
    let recs = collect_file_lines("a\n    b\nc\n");
    let opts = IndentationArgs { anchor_line: Some(2), ..options() };
    let out = read_block(&recs, 1, 10, &opts).unwrap();
    assert_eq!(out, vec!["L1: a", "L2:     b", "L3: c"]);
}

#[test]
fn splitting_lines() {
    assert_eq!(split_lines("a\nb\r\r\n\nc"), vec!["a", "b", "", "c"]);
    assert_eq!(split_lines("x\n"), vec!["x"]);
    assert_eq!(split_lines("\n"), vec![""]);
    assert!(split_lines("").is_empty());
}

#[test]
fn indent_width_counts_tabs() {
    assert_eq!(measure_indent(&chars("\t  x")), 6);
    assert_eq!(measure_indent(&chars("x  ")), 0);
    assert_eq!(measure_indent(&chars("")), 0);
}

#[test]
fn truncation_keeps_whole_characters() {
    let s = format!("{}é", "a".repeat(499));
    assert_eq!(format_line(&chars(&s)), chars(&"a".repeat(499)));
    assert_eq!(take_bytes_at_char_boundary(&chars("héllo"), 3), chars("hé"));
    assert_eq!(take_bytes_at_char_boundary(&chars("héllo"), 2), chars("h"));
    let short = chars("short");
    assert_eq!(format_line(&short), short);
}

#[test]
fn session_persist_flags() {
    let none = SessionPersistCli::new(None, false);
    assert_eq!(none.flag(), None);
    assert_eq!(none.path(), None);
    let bare = SessionPersistCli::new(Some(None), false);
    assert_eq!(bare.flag(), Some(true));
    assert_eq!(bare.path(), None);
    let dir = SessionPersistCli::new(Some(Some("/tmp/s".to_string())), false);
    assert_eq!(dir.flag(), Some(true));
    assert_eq!(dir.path(), Some("/tmp/s".to_string()));
    let off = SessionPersistCli::new(Some(Some("/tmp/s".to_string())), true);
    assert_eq!(off.flag(), Some(false));
    assert_eq!(SessionPersistCli::default().flag(), None);
}

#[test]
fn request_defaults() {
    assert_eq!(defaults::offset(), 1);
    assert_eq!(defaults::limit(), 2000);
    assert_eq!(defaults::max_levels(), 0);
    assert!(!defaults::include_siblings());
    assert!(defaults::include_header());
    let opts = IndentationArgs::default();
    assert_eq!(opts.anchor_line, None);
    assert_eq!(opts.max_lines, None);
}

#[test]
fn tool_list_gains_read_file_once() {
    let mut tools = vec!["shell".to_string()];
    ensure_read_file_tool_enabled(&mut tools);
    assert_eq!(tools, vec!["shell".to_string(), "read_file".to_string()]);
    ensure_read_file_tool_enabled(&mut tools);
    assert_eq!(tools.len(), 2);
}

#[test]
fn session_persist_round_trip() {
    let dir = SessionPersistCli::new(Some(Some("/var/m".to_string())), true);
    assert_eq!(dir.session_persist(), Some(Some("/var/m".to_string())));
    assert!(dir.no_session_persist());
    let bare = SessionPersistCli::new(Some(None), false);
    assert_eq!(bare.session_persist(), Some(None));
    assert!(!bare.no_session_persist());
}

#[test]
fn blank_anchor_at_edge_is_trimmed_away() {
    let out = read_indent_block("    a\n\n", 2, 10, &options()).unwrap();
    assert_eq!(out, vec!["L1:     a"]);
}
