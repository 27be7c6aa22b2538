use dms_fetch::normalize::{
    clean_capture, normalize_lines, render_lines, split_lines, strip_cr, trim_header,
    trim_trailing_prompt,
};

fn lines_of(strs: &[&[u8]]) -> Vec<Vec<u8>> {
    strs.iter().map(|s| s.to_vec()).collect()
}

#[test]
fn split_keeps_text_between_line_feeds() {
    assert_eq!(split_lines(b"a\nbc\nd"), lines_of(&[b"a", b"bc", b"d"]));
}

#[test]
fn split_of_empty_input_is_one_empty_line() {
    assert_eq!(split_lines(b""), lines_of(&[b""]));
}

#[test]
fn split_trailing_line_feed_makes_a_trailing_empty_line() {
    assert_eq!(split_lines(b"a\n"), lines_of(&[b"a", b""]));
}

#[test]
fn strip_cr_removes_every_leading_and_trailing_carriage_return() {
    assert_eq!(strip_cr(b"\r\rdata\r\r\r"), b"data".to_vec());
}

#[test]
fn strip_cr_keeps_interior_carriage_returns() {
    assert_eq!(strip_cr(b"\ra\rb\r"), b"a\rb".to_vec());
}

#[test]
fn strip_cr_of_only_carriage_returns_is_empty() {
    assert_eq!(strip_cr(b"\r\r\r"), Vec::<u8>::new());
}

#[test]
fn strip_cr_leaves_clean_lines_alone() {
    assert_eq!(strip_cr(b"data"), b"data".to_vec());
    assert_eq!(strip_cr(b""), Vec::<u8>::new());
}

#[test]
fn header_trim_discards_everything_before_the_marker() {
    let mut lines = lines_of(&[b"junk", b"  # START", b"data"]);
    trim_header(&mut lines);
    assert_eq!(lines, lines_of(&[b"  # START", b"data"]));
}

#[test]
fn header_trim_without_marker_keeps_all_lines() {
    let mut lines = lines_of(&[b"junk", b"more junk"]);
    trim_header(&mut lines);
    assert_eq!(lines, lines_of(&[b"junk", b"more junk"]));
}

#[test]
fn trailing_prompt_trim_drops_the_blank_and_the_prompt() {
    let mut lines = lines_of(&[b"data", b"    ", b"    REQ   "]);
    trim_trailing_prompt(&mut lines);
    assert_eq!(lines, lines_of(&[b"data"]));
}

#[test]
fn trailing_prompt_trim_needs_both_final_lines_exact() {
    let mut lines = lines_of(&[b"data", b"   ", b"    REQ   "]);
    trim_trailing_prompt(&mut lines);
    assert_eq!(lines, lines_of(&[b"data", b"   ", b"    REQ   "]));

    let mut lines = lines_of(&[b"data", b"    ", b"    REQ  "]);
    trim_trailing_prompt(&mut lines);
    assert_eq!(lines, lines_of(&[b"data", b"    ", b"    REQ  "]));
}

#[test]
fn render_terminates_every_line_with_one_line_feed() {
    assert_eq!(render_lines(&lines_of(&[b"a", b"bc"])), b"a\nbc\n".to_vec());
    assert_eq!(render_lines(&lines_of(&[])), Vec::<u8>::new());
}

#[test]
fn normalize_runs_the_whole_pipeline() {
    let raw = b"login noise\r\n  # QUE\r\ndata line\r\n    \n    REQ   ";
    let lines = normalize_lines(raw);
    assert_eq!(lines, lines_of(&[b"  # QUE", b"data line"]));
    assert_eq!(clean_capture(raw), b"  # QUE\ndata line\n".to_vec());
}
