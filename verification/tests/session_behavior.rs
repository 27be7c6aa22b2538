use dms_fetch::operator::{parse_operator_choice, OperatorChoice};
use dms_fetch::session::{Session, SessionError, SessionEvent, WaitOutcome};

#[test]
fn prompt_reached_needs_separator_before_prompt() {
    let mut s = Session::new();
    s.absorb(b"hello\nREQ");
    assert!(s.prompt_reached(b"REQ"));
}

#[test]
fn prompt_reached_accepts_carriage_return_separator() {
    let mut s = Session::new();
    s.absorb(b"hello\rREQ");
    assert!(s.prompt_reached(b"REQ"));
}

#[test]
fn prompt_alone_without_separator_is_no_match() {
    let mut s = Session::new();
    s.absorb(b"REQ");
    assert!(!s.prompt_reached(b"REQ"));
}

#[test]
fn other_separator_bytes_are_no_match() {
    let mut s = Session::new();
    s.absorb(b"hello REQ");
    assert!(!s.prompt_reached(b"REQ"));
}

#[test]
fn prompt_must_be_at_the_very_end() {
    let mut s = Session::new();
    s.absorb(b"\nREQ more");
    assert!(!s.prompt_reached(b"REQ"));
}

#[test]
fn drain_returns_everything_and_leaves_buffer_empty() {
    let mut s = Session::new();
    s.note_sent(b"que\n");
    s.absorb(b"reply\n");
    let first = s.drain();
    assert_eq!(first, b"que\nreply\n".to_vec());
    let second = s.drain();
    assert_eq!(second, Vec::<u8>::new());
}

#[test]
fn sent_bytes_are_echoed_into_the_buffer() {
    let mut s = Session::new();
    s.note_sent(b"que\n");
    s.absorb(b"    TYP   ");
    // The echoed command's trailing line feed is the separator the match
    // rule wants, exactly as on a real terminal.
    assert!(s.prompt_reached(b"    TYP   "));
    assert_eq!(s.drain(), b"que\n    TYP   ".to_vec());
}

#[test]
fn stall_tail_keeps_only_the_last_bytes() {
    let mut s = Session::new();
    s.absorb(b"abcdefgh");
    assert_eq!(s.stall_tail(3), b"fgh".to_vec());
    assert_eq!(s.stall_tail(100), b"abcdefgh".to_vec());
}

#[test]
fn on_event_pends_until_the_prompt_arrives() {
    let mut s = Session::new();
    s.note_sent(b"que\n");
    let r = s.on_event(b"TYP", SessionEvent::Received(b"partial".to_vec()));
    assert!(matches!(r, WaitOutcome::Pending));
    let r = s.on_event(b"TYP", SessionEvent::Received(b"\nTYP".to_vec()));
    match r {
        WaitOutcome::Matched(out) => assert_eq!(out, b"que\npartial\nTYP".to_vec()),
        _ => panic!("expected a match"),
    }
    assert_eq!(s.drain(), Vec::<u8>::new());
}

#[test]
fn on_event_close_is_fatal() {
    let mut s = Session::new();
    s.absorb(b"half a reply");
    let r = s.on_event(b"REQ", SessionEvent::Closed);
    assert!(matches!(r, WaitOutcome::Failed(SessionError::RemoteClosed)));
    assert_eq!(s.drain(), b"half a reply".to_vec());
}

#[test]
fn on_event_read_failure_is_fatal() {
    let mut s = Session::new();
    let r = s.on_event(b"REQ", SessionEvent::ReadFailed);
    assert!(matches!(r, WaitOutcome::Failed(SessionError::TransportRead)));
}

#[test]
fn operator_choice_w_keeps_waiting() {
    assert_eq!(parse_operator_choice("w\n"), Some(OperatorChoice::KeepWaiting));
}

#[test]
fn operator_choice_r_repeats() {
    assert_eq!(parse_operator_choice("r"), Some(OperatorChoice::Repeat));
}

#[test]
fn operator_choice_n_advances() {
    assert_eq!(parse_operator_choice("n \r\n"), Some(OperatorChoice::Next));
}

#[test]
fn operator_gibberish_is_no_choice() {
    assert_eq!(parse_operator_choice("x\n"), None);
    assert_eq!(parse_operator_choice(""), None);
    assert_eq!(parse_operator_choice("rr\n"), None);
    assert_eq!(parse_operator_choice(" r\n"), None);
}
