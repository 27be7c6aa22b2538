use dms_fetch::fetcher::{Exchange, Fetcher};
use dms_fetch::normalize::clean_capture;
use dms_fetch::operator::{parse_operator_choice, OperatorChoice};
use dms_fetch::session::{Session, SessionEvent, WaitOutcome};

/// Replay one step: echo the outbound bytes, feed the scripted remote reply,
/// and record the drained segment once the step's prompt matches.
fn drive_step(f: &Fetcher, s: &mut Session, e: &mut Exchange, reply: &[u8]) {
    let step = e.current_step(f);
    let send = step.send_bytes().clone();
    let expect = step.expect_bytes().clone();
    s.note_sent(&send);
    match s.on_event(&expect, SessionEvent::Received(reply.to_vec())) {
        WaitOutcome::Matched(segment) => e.record(f, &segment),
        _ => panic!("the scripted reply should have completed the step"),
    }
}

#[test]
fn no_prompt_exchange_end_to_end() {
    let f = Fetcher::common_dmo_no_prompt("cnfg", "cnfg");
    assert_eq!(f.filename(), &b"CNFG/CNFG.txt".to_vec());

    let mut s = Session::new();
    let mut e = f.begin();
    // Each scripted reply ends with the step's expected prompt; the echoed
    // command before it ends with a line feed, so the tail rule matches.
    drive_step(&f, &mut s, &mut e, b"  # ");
    drive_step(&f, &mut s, &mut e, b"    REQ   ");
    drive_step(&f, &mut s, &mut e, b"    TYP   ");
    drive_step(&f, &mut s, &mut e, b"  # CNFG\ndata1\r\ndata2\n    \n    REQ   ");
    assert!(e.is_done(&f));

    let captured = e.into_output();
    assert_eq!(
        clean_capture(&captured),
        b"  # ovly cnfg\n    REQ   que\n    TYP   cnfg\n  # CNFG\ndata1\ndata2\n".to_vec()
    );
}

#[test]
fn cancellation_with_r_restarts_from_the_first_step() {
    let f = Fetcher::common_dmo_no_prompt("cnfg", "cnfg");
    let mut s = Session::new();

    // First attempt: one completed step, then a partial wait.
    let mut first = f.begin();
    drive_step(&f, &mut s, &mut first, b"  # ");
    let step = first.current_step(&f);
    let expect = step.expect_bytes().clone();
    s.note_sent(step.send_bytes().clone().as_slice());
    let r = s.on_event(&expect, SessionEvent::Received(b"half a reply".to_vec()));
    assert!(matches!(r, WaitOutcome::Pending));

    // Mid-wait signal; the operator answers `r`.
    assert_eq!(parse_operator_choice("r\n"), Some(OperatorChoice::Repeat));

    // The restarted attempt begins at step 0 with nothing accumulated; the
    // session keeps its buffered-but-unread bytes, so the first reply of the
    // fresh attempt drains them along with its own.
    let mut second = f.begin();
    assert!(!second.is_done(&f));
    drive_step(&f, &mut s, &mut second, b"  # ");
    drive_step(&f, &mut s, &mut second, b"    REQ   ");
    drive_step(&f, &mut s, &mut second, b"    TYP   ");
    drive_step(&f, &mut s, &mut second, b"  # CNFG\nfresh\n    \n    REQ   ");
    assert!(second.is_done(&f));

    let captured = second.into_output();
    // The fresh accumulation starts at the restarted step 0: the first
    // attempt's drained segment ("****\n  # ") is not in it, while the bytes
    // the remote had already sent for the abandoned wait are.
    assert!(captured.starts_with(b"ovly cnfg\nhalf a reply****\n  # "));
    assert_eq!(
        clean_capture(&captured),
        b"  # ovly cnfg\n    REQ   que\n    TYP   cnfg\n  # CNFG\nfresh\n".to_vec()
    );
}
