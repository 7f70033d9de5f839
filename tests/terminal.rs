use kilo::session::{Mode, RawModeSession};
use kilo::staging::{Flush, FlushStatus, OutputBuffer, TermError, WriteOutcome};

#[test]
fn control_sequences_are_vt100() {
    let mut b = OutputBuffer::new();
    b.stage_hide_cursor();
    b.stage_move_cursor_home();
    b.stage_erase_to_end_of_line();
    b.stage_erase_display();
    b.stage_move_cursor_to(12, 345);
    b.stage_move_cursor_to(0, 7);
    b.stage_show_cursor();
    b.stage_byte(b'~');
    b.stage_bytes(b"ab");
    assert_eq!(
        b.as_bytes(),
        b"\x1b[?25l\x1b[H\x1b[K\x1b[2J\x1b[12;345H\x1b[0;7H\x1b[?25h~ab"
    );
    assert_eq!(b.len(), 40);
    b.begin_frame();
    assert!(b.as_bytes().is_empty());
}

#[test]
fn partial_writes_are_continued_until_complete() {
    let mut b = OutputBuffer::new();
    b.stage_bytes(b"0123456789");
    let mut f = Flush::new(b.len());
    assert_eq!(f.status(), FlushStatus::Pending);
    assert_eq!(f.record(WriteOutcome::Accepted(3)), FlushStatus::Pending);
    assert_eq!(f.written(), 3);
    assert!(!f.is_complete());
    assert_eq!(b.end_frame(&f), Err(TermError::WriteFailed));
    assert_eq!(b.len(), 10);
    assert_eq!(f.record(WriteOutcome::Accepted(4)), FlushStatus::Pending);
    assert_eq!(f.record(WriteOutcome::Accepted(3)), FlushStatus::Complete);
    assert_eq!(f.written(), f.total());
    assert_eq!(b.end_frame(&f), Ok(()));
    assert!(b.as_bytes().is_empty());
}

#[test]
fn stalled_or_failed_write_fails_the_frame() {
    let mut f = Flush::new(8);
    assert_eq!(f.record(WriteOutcome::Accepted(5)), FlushStatus::Pending);
    assert_eq!(f.record(WriteOutcome::Accepted(0)), FlushStatus::Failed);
    assert_eq!(f.written(), 5);
    assert_eq!(f.record(WriteOutcome::Accepted(3)), FlushStatus::Failed);
    let mut b = OutputBuffer::new();
    b.stage_bytes(b"abcdefgh");
    assert_eq!(b.end_frame(&f), Err(TermError::WriteFailed));

    let mut g = Flush::new(4);
    assert_eq!(g.record(WriteOutcome::Failed), FlushStatus::Failed);
    assert!(!g.is_complete());
}

#[test]
fn empty_frame_and_overlong_accept() {
    let f = Flush::new(0);
    assert_eq!(f.status(), FlushStatus::Complete);
    let mut g = Flush::new(4);
    assert_eq!(g.record(WriteOutcome::Accepted(9)), FlushStatus::Complete);
    assert_eq!(g.written(), 4);
}

#[test]
fn close_twice_restores_once() {
    let mut s = RawModeSession::new();
    assert_eq!(s.opened(true), Ok(()));
    assert_eq!(s.mode(), Mode::Raw);
    assert!(s.close());
    assert_eq!(s.mode(), Mode::Restored);
    assert!(!s.close());
    assert_eq!(s.mode(), Mode::Restored);
}

#[test]
fn refused_raw_mode_is_unavailable_terminal() {
    let mut s = RawModeSession::new();
    assert_eq!(s.opened(false), Err(TermError::TerminalUnavailable));
    assert_eq!(s.mode(), Mode::Original);
    assert!(!s.close());
    assert_eq!(s.mode(), Mode::Original);
}
