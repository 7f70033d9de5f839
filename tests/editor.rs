use kilo::editor::{banner_text, Action, Editor, CTRL_Q};
use kilo::staging::TermError;

fn kilo_banner() -> Vec<u8> {
    banner_text(b"Kilo editor", b"0.1.0")
}

fn rows_of(frame: &[u8]) -> Vec<Vec<u8>> {
    let mut rows = Vec::new();
    let mut cur = Vec::new();
    let mut i = 0;
    while i < frame.len() {
        if i + 1 < frame.len() && frame[i] == b'\r' && frame[i + 1] == b'\n' {
            rows.push(cur);
            cur = Vec::new();
            i += 2;
        } else {
            cur.push(frame[i]);
            i += 1;
        }
    }
    rows.push(cur);
    rows
}

fn drawn_rows(rows: u16, cols: u16) -> Vec<u8> {
    let mut e = Editor::new(rows, cols, kilo_banner()).unwrap();
    e.draw_rows();
    e.staged().to_vec()
}

#[test]
fn banner_text_joins_name_and_version() {
    assert_eq!(kilo_banner(), b"Kilo editor -- version 0.1.0".to_vec());
}

#[test]
fn new_rejects_empty_window() {
    assert!(matches!(Editor::new(0, 80, kilo_banner()), Err(TermError::QueryFailed)));
    assert!(matches!(Editor::new(24, 0, kilo_banner()), Err(TermError::QueryFailed)));
    let e = Editor::new(24, 80, kilo_banner()).unwrap();
    assert_eq!((e.screen_rows(), e.screen_cols()), (24, 80));
    assert_eq!((e.cursor_row(), e.cursor_col()), (0, 0));
    assert!(e.staged().is_empty());
}

#[test]
fn cursor_moves_right_twice_then_up_at_top() {
    let mut e = Editor::new(24, 80, kilo_banner()).unwrap();
    e.move_cursor(b'l');
    e.move_cursor(b'l');
    e.move_cursor(b'k');
    assert_eq!(e.cursor_col(), 2);
    assert_eq!(e.cursor_row(), 0);
    e.move_cursor(b'h');
    assert_eq!(e.cursor_col(), 1);
    e.move_cursor(b'j');
    assert_eq!(e.cursor_row(), 1);
    e.move_cursor(b'x');
    assert_eq!((e.cursor_row(), e.cursor_col()), (1, 1));
}

#[test]
fn cursor_stays_on_screen() {
    let mut e = Editor::new(2, 3, kilo_banner()).unwrap();
    e.move_cursor(b'h');
    assert_eq!(e.cursor_col(), 0);
    for _ in 0..5 {
        e.move_cursor(b'l');
        e.move_cursor(b'j');
    }
    assert_eq!((e.cursor_row(), e.cursor_col()), (1, 2));
}

#[test]
fn every_row_is_erased_and_separated() {
    for &(rows, cols) in &[(1u16, 1u16), (2, 5), (3, 10), (7, 40), (24, 80)] {
        let out = drawn_rows(rows, cols);
        let parts = rows_of(&out);
        assert_eq!(parts.len(), rows as usize);
        for p in &parts {
            assert!(p.ends_with(b"\x1b[K"));
        }
        let crlf = out.windows(2).filter(|w| w == b"\r\n").count();
        assert_eq!(crlf, rows as usize - 1);
        assert!(out.ends_with(b"\x1b[K"));
    }
}

#[test]
fn banner_row_is_a_third_down() {
    for rows in 1u16..=10 {
        let parts = rows_of(&drawn_rows(rows, 80));
        for (y, p) in parts.iter().enumerate() {
            let has_banner = p.windows(4).any(|w| w == b"Kilo");
            assert_eq!(has_banner, y == (rows / 3) as usize);
            assert_eq!(p[0], b'~');
        }
    }
}

#[test]
fn narrow_screen_truncates_banner_without_padding() {
    let parts = rows_of(&drawn_rows(3, 5));
    assert_eq!(parts[1], b"Kilo \x1b[K".to_vec());
    assert_eq!(parts[0], b"~\x1b[K".to_vec());
    let exact = rows_of(&drawn_rows(1, 28));
    assert_eq!(exact[0], b"Kilo editor -- version 0.1.0\x1b[K".to_vec());
    let one_pad = rows_of(&drawn_rows(1, 30));
    assert_eq!(one_pad[0], b"~Kilo editor -- version 0.1.0\x1b[K".to_vec());
}

#[test]
fn initial_frame_on_24_by_80() {
    let mut e = Editor::new(24, 80, kilo_banner()).unwrap();
    e.refresh_screen();
    let frame = e.staged().to_vec();
    assert!(frame.starts_with(b"\x1b[?25l\x1b[H"));
    assert!(frame.ends_with(b"\x1b[K\x1b[1;1H\x1b[?25h"));
    let body = &frame[9..frame.len() - 12];
    let parts = rows_of(body);
    assert_eq!(parts.len(), 24);
    for p in &parts {
        assert_eq!(p[0], b'~');
    }
    let mut banner_row = b"~".to_vec();
    banner_row.extend(std::iter::repeat(b' ').take(25));
    banner_row.extend_from_slice(b"Kilo editor -- version 0.1.0\x1b[K");
    assert_eq!(parts[8], banner_row);
    assert_eq!(parts[7], b"~\x1b[K".to_vec());
}

#[test]
fn control_q_clears_and_quits() {
    assert_eq!(CTRL_Q, b'q' & 0x1f);
    let mut e = Editor::new(24, 80, kilo_banner()).unwrap();
    e.refresh_screen();
    assert_eq!(e.run(Some(CTRL_Q)), Action::Quit);
    assert_eq!(e.staged(), b"\x1b[2J\x1b[H");
}

#[test]
fn run_moves_and_redraws() {
    let mut e = Editor::new(4, 10, kilo_banner()).unwrap();
    assert_eq!(e.run(Some(b'j')), Action::Continue);
    assert_eq!(e.run(Some(b'l')), Action::Continue);
    assert_eq!((e.cursor_row(), e.cursor_col()), (1, 1));
    assert!(e.staged().ends_with(b"\x1b[2;2H\x1b[?25h"));
    assert_eq!(e.run(None), Action::Continue);
    assert_eq!(e.run(Some(b'z')), Action::Continue);
    assert_eq!((e.cursor_row(), e.cursor_col()), (1, 1));
    assert!(e.staged().starts_with(b"\x1b[?25l\x1b[H~\x1b[K\r\n"));
}
