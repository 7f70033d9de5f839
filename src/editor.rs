//! The editor: screen dimensions, a cursor kept inside the screen, the
//! placeholder screen it renders, and the key handling of its main loop.

use vstd::prelude::*;
use crate::escape::{
    crlf_seq, cursor_home_seq, cursor_to_seq, erase_display_seq, erase_line_seq, hide_cursor_seq,
    show_cursor_seq, CR, CSI_OPEN, ESC, LF, UPPER_K,
};
use crate::staging::{Flush, OutputBuffer, TermError};

verus! {

/// The marker drawn at the start of every row that holds no banner.
pub const TILDE: u8 = 0x7e;

pub const SPACE: u8 = 0x20;

/// Key `h`: cursor one column left.
pub const KEY_LEFT: u8 = 0x68;

/// Key `j`: cursor one row down.
pub const KEY_DOWN: u8 = 0x6a;

/// Key `k`: cursor one row up.
pub const KEY_UP: u8 = 0x6b;

/// Key `l`: cursor one column right.
pub const KEY_RIGHT: u8 = 0x6c;

/// Control-Q, the byte of `q` (0x71) masked with 0x1f: quit.
pub const CTRL_Q: u8 = 0x11;

/// `" -- version "`, which joins the product name and its version.
pub open spec fn version_joiner() -> Seq<u8> {
    seq![SPACE, 0x2du8, 0x2du8, SPACE, 0x76u8, 0x65u8, 0x72u8, 0x73u8, 0x69u8, 0x6fu8, 0x6eu8, SPACE]
}

/// `n` spaces.
pub open spec fn spaces(n: nat) -> Seq<u8> {
    Seq::new(n, |i: int| SPACE)
}

/// How many bytes of the banner fit on a row of `cols` columns.
pub open spec fn banner_shown(cols: nat, banner: Seq<u8>) -> nat {
    if banner.len() <= cols {
        banner.len()
    } else {
        cols
    }
}

/// The columns left of the banner that center it: half of what it leaves free.
pub open spec fn banner_padding(cols: nat, banner: Seq<u8>) -> nat {
    ((cols - banner_shown(cols, banner)) / 2) as nat
}

/// The banner row: a marker and spaces over the padding (nothing when there
/// is no padding), then the banner cut to the row's width.
pub open spec fn banner_line(cols: nat, banner: Seq<u8>) -> Seq<u8> {
    let pad = banner_padding(cols, banner);
    let lead = if pad > 0 {
        seq![TILDE] + spaces((pad - 1) as nat)
    } else {
        Seq::<u8>::empty()
    };
    lead + banner.subrange(0, banner_shown(cols, banner) as int)
}

/// The row that holds the banner: a third of the way down.
pub open spec fn banner_row(rows: nat) -> nat {
    rows / 3
}

/// What row `y` shows before its line is erased to the end.
pub open spec fn row_content(rows: nat, cols: nat, banner: Seq<u8>, y: nat) -> Seq<u8> {
    if y == banner_row(rows) {
        banner_line(cols, banner)
    } else {
        seq![TILDE]
    }
}

/// Row `y` as drawn: its content, erase to end of line, and a line break
/// unless it is the last row.
pub open spec fn row_render(rows: nat, cols: nat, banner: Seq<u8>, y: nat) -> Seq<u8> {
    row_content(rows, cols, banner, y) + erase_line_seq() + if y + 1 < rows {
        crlf_seq()
    } else {
        Seq::<u8>::empty()
    }
}

/// The first `n` rows as drawn.
pub open spec fn rows_render(rows: nat, cols: nat, banner: Seq<u8>, n: nat) -> Seq<u8>
    decreases n,
{
    if n == 0 {
        Seq::<u8>::empty()
    } else {
        rows_render(rows, cols, banner, (n - 1) as nat) + row_render(rows, cols, banner, (n - 1) as nat)
    }
}

/// A whole frame: hide the cursor, go home, draw every row, place the cursor
/// at its 1-indexed position, show the cursor.
pub open spec fn frame_render(rows: nat, cols: nat, banner: Seq<u8>, cursor_row: nat, cursor_col: nat) -> Seq<u8> {
    hide_cursor_seq() + cursor_home_seq() + rows_render(rows, cols, banner, rows) + cursor_to_seq(cursor_row + 1, cursor_col + 1)
        + show_cursor_seq()
}

/// The last frame, drawn on quitting: clear the display, go home.
pub open spec fn quit_frame() -> Seq<u8> {
    erase_display_seq() + cursor_home_seq()
}

/// A coordinate moved one back, staying at 0 when it is there.
pub open spec fn step_down(v: nat) -> nat {
    if v > 0 {
        (v - 1) as nat
    } else {
        v
    }
}

/// A coordinate moved one forward, staying below `bound`.
pub open spec fn step_up(v: nat, bound: nat) -> nat {
    if v + 1 < bound {
        v + 1
    } else {
        v
    }
}

/// The cursor (row, col) after `key` on a `rows` by `cols` screen.
pub open spec fn moved(rows: nat, cols: nat, row: nat, col: nat, key: u8) -> (nat, nat) {
    if key == KEY_LEFT {
        (row, step_down(col))
    } else if key == KEY_RIGHT {
        (row, step_up(col, cols))
    } else if key == KEY_UP {
        (step_down(row), col)
    } else if key == KEY_DOWN {
        (step_up(row, rows), col)
    } else {
        (row, col)
    }
}

/// The editor's state as values.
pub struct EditorView {
    pub rows: nat,
    pub cols: nat,
    pub cursor_row: nat,
    pub cursor_col: nat,
    pub banner: Seq<u8>,
    /// What is staged for the next flush.
    pub out: Seq<u8>,
}

/// What the main loop does after a key.
#[derive(PartialEq, Eq, Structural, Clone, Copy, Debug)]
pub enum Action {
    /// Flush the staged frame and read the next key.
    Continue,
    /// Flush the staged final frame and leave the loop.
    Quit,
}

pub struct Editor {
    screen_rows: u16,
    screen_cols: u16,
    cursor_row: u32,
    cursor_col: u32,
    banner: Vec<u8>,
    out: OutputBuffer,
}

impl View for Editor {
    type V = EditorView;

    closed spec fn view(&self) -> EditorView {
        EditorView {
            rows: self.screen_rows as nat,
            cols: self.screen_cols as nat,
            cursor_row: self.cursor_row as nat,
            cursor_col: self.cursor_col as nat,
            banner: self.banner@,
            out: self.out@,
        }
    }
}

/// `product -- version version`, the banner shown a third of the way down.
pub fn banner_text(product: &[u8], version: &[u8]) -> (r: Vec<u8>)
    ensures
        r@ == product@ + version_joiner() + version@,
{
    let mut r: Vec<u8> = Vec::new();
    crate::escape::push_all(&mut r, product);
    r.push(SPACE);
    r.push(0x2d);
    r.push(0x2d);
    r.push(SPACE);
    r.push(0x76);
    r.push(0x65);
    r.push(0x72);
    r.push(0x73);
    r.push(0x69);
    r.push(0x6f);
    r.push(0x6e);
    r.push(SPACE);
    assert(r@ =~= product@ + version_joiner());
    crate::escape::push_all(&mut r, version);
    r
}

/// Stages the banner row's content for a row of `cols` columns.
fn stage_banner_line(out: &mut OutputBuffer, cols: u16, banner: &Vec<u8>)
    ensures
        final(out)@ == old(out)@ + banner_line(cols as nat, banner@),
{
    let len: usize = if banner.len() <= cols as usize {
        banner.len()
    } else {
        cols as usize
    };
    let padding: usize = (cols as usize - len) / 2;
    let ghost lead = if padding > 0 {
        seq![TILDE] + spaces((padding - 1) as nat)
    } else {
        Seq::<u8>::empty()
    };
    let mut spaces_left: usize = padding;
    if padding > 0 {
        out.stage_byte(TILDE);
        spaces_left = padding - 1;
    }
    let mut i: usize = 0;
    while i < spaces_left
        invariant
            i <= spaces_left,
            spaces_left == if padding > 0 { (padding - 1) as nat } else { 0 },
            padding > 0 ==> out@ == old(out)@ + seq![TILDE] + spaces(i as nat),
            padding == 0 ==> out@ == old(out)@,
        decreases spaces_left - i,
    {
        out.stage_byte(SPACE);
        proof {
            assert(spaces((i + 1) as nat) =~= spaces(i as nat).push(SPACE));
        }
        i += 1;
    }
    assert(out@ =~= old(out)@ + lead);
    let ghost mid = out@;
    let mut j: usize = 0;
    while j < len
        invariant
            j <= len,
            len == banner_shown(cols as nat, banner@),
            out@ == mid + banner@.subrange(0, j as int),
        decreases len - j,
    {
        out.stage_byte(banner[j]);
        proof {
            assert(banner@.subrange(0, j + 1) =~= banner@.subrange(0, j as int).push(banner@[j as int]));
        }
        j += 1;
    }
    assert(out@ =~= old(out)@ + banner_line(cols as nat, banner@));
}

impl Editor {
    /// Every dimension is positive and the cursor lies on the screen.
    pub open spec fn wf(&self) -> bool {
        &&& 1 <= self@.rows <= u16::MAX
        &&& 1 <= self@.cols <= u16::MAX
        &&& self@.cursor_row < self@.rows
        &&& self@.cursor_col < self@.cols
    }

    /// An editor for a `rows` by `cols` screen showing `banner`, with the
    /// cursor at the top-left and nothing staged. A screen without rows or
    /// columns is no usable window size.
    pub fn new(rows: u16, cols: u16, banner: Vec<u8>) -> (r: Result<Editor, TermError>)
        ensures
            r is Ok <==> rows >= 1 && cols >= 1,
            r is Err ==> r == Err::<Editor, TermError>(TermError::QueryFailed),
            r matches Ok(e) ==> e.wf() && e@ == (EditorView {
                rows: rows as nat,
                cols: cols as nat,
                cursor_row: 0,
                cursor_col: 0,
                banner: banner@,
                out: Seq::<u8>::empty(),
            }),
    {
        if rows == 0 || cols == 0 {
            return Err(TermError::QueryFailed);
        }
        Ok(Editor {
            screen_rows: rows,
            screen_cols: cols,
            cursor_row: 0,
            cursor_col: 0,
            banner,
            out: OutputBuffer::new(),
        })
    }

    pub fn screen_rows(&self) -> (r: u16)
        ensures
            r == self@.rows,
    {
        self.screen_rows
    }

    pub fn screen_cols(&self) -> (r: u16)
        ensures
            r == self@.cols,
    {
        self.screen_cols
    }

    pub fn cursor_row(&self) -> (r: u32)
        ensures
            r == self@.cursor_row,
    {
        self.cursor_row
    }

    pub fn cursor_col(&self) -> (r: u32)
        ensures
            r == self@.cursor_col,
    {
        self.cursor_col
    }

    /// The bytes staged for the next flush.
    pub fn staged(&self) -> (r: &[u8])
        ensures
            r@ == self@.out,
    {
        self.out.as_bytes()
    }

    /// Ends the staged frame once `flush` has finished with it: emptied on
    /// success; a flush that did not write every byte is a write failure.
    pub fn end_frame(&mut self, flush: &Flush) -> (r: Result<(), TermError>)
        requires
            old(self).wf(),
        ensures
            final(self).wf(),
            r is Ok <==> flush.complete(),
            r is Ok ==> final(self)@ == (EditorView { out: Seq::<u8>::empty(), ..old(self)@ }),
            r is Err ==> r == Err::<(), TermError>(TermError::WriteFailed) && final(self)@ == old(self)@,
    {
        self.out.end_frame(flush)
    }

    /// Moves the cursor by one for `h`, `j`, `k` or `l`, staying on the
    /// screen; any other key leaves it where it is.
    pub fn move_cursor(&mut self, key: u8)
        requires
            old(self).wf(),
        ensures
            final(self).wf(),
            (final(self)@.cursor_row, final(self)@.cursor_col) == moved(
                old(self)@.rows,
                old(self)@.cols,
                old(self)@.cursor_row,
                old(self)@.cursor_col,
                key,
            ),
            final(self)@.rows == old(self)@.rows,
            final(self)@.cols == old(self)@.cols,
            final(self)@.banner == old(self)@.banner,
            final(self)@.out == old(self)@.out,
    {
        if key == KEY_LEFT {
            if self.cursor_col > 0 {
                self.cursor_col = self.cursor_col - 1;
            }
        } else if key == KEY_RIGHT {
            if self.cursor_col + 1 < self.screen_cols as u32 {
                self.cursor_col = self.cursor_col + 1;
            }
        } else if key == KEY_UP {
            if self.cursor_row > 0 {
                self.cursor_row = self.cursor_row - 1;
            }
        } else if key == KEY_DOWN {
            if self.cursor_row + 1 < self.screen_rows as u32 {
                self.cursor_row = self.cursor_row + 1;
            }
        }
    }

    /// Stages every row of the screen.
    pub fn draw_rows(&mut self)
        requires
            old(self).wf(),
        ensures
            final(self)@ == (EditorView { out: old(self)@.out + rows_render(old(self)@.rows, old(self)@.cols, old(self)@.banner, old(self)@.rows), ..old(self)@ }),
    {
        let rows = self.screen_rows;
        let ghost pre = self.out@;
        let mut y: u16 = 0;
        while y < rows
            invariant
                y <= rows,
                rows == self.screen_rows,
                self@ == (EditorView { out: pre + rows_render(rows as nat, self@.cols, self@.banner, y as nat), ..old(self)@ }),
            decreases rows - y,
        {
            let ghost before = self.out@;
            if y == rows / 3 {
                stage_banner_line(&mut self.out, self.screen_cols, &self.banner);
            } else {
                self.out.stage_byte(TILDE);
            }
            self.out.stage_erase_to_end_of_line();
            if y < rows - 1 {
                self.out.stage_byte(CR);
                self.out.stage_byte(LF);
            }
            proof {
                assert(self.out@ =~= before + row_render(rows as nat, self@.cols, self@.banner, y as nat));
            }
            y += 1;
            proof {
                assert(self.out@ =~= pre + rows_render(rows as nat, self@.cols, self@.banner, y as nat));
            }
        }
    }

    /// Stages a whole frame in place of whatever was staged: hide the
    /// cursor, go home, draw the rows, place the cursor, show it.
    pub fn refresh_screen(&mut self)
        requires
            old(self).wf(),
        ensures
            final(self)@ == (EditorView {
                out: frame_render(
                    old(self)@.rows,
                    old(self)@.cols,
                    old(self)@.banner,
                    old(self)@.cursor_row,
                    old(self)@.cursor_col,
                ),
                ..old(self)@
            }),
    {
        self.out.begin_frame();
        self.out.stage_hide_cursor();
        self.out.stage_move_cursor_home();
        self.draw_rows();
        self.out.stage_move_cursor_to(self.cursor_row + 1, self.cursor_col + 1);
        self.out.stage_show_cursor();
        proof {
            assert(self@.out =~= frame_render(
                old(self)@.rows,
                old(self)@.cols,
                old(self)@.banner,
                old(self)@.cursor_row,
                old(self)@.cursor_col,
            ));
        }
    }

    /// One turn of the main loop, after `key` was read (`None`: no key came
    /// before the read timed out). Control-Q stages the final frame and
    /// quits; otherwise the key moves the cursor (or does nothing) and the
    /// next frame is staged.
    pub fn run(&mut self, key: Option<u8>) -> (r: Action)
        requires
            old(self).wf(),
        ensures
            final(self).wf(),
            final(self)@.rows == old(self)@.rows,
            final(self)@.cols == old(self)@.cols,
            final(self)@.banner == old(self)@.banner,
            key == Some(CTRL_Q) ==> r == Action::Quit
                && final(self)@.out == quit_frame()
                && final(self)@.cursor_row == old(self)@.cursor_row
                && final(self)@.cursor_col == old(self)@.cursor_col,
            key != Some(CTRL_Q) ==> r == Action::Continue
                && (final(self)@.cursor_row, final(self)@.cursor_col) == (match key {
                    Some(k) => moved(old(self)@.rows, old(self)@.cols, old(self)@.cursor_row, old(self)@.cursor_col, k),
                    None => (old(self)@.cursor_row, old(self)@.cursor_col),
                })
                && final(self)@.out == frame_render(
                    final(self)@.rows,
                    final(self)@.cols,
                    final(self)@.banner,
                    final(self)@.cursor_row,
                    final(self)@.cursor_col,
                ),
    {
        match key {
            Some(k) => {
                if k == CTRL_Q {
                    self.out.begin_frame();
                    self.out.stage_erase_display();
                    self.out.stage_move_cursor_home();
                    assert(self@.out =~= quit_frame());
                    return Action::Quit;
                }
                self.move_cursor(k);
            },
            None => {},
        }
        self.refresh_screen();
        Action::Continue
    }
}

/// The renderings of rows `0..n`, one per row.
pub open spec fn row_renders(rows: nat, cols: nat, banner: Seq<u8>, n: nat) -> Seq<Seq<u8>> {
    Seq::new(n, |y: int| row_render(rows, cols, banner, y as nat))
}

proof fn lemma_rows_render_flatten(rows: nat, cols: nat, banner: Seq<u8>, n: nat)
    ensures
        rows_render(rows, cols, banner, n) == row_renders(rows, cols, banner, n).flatten(),
    decreases n,
{
    if n > 0 {
        let m = (n - 1) as nat;
        lemma_rows_render_flatten(rows, cols, banner, m);
        assert(row_renders(rows, cols, banner, n) =~= row_renders(rows, cols, banner, m).push(
            row_render(rows, cols, banner, m),
        ));
        row_renders(rows, cols, banner, m).lemma_flatten_push(row_render(rows, cols, banner, m));
    } else {
        assert(row_renders(rows, cols, banner, 0) =~= Seq::<Seq<u8>>::empty());
    }
}

/// The drawn rows of a `rows` by `cols` screen are exactly `rows` row
/// renderings, one after another. Each is terminated by erase-to-end-of-line;
/// every row but the last is followed by CRLF, and the last by nothing.
pub proof fn lemma_draw_rows_shape(rows: nat, cols: nat, banner: Seq<u8>)
    requires
        rows >= 1,
    ensures
        rows_render(rows, cols, banner, rows) == row_renders(rows, cols, banner, rows).flatten(),
        row_renders(rows, cols, banner, rows).len() == rows,
        forall|y: nat|
            y + 1 < rows ==> #[trigger] row_render(rows, cols, banner, y) == row_content(rows, cols, banner, y)
                + erase_line_seq() + crlf_seq(),
        row_render(rows, cols, banner, (rows - 1) as nat) == row_content(rows, cols, banner, (rows - 1) as nat)
            + erase_line_seq(),
{
    lemma_rows_render_flatten(rows, cols, banner, rows);
    assert(row_content(rows, cols, banner, (rows - 1) as nat) + erase_line_seq() + Seq::<u8>::empty()
        =~= row_content(rows, cols, banner, (rows - 1) as nat) + erase_line_seq());
}

/// The banner sits on row `rows / 3`, which is always on the screen; every
/// other row shows the marker alone.
pub proof fn lemma_banner_placement(rows: nat, cols: nat, banner: Seq<u8>)
    requires
        rows >= 1,
    ensures
        banner_row(rows) == rows / 3,
        banner_row(rows) < rows,
        row_content(rows, cols, banner, rows / 3) == banner_line(cols, banner),
        forall|y: nat|
            y < rows && y != rows / 3 ==> #[trigger] row_content(rows, cols, banner, y) == seq![TILDE],
{
}

/// The banner shows `min(len(banner), cols)` of its bytes, the padding never
/// pushes the row past `cols`, and a banner wider than the screen is shown
/// cut to the screen's width with no padding at all.
pub proof fn lemma_banner_truncation(cols: nat, banner: Seq<u8>)
    ensures
        banner_shown(cols, banner) == if banner.len() <= cols { banner.len() } else { cols },
        banner_line(cols, banner).len() == banner_padding(cols, banner) + banner_shown(cols, banner),
        banner_line(cols, banner).len() <= cols,
        banner_line(cols, banner).subrange(
            banner_padding(cols, banner) as int,
            banner_line(cols, banner).len() as int,
        ) == banner.subrange(0, banner_shown(cols, banner) as int),
        cols < banner.len() ==> banner_padding(cols, banner) == 0 && banner_line(cols, banner)
            == banner.subrange(0, cols as int),
{
    let pad = banner_padding(cols, banner);
    let line = banner_line(cols, banner);
    let shown = banner.subrange(0, banner_shown(cols, banner) as int);
    if pad > 0 {
        assert(line.subrange(pad as int, line.len() as int) =~= shown);
    } else {
        assert(line =~= shown);
        assert(line.subrange(0, line.len() as int) =~= shown);
    }
}

/// How many times `b` occurs in `s`.
pub open spec fn occurrences(s: Seq<u8>, b: u8) -> nat
    decreases s.len(),
{
    if s.len() == 0 {
        0
    } else {
        occurrences(s.drop_last(), b) + if s.last() == b {
            1nat
        } else {
            0nat
        }
    }
}

proof fn lemma_occurrences_concat(a: Seq<u8>, c: Seq<u8>, b: u8)
    ensures
        occurrences(a + c, b) == occurrences(a, b) + occurrences(c, b),
    decreases c.len(),
{
    if c.len() == 0 {
        assert(a + c =~= a);
    } else {
        lemma_occurrences_concat(a, c.drop_last(), b);
        assert((a + c).drop_last() =~= a + c.drop_last());
    }
}

proof fn lemma_occurrences_absent(s: Seq<u8>, b: u8)
    requires
        !s.contains(b),
    ensures
        occurrences(s, b) == 0,
    decreases s.len(),
{
    if s.len() > 0 {
        assert(s.last() == s[s.len() - 1]);
        assert forall|i: int| 0 <= i < s.drop_last().len() implies s.drop_last()[i] != b by {
            assert(s.drop_last()[i] == s[i]);
        }
        lemma_occurrences_absent(s.drop_last(), b);
    }
}

proof fn lemma_occurrences_single(x: u8, b: u8)
    ensures
        occurrences(seq![x], b) == if x == b { 1nat } else { 0nat },
{
    assert(seq![x].drop_last() =~= Seq::<u8>::empty());
    assert(seq![x].last() == x);
    assert(occurrences(Seq::<u8>::empty(), b) == 0);
}

/// A byte that is neither the marker nor a space and is absent from the
/// banner does not occur on the banner row.
proof fn lemma_banner_line_lacks(cols: nat, banner: Seq<u8>, b: u8)
    requires
        b != TILDE,
        b != SPACE,
        !banner.contains(b),
    ensures
        occurrences(banner_line(cols, banner), b) == 0,
{
    let pad = banner_padding(cols, banner);
    let shown = banner.subrange(0, banner_shown(cols, banner) as int);
    assert(!shown.contains(b)) by {
        assert forall|i: int| 0 <= i < shown.len() implies shown[i] != b by {
            assert(shown[i] == banner[i]);
        }
    }
    lemma_occurrences_absent(shown, b);
    if pad > 0 {
        let sp = spaces((pad - 1) as nat);
        assert(!sp.contains(b));
        lemma_occurrences_absent(sp, b);
        lemma_occurrences_single(TILDE, b);
        lemma_occurrences_concat(seq![TILDE], sp, b);
        lemma_occurrences_concat(seq![TILDE] + sp, shown, b);
    } else {
        assert(banner_line(cols, banner) =~= shown);
    }
}

proof fn lemma_row_counts(rows: nat, cols: nat, banner: Seq<u8>, y: nat)
    requires
        !banner.contains(LF),
        !banner.contains(ESC),
    ensures
        occurrences(row_render(rows, cols, banner, y), LF) == if y + 1 < rows { 1nat } else { 0nat },
        occurrences(row_render(rows, cols, banner, y), ESC) == 1,
{
    let content = row_content(rows, cols, banner, y);
    if y == banner_row(rows) {
        lemma_banner_line_lacks(cols, banner, LF);
        lemma_banner_line_lacks(cols, banner, ESC);
    } else {
        lemma_occurrences_single(TILDE, LF);
        lemma_occurrences_single(TILDE, ESC);
    }
    let erase = erase_line_seq();
    assert(erase =~= seq![ESC] + seq![CSI_OPEN] + seq![UPPER_K]);
    let tail = if y + 1 < rows { crlf_seq() } else { Seq::<u8>::empty() };
    assert(crlf_seq() =~= seq![CR] + seq![LF]);
    assert forall|b: u8| #![trigger occurrences(erase, b)] b == LF || b == ESC implies
        occurrences(erase, b) == if b == ESC { 1nat } else { 0nat }
        && occurrences(crlf_seq(), b) == if b == LF { 1nat } else { 0nat }
        && occurrences(Seq::<u8>::empty(), b) == 0 by {
        lemma_occurrences_single(ESC, b);
        lemma_occurrences_single(CSI_OPEN, b);
        lemma_occurrences_single(UPPER_K, b);
        lemma_occurrences_concat(seq![ESC], seq![CSI_OPEN], b);
        lemma_occurrences_concat(seq![ESC] + seq![CSI_OPEN], seq![UPPER_K], b);
        lemma_occurrences_single(CR, b);
        lemma_occurrences_single(LF, b);
        lemma_occurrences_concat(seq![CR], seq![LF], b);
    }
    lemma_occurrences_concat(content, erase, LF);
    lemma_occurrences_concat(content + erase, tail, LF);
    lemma_occurrences_concat(content, erase, ESC);
    lemma_occurrences_concat(content + erase, tail, ESC);
}

proof fn lemma_rows_counts(rows: nat, cols: nat, banner: Seq<u8>, n: nat)
    requires
        1 <= n <= rows,
        !banner.contains(LF),
        !banner.contains(ESC),
    ensures
        occurrences(rows_render(rows, cols, banner, n), LF) == if n < rows { n } else { (n - 1) as nat },
        occurrences(rows_render(rows, cols, banner, n), ESC) == n,
    decreases n,
{
    let m = (n - 1) as nat;
    if m > 0 {
        lemma_rows_counts(rows, cols, banner, m);
    } else {
        assert(occurrences(Seq::<u8>::empty(), LF) == 0);
        assert(occurrences(Seq::<u8>::empty(), ESC) == 0);
    }
    lemma_row_counts(rows, cols, banner, m);
    lemma_occurrences_concat(rows_render(rows, cols, banner, m), row_render(rows, cols, banner, m), LF);
    lemma_occurrences_concat(rows_render(rows, cols, banner, m), row_render(rows, cols, banner, m), ESC);
}

/// With a banner that holds no line feed and no escape byte, the drawn rows
/// hold exactly `rows - 1` line breaks and exactly `rows` escape sequences,
/// one erase-to-end-of-line per row.
pub proof fn lemma_draw_rows_counts(rows: nat, cols: nat, banner: Seq<u8>)
    requires
        rows >= 1,
        !banner.contains(LF),
        !banner.contains(ESC),
    ensures
        occurrences(rows_render(rows, cols, banner, rows), LF) == rows - 1,
        occurrences(rows_render(rows, cols, banner, rows), ESC) == rows,
{
    lemma_rows_counts(rows, cols, banner, rows);
}

} // verus!
