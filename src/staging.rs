//! The output staging buffer of a terminal session, and the protocol that
//! flushes a staged frame completely through a writer that may accept fewer
//! bytes than it is offered.

use vstd::prelude::*;
use crate::escape::{
    cursor_home_seq, cursor_to_seq, erase_display_seq, erase_line_seq, hide_cursor_seq,
    show_cursor_seq, push_decimal, push_all, ESC, CSI_OPEN, QUESTION, SEMICOLON, DIGIT_TWO,
    DIGIT_FIVE, LOWER_H, LOWER_L, UPPER_H, UPPER_J, UPPER_K,
};

verus! {

/// The bytes of one frame, accumulated until they are flushed in one go.
pub struct OutputBuffer {
    bytes: Vec<u8>,
}

impl View for OutputBuffer {
    type V = Seq<u8>;

    closed spec fn view(&self) -> Seq<u8> {
        self.bytes@
    }
}

impl OutputBuffer {
    /// An empty buffer.
    pub fn new() -> (r: OutputBuffer)
        ensures
            r@ == Seq::<u8>::empty(),
    {
        OutputBuffer { bytes: Vec::new() }
    }

    /// The staged bytes.
    pub fn as_bytes(&self) -> (r: &[u8])
        ensures
            r@ == self@,
    {
        self.bytes.as_slice()
    }

    /// The number of staged bytes.
    pub fn len(&self) -> (r: usize)
        ensures
            r == self@.len(),
    {
        self.bytes.len()
    }

    /// Starts a new frame: discards whatever was staged.
    pub fn begin_frame(&mut self)
        ensures
            final(self)@ == Seq::<u8>::empty(),
    {
        self.bytes.clear();
    }

    /// Stages the sequence that hides the cursor.
    pub fn stage_hide_cursor(&mut self)
        ensures
            final(self)@ == old(self)@ + hide_cursor_seq(),
    {
        self.bytes.push(ESC);
        self.bytes.push(CSI_OPEN);
        self.bytes.push(QUESTION);
        self.bytes.push(DIGIT_TWO);
        self.bytes.push(DIGIT_FIVE);
        self.bytes.push(LOWER_L);
        assert(self@ =~= old(self)@ + hide_cursor_seq());
    }

    /// Stages the sequence that shows the cursor.
    pub fn stage_show_cursor(&mut self)
        ensures
            final(self)@ == old(self)@ + show_cursor_seq(),
    {
        self.bytes.push(ESC);
        self.bytes.push(CSI_OPEN);
        self.bytes.push(QUESTION);
        self.bytes.push(DIGIT_TWO);
        self.bytes.push(DIGIT_FIVE);
        self.bytes.push(LOWER_H);
        assert(self@ =~= old(self)@ + show_cursor_seq());
    }

    /// Stages the sequence that moves the cursor to the top-left corner.
    pub fn stage_move_cursor_home(&mut self)
        ensures
            final(self)@ == old(self)@ + cursor_home_seq(),
    {
        self.bytes.push(ESC);
        self.bytes.push(CSI_OPEN);
        self.bytes.push(UPPER_H);
        assert(self@ =~= old(self)@ + cursor_home_seq());
    }

    /// Stages the sequence that moves the cursor to the 1-indexed (row, col).
    pub fn stage_move_cursor_to(&mut self, row: u32, col: u32)
        ensures
            final(self)@ == old(self)@ + cursor_to_seq(row as nat, col as nat),
    {
        self.bytes.push(ESC);
        self.bytes.push(CSI_OPEN);
        push_decimal(&mut self.bytes, row);
        self.bytes.push(SEMICOLON);
        push_decimal(&mut self.bytes, col);
        self.bytes.push(UPPER_H);
        assert(self@ =~= old(self)@ + cursor_to_seq(row as nat, col as nat));
    }

    /// Stages the sequence that erases from the cursor to the end of the line.
    pub fn stage_erase_to_end_of_line(&mut self)
        ensures
            final(self)@ == old(self)@ + erase_line_seq(),
    {
        self.bytes.push(ESC);
        self.bytes.push(CSI_OPEN);
        self.bytes.push(UPPER_K);
        assert(self@ =~= old(self)@ + erase_line_seq());
    }

    /// Stages the sequence that erases the whole display.
    pub fn stage_erase_display(&mut self)
        ensures
            final(self)@ == old(self)@ + erase_display_seq(),
    {
        self.bytes.push(ESC);
        self.bytes.push(CSI_OPEN);
        self.bytes.push(DIGIT_TWO);
        self.bytes.push(UPPER_J);
        assert(self@ =~= old(self)@ + erase_display_seq());
    }

    /// Stages one literal byte.
    pub fn stage_byte(&mut self, b: u8)
        ensures
            final(self)@ == old(self)@.push(b),
    {
        self.bytes.push(b);
    }

    /// Stages literal bytes.
    pub fn stage_bytes(&mut self, s: &[u8])
        ensures
            final(self)@ == old(self)@ + s@,
    {
        push_all(&mut self.bytes, s);
    }

    /// Ends a frame once its flush has finished: on success the buffer is
    /// emptied; a flush that did not write every byte is a write failure.
    pub fn end_frame(&mut self, flush: &Flush) -> (r: Result<(), TermError>)
        ensures
            r is Ok <==> flush.complete(),
            r is Ok ==> final(self)@ == Seq::<u8>::empty(),
            r is Err ==> r == Err::<(), TermError>(TermError::WriteFailed) && final(self)@ == old(self)@,
    {
        if flush.is_complete() {
            self.bytes.clear();
            Ok(())
        } else {
            Err(TermError::WriteFailed)
        }
    }
}

/// The failures of a terminal session.
#[derive(PartialEq, Eq, Structural, Clone, Copy, Debug)]
pub enum TermError {
    /// No controlling terminal, or the mode change was refused.
    TerminalUnavailable,
    /// The terminal did not report a usable window size.
    QueryFailed,
    /// A staged frame could not be written out completely.
    WriteFailed,
    /// Reading a key failed.
    ReadFailed,
}

/// What one write call reported.
#[derive(PartialEq, Eq, Structural, Clone, Copy, Debug)]
pub enum WriteOutcome {
    /// The writer took this many bytes from the front of what it was offered.
    Accepted(usize),
    /// The writer reported an error.
    Failed,
}

/// Where a flush stands after a write.
#[derive(PartialEq, Eq, Structural, Clone, Copy, Debug)]
pub enum FlushStatus {
    /// Bytes remain: offer the writer the rest, from `written()` on.
    Pending,
    /// Every byte was written.
    Complete,
    /// The writer failed or made no progress; the frame was not written.
    Failed,
}

/// The count of written bytes after a write accepted `n` more, capped at the
/// frame's size.
pub open spec fn advanced(written: nat, n: nat, total: nat) -> nat {
    if written + n <= total {
        (written + n) as nat
    } else {
        total
    }
}

/// The (written, failed) state of a flush of `total` bytes after one more
/// write reported `outcome`. A finished flush stays as it is; a write that
/// accepted some bytes moves it forward; one that accepted none, or failed,
/// fails it.
pub open spec fn record_step(total: nat, written: nat, failed: bool, outcome: WriteOutcome) -> (nat, bool) {
    if failed || written == total {
        (written, failed)
    } else {
        match outcome {
            WriteOutcome::Accepted(n) => if n > 0 {
                (advanced(written, n as nat, total), false)
            } else {
                (written, true)
            },
            WriteOutcome::Failed => (written, true),
        }
    }
}

/// The (written, failed) state of a new flush of `total` bytes after the
/// writes reported `outcomes`, in order.
pub open spec fn fed(total: nat, outcomes: Seq<WriteOutcome>) -> (nat, bool)
    decreases outcomes.len(),
{
    if outcomes.len() == 0 {
        (0, false)
    } else {
        let before = fed(total, outcomes.drop_last());
        record_step(total, before.0, before.1, outcomes.last())
    }
}

/// The bytes that `outcomes` accepted, all told.
pub open spec fn accepted_sum(outcomes: Seq<WriteOutcome>) -> nat
    decreases outcomes.len(),
{
    if outcomes.len() == 0 {
        0
    } else {
        accepted_sum(outcomes.drop_last()) + match outcomes.last() {
            WriteOutcome::Accepted(n) => n as nat,
            WriteOutcome::Failed => 0nat,
        }
    }
}

/// Every write accepted at least one byte.
pub open spec fn all_progress(outcomes: Seq<WriteOutcome>) -> bool {
    forall|i: int| 0 <= i < outcomes.len() ==> match #[trigger] outcomes[i] {
        WriteOutcome::Accepted(n) => n > 0,
        WriteOutcome::Failed => false,
    }
}

/// Partial writes are continued, not lost: writes that each accept some
/// bytes never fail the flush, and leave `min(total, sum)` bytes written, so
/// the frame is complete exactly when they add up to it.
pub proof fn lemma_partial_writes_add_up(total: nat, outcomes: Seq<WriteOutcome>)
    requires
        all_progress(outcomes),
    ensures
        !fed(total, outcomes).1,
        fed(total, outcomes).0 == if accepted_sum(outcomes) <= total {
            accepted_sum(outcomes)
        } else {
            total
        },
    decreases outcomes.len(),
{
    if outcomes.len() > 0 {
        let prefix = outcomes.drop_last();
        assert forall|i: int| 0 <= i < prefix.len() implies match #[trigger] prefix[i] {
            WriteOutcome::Accepted(n) => n > 0,
            WriteOutcome::Failed => false,
        } by {
            assert(prefix[i] == outcomes[i]);
        }
        lemma_partial_writes_add_up(total, prefix);
        assert(outcomes.last() == outcomes[outcomes.len() - 1]);
    }
}

/// A flush is never reported complete with bytes missing: once a write fails
/// or accepts nothing before the frame is out, no later write completes it.
pub proof fn lemma_failed_flush_stays_short(total: nat, outcomes: Seq<WriteOutcome>, i: int)
    requires
        0 <= i < outcomes.len(),
        fed(total, outcomes.take(i)).0 < total,
        match outcomes[i] {
            WriteOutcome::Accepted(n) => n == 0,
            WriteOutcome::Failed => true,
        },
    ensures
        fed(total, outcomes).1,
        fed(total, outcomes).0 < total,
    decreases outcomes.len(),
{
    if i == outcomes.len() - 1 {
        assert(outcomes.drop_last() =~= outcomes.take(i));
    } else {
        let prefix = outcomes.drop_last();
        assert(prefix.take(i) =~= outcomes.take(i));
        assert(prefix[i] == outcomes[i]);
        lemma_failed_flush_stays_short(total, prefix, i);
    }
}

/// Progress of writing `total` staged bytes, one partial write at a time.
pub struct Flush {
    total: usize,
    written: usize,
    failed: bool,
}

impl Flush {
    pub closed spec fn total_spec(&self) -> nat {
        self.total as nat
    }

    pub closed spec fn written_spec(&self) -> nat {
        self.written as nat
    }

    pub closed spec fn failed_spec(&self) -> bool {
        self.failed
    }

    /// Bytes written so far never exceed the frame.
    pub closed spec fn wf(&self) -> bool {
        self.written <= self.total
    }

    /// Every byte of the frame went out and no write failed.
    pub open spec fn complete(&self) -> bool {
        !self.failed_spec() && self.written_spec() == self.total_spec()
    }

    /// Starts the flush of `total` bytes.
    pub fn new(total: usize) -> (r: Flush)
        ensures
            r.wf(),
            r.total_spec() == total,
            r.written_spec() == 0,
            !r.failed_spec(),
    {
        Flush { total, written: 0, failed: false }
    }

    /// How many bytes have been written.
    pub fn written(&self) -> (r: usize)
        ensures
            r == self.written_spec(),
    {
        self.written
    }

    /// How many bytes the frame has.
    pub fn total(&self) -> (r: usize)
        ensures
            r == self.total_spec(),
    {
        self.total
    }

    /// Whether the whole frame was written.
    pub fn is_complete(&self) -> (r: bool)
        ensures
            r == self.complete(),
    {
        !self.failed && self.written == self.total
    }

    /// Where the flush stands now.
    pub fn status(&self) -> (r: FlushStatus)
        requires
            self.wf(),
        ensures
            r == FlushStatus::Complete <==> self.complete(),
            r == FlushStatus::Failed <==> self.failed_spec(),
            r == FlushStatus::Pending <==> !self.failed_spec() && self.written_spec() < self.total_spec(),
    {
        if self.failed {
            FlushStatus::Failed
        } else if self.written == self.total {
            FlushStatus::Complete
        } else {
            FlushStatus::Pending
        }
    }

    /// Records what a write of the remaining bytes reported. A write that
    /// accepted some bytes moves the flush forward (never past the end); one
    /// that accepted none, or failed, fails the flush. Once failed or
    /// complete, the flush stays as it is.
    pub fn record(&mut self, outcome: WriteOutcome) -> (r: FlushStatus)
        requires
            old(self).wf(),
        ensures
            final(self).wf(),
            final(self).total_spec() == old(self).total_spec(),
            (final(self).written_spec(), final(self).failed_spec()) == record_step(
                old(self).total_spec(),
                old(self).written_spec(),
                old(self).failed_spec(),
                outcome,
            ),
            r == FlushStatus::Complete <==> final(self).complete(),
            r == FlushStatus::Failed <==> final(self).failed_spec(),
            r == FlushStatus::Pending <==> !final(self).failed_spec() && final(self).written_spec() < final(self).total_spec(),
    {
        if self.failed || self.written == self.total {
            return self.status();
        }
        match outcome {
            WriteOutcome::Accepted(n) => {
                if n == 0 {
                    self.failed = true;
                } else if n <= self.total - self.written {
                    self.written = self.written + n;
                } else {
                    self.written = self.total;
                }
            },
            WriteOutcome::Failed => {
                self.failed = true;
            },
        }
        self.status()
    }
}

} // verus!
