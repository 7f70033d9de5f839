//! The raw-mode lifecycle of a terminal session: the original mode is saved
//! when raw mode is entered and restored exactly once when the session
//! closes, however often closing is asked for.

use vstd::prelude::*;
use crate::staging::TermError;

verus! {

/// Which mode the terminal is in, as far as the session is concerned.
#[derive(PartialEq, Eq, Structural, Clone, Copy, Debug)]
pub enum Mode {
    /// The session has not changed the terminal.
    Original,
    /// Raw mode is on; the original mode is saved and owed back.
    Raw,
    /// The original mode was put back.
    Restored,
}

/// The mode after closing from `m`, and whether closing restores the saved
/// mode now.
pub open spec fn close_step(m: Mode) -> (Mode, bool) {
    match m {
        Mode::Raw => (Mode::Restored, true),
        _ => (m, false),
    }
}

/// The lifecycle state of one terminal session.
pub struct RawModeSession {
    mode: Mode,
}

impl View for RawModeSession {
    type V = Mode;

    closed spec fn view(&self) -> Mode {
        self.mode
    }
}

impl RawModeSession {
    /// A session that has not touched the terminal yet.
    pub fn new() -> (r: RawModeSession)
        ensures
            r@ == Mode::Original,
    {
        RawModeSession { mode: Mode::Original }
    }

    pub fn mode(&self) -> (r: Mode)
        ensures
            r == self@,
    {
        self.mode
    }

    /// Records the outcome of switching the terminal to raw mode: on success
    /// the session is raw; a refused switch leaves the terminal as it was and
    /// is reported as an unavailable terminal.
    pub fn opened(&mut self, switched: bool) -> (r: Result<(), TermError>)
        requires
            old(self)@ == Mode::Original,
        ensures
            r is Ok <==> switched,
            switched ==> final(self)@ == Mode::Raw,
            !switched ==> final(self)@ == Mode::Original && r == Err::<(), TermError>(
                TermError::TerminalUnavailable,
            ),
    {
        if switched {
            self.mode = Mode::Raw;
            Ok(())
        } else {
            Err(TermError::TerminalUnavailable)
        }
    }

    /// Closes the session; the result says whether the saved mode must be
    /// restored now. Only the first close of a raw session restores.
    pub fn close(&mut self) -> (restore: bool)
        ensures
            (final(self)@, restore) == close_step(old(self)@),
    {
        match self.mode {
            Mode::Raw => {
                self.mode = Mode::Restored;
                true
            },
            _ => false,
        }
    }
}

/// Closing twice is closing once: the second close restores nothing and
/// leaves the mode as the first close left it.
pub proof fn lemma_close_idempotent(m: Mode)
    ensures
        close_step(close_step(m).0).0 == close_step(m).0,
        !close_step(close_step(m).0).1,
{
}

/// A raw session is restored by its first close, and never again.
pub proof fn lemma_close_restores_raw_once(m: Mode)
    ensures
        close_step(m).1 <==> m == Mode::Raw,
        close_step(m).0 != Mode::Raw,
{
}

} // verus!
