//! A minimal full-screen terminal editor skeleton: escape sequences, a frame
//! staging buffer with its flush protocol, the raw-mode lifecycle, and the
//! editor state machine that renders the placeholder screen and moves the
//! cursor.

pub mod escape;
pub mod staging;
pub mod editor;
pub mod session;
