//! A terminal typing-practice core: a per-character cursor model for lines of
//! source text, and a run state machine that sequences lines, counts correct
//! and incorrect keystrokes, manages a countdown, and derives speed and
//! accuracy metrics.

pub mod app;
pub mod line;
pub mod text;
pub mod theme;
pub mod typing;
