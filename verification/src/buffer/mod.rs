//! The text storage: validated lines, the line buffer, its clipboard and the
//! editing operations on it.
pub mod line;
pub mod buffer;
pub mod iters;
pub mod editing;
pub mod finding;
pub mod substitute;
pub mod verify;
pub mod vecbuffer;
