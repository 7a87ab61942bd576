//! Music-theory and timed-playback engine for a chord trainer.
//!
//! The engine covers pitch arithmetic over the 12-tone chromatic space
//! (`note`), chord construction from interval tables (`chord`), the wrapping
//! picker cursor (`cursor`), the retriggerable playback scheduler
//! (`scheduler`), and the per-key display records the renderer consumes
//! (`keyboard`). Window management, rendering and audio output live in the
//! host application around this crate.

pub mod chord;
pub mod cursor;
pub mod display;
pub mod keyboard;
pub mod note;
pub mod scheduler;
