//! Clipboard client: the clipboard loop, clips as frames, file transfers, and
//! the supervisor that ties them together.

pub mod assembly;
pub mod clipboard;
pub mod file;
pub mod frame;
pub mod names;
pub mod png;
pub mod supervisor;
