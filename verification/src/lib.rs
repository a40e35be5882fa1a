//! Drive enumeration for a drive-picker application.
//!
//! The core is a decoder that turns the operating system's logical-drive
//! bitmask into a set of drive letters, together with the small error
//! taxonomy around it, a label formatter, and the state machine that guards
//! window close behind a confirmation dialog. The operating-system query
//! itself and the widget rendering live outside this library; they hand in
//! plain values (the raw bitmask and the last platform error code) and
//! events, and take decoded values and actions back.

pub mod drives;
pub mod shell;
