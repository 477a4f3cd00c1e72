//! A verified core for a screen-oriented, single-file line editor.
//!
//! The library holds the document model (an ordered sequence of lines of
//! characters), the edit primitives (insert, delete, newline split and merge),
//! the cursor-movement rules, the page-based viewport arithmetic, and the
//! keystroke-to-action state machine of the control loop.  Terminal I/O and
//! file I/O live outside the library and hand it plain values.

pub mod position;
pub mod text;
pub mod buffer;
pub mod viewport;
pub mod editor;
