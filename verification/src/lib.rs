//! Core state machine of a molecular-trajectory viewer.
//!
//! The library owns the data structures that a rendering host reads once per
//! tick: the trajectory of molecule frames, the cyclic frame cursor, the
//! insertion-ordered set of selected atoms, and the command bridge through
//! which external producers (a console, a file-drop handler, a network
//! listener) replace or delete the displayed trajectory.  Rendering, picking
//! and I/O live outside; this crate states and proves what each mutation does.

pub mod cursor;
pub mod dispatch;
pub mod molecule;
pub mod net;
pub mod selection;
