//! Tab and session bookkeeping of a tabbed terminal window.
//!
//! The window toolkit, the terminal widget and the child processes stay
//! outside: sessions are known here by an integer handle, and every event of
//! the toolkit is handed in as plain values. What the window has to show
//! afterwards comes back as plain values too.

pub mod label;
pub mod registry;
pub mod store;
pub mod window;
