//! The window-selection engine of a keyboard-driven window switcher.
//!
//! Every module is verified: the executable functions carry contracts
//! over the spec functions and views defined beside them.

pub mod config;
pub mod dispatch;
pub mod hex;
pub mod hints;
pub mod json;
pub mod layout;
pub mod numeral;
pub mod query;
pub mod store;
pub mod title;
pub mod window;
