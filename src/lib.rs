//! Focus tracking: deciding which application holds focus from noisy window
//! samples, and accumulating per-application active time in a ledger.

pub mod calendar;
pub mod config;
pub mod focus_mode;
pub mod identity;
pub mod process_tracker;
pub mod sway;
pub mod text;
pub mod utils;
pub mod window;
pub mod x11;
