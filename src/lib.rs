//! The decisions behind a desktop screen assistant, verified: which windows
//! are open and what replaces what, when a new window gets its data, how the
//! main window steps aside for a screenshot and comes back, how the windows
//! of other applications are listed and laid out side by side, and how the
//! window picked for that layout is saved and read back.
//!
//! Everything here works on plain values. The program around it does the
//! talking to the windowing system, the screen and the disk, and reports the
//! outcomes back.

pub mod capture;
pub mod focus;
pub mod handshake;
pub mod layout;
pub mod registry;
pub mod script;
pub mod store;
pub mod text;
pub mod window_list;
pub mod windows;
