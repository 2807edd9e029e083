//! The chat overlay of a terminal emulator: editing, automation, risk checks,
//! request framing and screen composition, with every rule stated as a contract.

pub mod action;
pub mod input;
pub mod key;
pub mod openrouter;
pub mod overlay;
pub mod picture;
pub mod reply;
pub mod risk;
pub mod screen;
pub mod session;
pub mod snapshot;
pub mod style;
pub mod text;
pub mod transcript;
pub mod wrap;
