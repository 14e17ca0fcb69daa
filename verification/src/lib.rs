//! The rules behind a taskbar widget that shows how much of a Codex quota is
//! left: decoding what the outside world answers, deciding what to ask next,
//! and laying out what is drawn.
#![allow(unused_imports)]

pub mod text;
pub mod clock;
pub mod localization;
pub mod models;
pub mod poller;
pub mod url;
pub mod codex;
pub mod wsl;
pub mod flow;
pub mod layout;
pub mod paint;
pub mod position;
pub mod compact;
pub mod state;
pub mod tooltip;
pub mod taskbar;
pub mod draw;
pub mod startup;
pub mod window;
