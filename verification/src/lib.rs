//! Core logic of an RTX launcher: a binary patch engine (a mini-language
//! parser for patch-definition scripts, a masked byte-pattern matcher and a
//! patch resolver), plus the pure decision logic around installing, mounting,
//! updating and launching the game.

pub mod channel;
pub mod elevation;
pub mod github;
pub mod hexbytes;
pub mod install;
pub mod jobs;
pub mod launch;
pub mod laws;
pub mod logging;
pub mod mask;
pub mod mount;
pub mod num;
pub mod patching;
pub mod remix_installer;
pub mod scan;
pub mod script;
pub mod session;
pub mod settings;
pub mod steam;
pub mod text;
pub mod ui_state;
pub mod update;
