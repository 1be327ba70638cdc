//! Link play for a cable-linked handheld game.
//!
//! Two consoles, each an emulator on a machine of its own, play the game's
//! cable link over a network. The library holds what decides how that goes;
//! it does no I/O.
//!
//! - [`link`]: the link between one game and the network, with [`state`] as
//!   its model and [`relay`] for what holds of two links with a cable between
//!   them;
//! - [`hooks`]: the traps by which the game's comm library is replaced;
//! - [`net`]: pairing, the hello and the ferry;
//! - [`app`], [`screens`], [`input`] and [`code`]: the program around it;
//! - [`emu`], [`video`], [`audio`] and [`icon`]: the games, their picture and
//!   their sound.

pub mod app;
pub mod audio;
pub mod code;
pub mod emu;
pub mod hooks;
pub mod icon;
pub mod input;
pub mod link;
pub mod net;
pub mod relay;
pub mod screens;
pub mod state;
pub mod text;
pub mod video;
