//! The server for game bots, all in one: every client authenticates as a
//! character of Anarchy Online and gets the character's name as its subdomain.
//!
//! It speaks a protocol of its own and is set up by environment variables.

pub mod proto;
pub mod session;
pub mod settings;
pub mod state;
pub mod tunnel;
