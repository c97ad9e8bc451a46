//! Drill: an HTTP tunnel that needs a single port.
//!
//! A server hands out subdomains. A client connects to the control websocket of
//! the server, authenticates, and gets a subdomain; from then on the server
//! passes every connection for that subdomain on to the client, which connects
//! it to a port of its own machine. All connections of a client share its
//! websocket.
//!
//! This crate decides; it does no input or output. Sessions, clients and bots
//! are told what happened and say what is to be done. Channels are known by
//! their names.
//!
//! - [`proto`]: the packets on the control websocket
//! - [`session`]: the session of a client, on the side of the server
//! - [`request`]: where the request leads that opens a connection
//! - [`tunnel`], [`event`]: the outer side of a tunnel
//! - [`state`], [`config`]: what the sessions of a server share
//! - [`auth`]: who may connect, and under which subdomain
//! - [`query`]: the query of a URI
//! - [`client`], [`uri`]: the client
//! - [`standalone`]: the server for game bots, with a protocol of its own
//! - [`shared`], [`table`], [`text`], [`util`]: what all of them build on
//!
//! The functions named `law_` state what holds of the crate as a whole.

// Some imports serve proofs only.
#![allow(unused_imports)]

pub mod auth;
pub mod client;
pub mod config;
pub mod event;
pub mod proto;
pub mod query;
pub mod request;
pub mod session;
pub mod shared;
pub mod standalone;
pub mod state;
pub mod table;
pub mod text;
pub mod tunnel;
pub mod uri;
pub mod util;
