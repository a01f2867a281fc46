//! Tracks the players of a game lobby from the client's chat log.
//!
//! The game client writes every chat message to a log file. Some of those
//! messages tell who came into the lobby, who went away and who is there.
//! This library turns what is added to the log into events ([`tailing`],
//! [`parsing`]), keeps the roster of players by them ([`app`]), makes the
//! record of a player from what the statistics service answered ([`data`],
//! [`json`], [`ratio`], [`rank`]), puts the roster in order ([`order`]) and
//! remembers the answers of the service for a while ([`fetching`]).
//!
//! Nothing here reads a file, asks a service or takes a lock. The caller
//! does that and hands over what it got; every function says in its contract
//! what it returns for it.

pub mod app;
pub mod data;
pub mod fetching;
pub mod json;
pub mod order;
pub mod parsing;
pub mod rank;
pub mod ratio;
pub mod tailing;
pub mod text;
