//! The rules of a penalty shootout on a hockey server.
//!
//! Two teams take turns; in each attempt the attackers start at the middle of the
//! ice and the defenders in front of their net. The server simulates the ice and
//! talks to the players. This library decides: what an event means for the attempt
//! under way, when an attempt is over, when a game is decided, who may change teams,
//! and what a chat command does.
//!
//! Every operation works on two values: the game mode's own state
//! ([`behaviour::HQMShootoutBehaviour`]) and a picture of the server
//! ([`server::HQMServer`]), in which it leaves the new game values and, in order,
//! what the server is asked to do.
pub mod admin_laws;
pub mod attempt;
pub mod attempt_laws;
pub mod behaviour;
pub mod clock_laws;
pub mod commands;
pub mod cooldown;
pub mod join;
pub mod laws;
pub mod model;
pub mod server;
pub mod single;
pub mod start_laws;
pub mod team;
pub mod text;
