//! Matchmaking for a two-player game played over TCP.
//!
//! The crate holds every decision of the server: which client is paired with
//! which, who begins a game, what is done with the bytes that a client sends,
//! and what becomes of a client whose connection ends.  Sockets are not
//! touched here.  The program around the crate performs the input and output
//! that the crate asks for and hands back the outcome.

pub mod config;
pub mod game;
pub mod handler;
pub mod handler_laws;
pub mod lobby;
pub mod lobby_laws;
pub mod server;
pub mod startup;
pub mod token;
