//! Server core of the Cambio card game: cards and decks, the per-lobby game
//! engine, and the decisions that connect it to players over the network.

pub mod cards;
pub mod decisions;
pub mod data;
pub mod engine;
pub mod event;
pub mod worker;
pub mod hub;
pub mod winner;
pub mod driver;
pub mod config;
pub mod lobby;
pub mod acceptor;
pub mod codec;
pub mod game_id;
pub mod client;
