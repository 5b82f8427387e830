//! Rules engine for an eight-seat game of Mafia: role dealing, the
//! commit-reveal protocol for night actions, the engine's play for empty
//! seats, night and day resolution, and the win check.
//!
//! The engine is made for a Soroban contract. Hashing and short lists are
//! the host's; `host` lists what is assumed of them. The host's generator
//! belongs to a running invocation, so the contract function draws the
//! numbers and the engine takes them as an argument. Everything else is
//! proved: the operations in `contract` return what `outcomes` says, for
//! every game, and `laws` states what holds across operations.

pub mod contract;
pub mod day;
pub mod encoding;
pub mod host;
pub mod laws;
pub mod model;
pub mod night;
pub mod outcomes;
pub mod roles;
pub mod seats;
pub mod verdict;

pub use crate::contract::MafiaDuelContract;
pub use crate::host::SeatList;
pub use crate::model::{DataKey, DrawRequest, Game, MafiaError, PlayerId, Slot};
