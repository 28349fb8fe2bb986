//! Rules engine for the card game *Terraforming Mars: Ares Expedition*
//! (two players): game state, phase loop, production, global parameters,
//! end of game, scoring, the house mulligan rules, the declarative card
//! effect layer and the audit probe.

pub mod cards;
pub mod effects;
pub mod state;
pub mod arith;
pub mod rng;
pub mod policy;
pub mod flow;
pub mod turn;
pub mod phases;
pub mod setup;
pub mod sim;
pub mod probe;
pub mod agents;
