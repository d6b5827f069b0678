//! Simulation core of a resource-crafting game.
//!
//! A deterministic engine that turns a linear history of player actions into
//! a resource ledger, validates each action against current resource levels,
//! and produces a display-ready projection: merged rows, highlights, totals
//! and the win condition.

pub mod amount;
pub mod config;
pub mod engine;
pub mod evaluate;
pub mod game;
pub mod history;
pub mod job;
pub mod laws;
pub mod ledger;
pub mod resource;
pub mod view_logic;
