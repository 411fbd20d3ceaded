//! Quadratic-funding grant rounds.
//!
//! The heart of the crate is the matching engine in [`matching`]: it turns the
//! contributions that each proposal received into a liberal-radicalism score and
//! shares a fixed budget among the proposals in proportion to those scores,
//! using integer arithmetic only and accounting for every unit of the budget.
//! The modules around it hold the rules of a round (who may propose, vote and
//! trigger the distribution, and when) as functions on plain values.

pub mod contract;
pub mod error;
pub mod expiration;
pub mod helper;
pub mod matching;
pub mod msg;
pub mod ratio;
pub mod sqrt;
pub mod state;
