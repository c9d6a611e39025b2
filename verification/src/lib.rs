//! A deterministic two-player Old School Magic rules engine.
use vstd::prelude::*;

pub mod ids;
pub mod card;
pub mod state;
pub mod characteristics;
pub mod banding;
pub mod damage;
pub mod battlefield;
pub mod combat;
pub mod damage_delivery;
pub mod rules;
pub mod combat_steps;
pub mod loyalty;
pub mod turn;
pub mod engine;
pub mod exile;
pub mod card_runtime;
pub mod mana;
pub mod companion;
pub mod crime;
pub mod mana_payments;
pub mod continuous_state;
pub mod decision_state;
pub mod casting;
pub mod trigger_conditions;
pub mod decisions;
pub mod laws;
