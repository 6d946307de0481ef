//! Combat-log decoding, encounter tracking and live per-combatant statistics.

pub mod text;
pub mod utils;
pub mod namedid;
pub mod consts;
pub mod value;
pub mod actor;
pub mod action;
pub mod sorted_vec;
pub mod actor_stats;
pub mod line;
pub mod encounter;
pub mod reader;
pub mod logs;
