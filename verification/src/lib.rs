//! A library that turns an army-list document tree, exported in the
//! BattleScribe roster schema, into an owned domain model
//! (roster, forces, units, rules), together with a side table of
//! stored rule metadata keyed by game phase and turn.

pub mod compile_rules;
pub mod data;
pub mod decimal;
pub mod parse_roster;
pub mod stored_rules;
pub mod tree;
