//! An organised view over the side table: rules gathered per (phase, turn)
//! slot for the report printer.
//!
//! The grouping relation itself is left undefined by the domain and is out
//! of scope here, so `organise_by_phase` produces no groups; the slot type
//! and its accessors stand ready for when a grouping is decided.

use vstd::prelude::*;

use crate::stored_rules::{Phase, Rule, StoredRuleModel, Turn};

verus! {

/// The content of an [`OrganisedRules`] slot.
pub ghost struct OrganisedRulesModel {
    pub phase: Phase,
    pub turn: Turn,
    pub rules: Seq<StoredRuleModel>,
}

/// The rules that apply in one (phase, turn) slot.
pub struct OrganisedRules {
    phase: Phase,
    turn: Turn,
    rules: Vec<Rule>,
}

impl View for OrganisedRules {
    type V = OrganisedRulesModel;

    closed spec fn view(&self) -> OrganisedRulesModel {
        OrganisedRulesModel {
            phase: self.phase,
            turn: self.turn,
            rules: self.rules@.map_values(|r: Rule| r@),
        }
    }
}

impl OrganisedRules {
    pub fn new(phase: Phase, turn: Turn, rules: Vec<Rule>) -> (r: OrganisedRules)
        ensures
            r@ == (OrganisedRulesModel {
                phase,
                turn,
                rules: rules@.map_values(|x: Rule| x@),
            }),
    {
        OrganisedRules { phase, turn, rules }
    }

    pub fn get_phase(&self) -> (r: &Phase)
        ensures
            *r == self@.phase,
    {
        &self.phase
    }

    pub fn get_turn(&self) -> (r: &Turn)
        ensures
            *r == self@.turn,
    {
        &self.turn
    }

    pub fn get_rules(&self) -> (r: &Vec<Rule>)
        ensures
            r@.map_values(|x: Rule| x@) == self@.rules,
    {
        &self.rules
    }
}

/// Gathers the stored rules into per-phase slots. No grouping relation is
/// defined for the side table yet, so the organised view is empty whatever
/// the table holds.
pub fn organise_by_phase(rules: &Vec<Rule>) -> (r: Vec<OrganisedRules>)
    ensures
        r@ == Seq::<OrganisedRules>::empty(),
{
    let organised_rules_vec: Vec<OrganisedRules> = Vec::new();
    organised_rules_vec
}

} // verus!
