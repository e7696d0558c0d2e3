//! Tests of the stored-rules side table: phase and turn codes, record
//! conversion, and the organised view.

use bsroster::compile_rules::{organise_by_phase, OrganisedRules};
use bsroster::stored_rules::{build_rules, Phase, Rule, Turn, ValueRule};

#[test]
fn phase_codes_round_trip() {
    assert_eq!(Phase::name(0), Some(Phase::BeforeGame));
    assert_eq!(Phase::name(5), Some(Phase::Movement));
    assert_eq!(Phase::name(22), Some(Phase::HeroicIntervention));
    assert_eq!(Phase::name(38), Some(Phase::TurnEnd));
    assert_eq!(Phase::name(39), None);
    assert_eq!(Phase::name(-1), None);
    for code in 0..39 {
        let phase = Phase::name(code).unwrap();
        assert_eq!(phase.value(), code);
    }
}

#[test]
fn turn_codes_round_trip() {
    assert_eq!(Turn::name(0), Some(Turn::Friendly));
    assert_eq!(Turn::name(1), Some(Turn::Opponent));
    assert_eq!(Turn::name(2), Some(Turn::Both));
    assert_eq!(Turn::name(3), None);
    assert_eq!(Turn::name(-2), None);
    for code in 0..3 {
        let turn = Turn::name(code).unwrap();
        assert_eq!(turn.value(), code);
    }
}

fn record(name: &str, phase: i32, turn: i32) -> ValueRule {
    ValueRule {
        conditions: vec!["in cover".to_string()],
        description: format!("{} does something", name),
        name: name.to_string(),
        phase,
        turn,
    }
}

#[test]
fn build_rules_maps_codes_and_keeps_fields() {
    let rules = build_rules(vec![record("Fear", 5, 1), record("Stubborn", 34, 0)]);
    assert_eq!(rules.len(), 2);
    assert_eq!(rules[0].get_name().as_str(), "Fear");
    assert_eq!(rules[0].get_description().as_str(), "Fear does something");
    assert_eq!(*rules[0].get_phase(), Phase::Movement);
    assert_eq!(*rules[0].get_turn(), Turn::Opponent);
    assert_eq!(rules[0].get_conditions().len(), 1);
    assert_eq!(rules[0].get_conditions()[0].as_str(), "in cover");
    assert_eq!(*rules[1].get_phase(), Phase::Morale);
    assert_eq!(*rules[1].get_turn(), Turn::Friendly);
}

#[test]
fn build_rules_falls_back_on_out_of_range_codes() {
    let rules = build_rules(vec![record("Weird", 99, 7), record("Negative", -3, -1)]);
    assert_eq!(*rules[0].get_phase(), Phase::BeforeGame);
    assert_eq!(*rules[0].get_turn(), Turn::Both);
    assert_eq!(*rules[1].get_phase(), Phase::BeforeGame);
    assert_eq!(*rules[1].get_turn(), Turn::Both);
}

#[test]
fn build_rules_of_nothing_is_empty() {
    assert_eq!(build_rules(vec![]).len(), 0);
}

#[test]
fn stored_rule_constructor_exposes_fields() {
    let rule = Rule::new(
        "Fly".to_string(),
        "Moves over models".to_string(),
        Phase::Movement,
        Turn::Friendly,
        vec![],
    );
    assert_eq!(rule.get_name().as_str(), "Fly");
    assert_eq!(rule.get_description().as_str(), "Moves over models");
    assert_eq!(*rule.get_phase(), Phase::Movement);
    assert_eq!(*rule.get_turn(), Turn::Friendly);
    assert_eq!(rule.get_conditions().len(), 0);
}

#[test]
fn organised_view_is_empty() {
    let rules = build_rules(vec![record("Fear", 5, 1)]);
    let organised = organise_by_phase(&rules);
    assert_eq!(organised.len(), 0);
}

#[test]
fn organised_rules_slot_exposes_fields() {
    let rules = build_rules(vec![record("Fear", 5, 1)]);
    let slot = OrganisedRules::new(Phase::Movement, Turn::Opponent, rules);
    assert_eq!(*slot.get_phase(), Phase::Movement);
    assert_eq!(*slot.get_turn(), Turn::Opponent);
    assert_eq!(slot.get_rules().len(), 1);
    assert_eq!(slot.get_rules()[0].get_name().as_str(), "Fear");
}
