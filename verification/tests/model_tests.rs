//! Tests of the domain model constructors and accessors.

use bsroster::data::{Force, Roster, RosterRule, Unit};
use bsroster::decimal::Decimal;

#[test]
fn roster_rule_holds_its_fields() {
    let rule = RosterRule::new("r1".to_string(), "Fear".to_string(), "Causes fear".to_string());
    assert_eq!(rule.get_id().as_str(), "r1");
    assert_eq!(rule.get_name().as_str(), "Fear");
    assert_eq!(rule.get_description().as_str(), "Causes fear");
}

#[test]
fn unit_holds_its_fields_and_rules() {
    let rule = RosterRule::new("r1".to_string(), "Fear".to_string(), String::new());
    let unit = Unit::new("u1".to_string(), "Squad".to_string(), vec![rule]);
    assert_eq!(unit.get_id().as_str(), "u1");
    assert_eq!(unit.get_name().as_str(), "Squad");
    assert_eq!(unit.get_rules().len(), 1);
    assert_eq!(unit.get_rules()[0].get_name().as_str(), "Fear");
}

#[test]
fn force_holds_its_fields_and_units() {
    let unit = Unit::new("u1".to_string(), "Squad".to_string(), vec![]);
    let force = Force::new("Space Marines".to_string(), "1st Company".to_string(), vec![unit]);
    assert_eq!(force.get_faction().as_str(), "Space Marines");
    assert_eq!(force.get_name().as_str(), "1st Company");
    assert_eq!(force.get_units().len(), 1);
}

#[test]
fn roster_holds_its_fields_and_forces() {
    let force = Force::new("Orks".to_string(), "Waaagh".to_string(), vec![]);
    let roster = Roster::new(
        "My Army".to_string(),
        Decimal { mantissa: 6, scale: 0 },
        Decimal { mantissa: 375, scale: 1 },
        vec![force],
    );
    assert_eq!(roster.get_name().as_str(), "My Army");
    assert_eq!(*roster.get_power_level(), Decimal { mantissa: 6, scale: 0 });
    assert_eq!(*roster.get_points(), Decimal { mantissa: 375, scale: 1 });
    assert_eq!(roster.get_forces().len(), 1);
    assert_eq!(roster.get_forces()[0].get_faction().as_str(), "Orks");
}
