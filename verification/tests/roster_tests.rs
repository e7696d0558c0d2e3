//! End-to-end tests of the roster extraction over hand-built document trees.

use bsroster::data::Roster;
use bsroster::decimal::{parse_decimal, Decimal};
use bsroster::parse_roster::{
    create_roster, get_ability_description, get_costs, get_rule_description, get_rules, get_units,
};
use bsroster::tree::{get_attr, XmlAttr, XmlNode};

const NS: &str = "http://www.battlescribe.net/schema/rosterSchema";

fn node(name: &str, attrs: Vec<(&str, &str)>, children: Vec<XmlNode>, text: &str) -> XmlNode {
    XmlNode {
        name: name.to_string(),
        ns: NS.to_string(),
        attrs: attrs
            .into_iter()
            .map(|(k, v)| XmlAttr { key: k.to_string(), value: v.to_string() })
            .collect(),
        children,
        text: text.to_string(),
    }
}

fn dec(mantissa: u64, scale: u32) -> Decimal {
    Decimal { mantissa, scale }
}

#[test]
fn missing_costs_container_gives_zero_totals() {
    let root = node("roster", vec![("name", "Army")], vec![node("forces", vec![], vec![], "")], "");
    let (pl, pts) = get_costs(&root);
    assert_eq!(pl, Decimal::zero());
    assert_eq!(pts, Decimal::zero());
    let roster = create_roster(&root);
    assert_eq!(*roster.get_power_level(), Decimal::zero());
    assert_eq!(*roster.get_points(), Decimal::zero());
}

#[test]
fn points_cost_sets_points_and_leaves_power_level() {
    let cost = node("cost", vec![("name", "pts"), ("value", "37.5")], vec![], "");
    let costs = node("costs", vec![], vec![cost], "");
    let root = node("roster", vec![], vec![costs], "");
    let (pl, pts) = get_costs(&root);
    assert_eq!(pts, dec(375, 1));
    assert_eq!(pl, Decimal::zero());
}

#[test]
fn power_level_cost_sets_power_level() {
    let cost = node("cost", vec![("name", " PL"), ("value", "6")], vec![], "");
    let costs = node("costs", vec![], vec![cost], "");
    let root = node("roster", vec![], vec![costs], "");
    let (pl, pts) = get_costs(&root);
    assert_eq!(pl, dec(6, 0));
    assert_eq!(pts, Decimal::zero());
}

#[test]
fn unparsable_cost_value_leaves_total_zero() {
    let cost = node("cost", vec![("name", "pts"), ("value", "abc")], vec![], "");
    let costs = node("costs", vec![], vec![cost], "");
    let root = node("roster", vec![], vec![costs], "");
    let (pl, pts) = get_costs(&root);
    assert_eq!(pl, Decimal::zero());
    assert_eq!(pts, Decimal::zero());
}

#[test]
fn unparsable_cost_value_keeps_prior_total() {
    let good = node("cost", vec![("name", "pts"), ("value", "20")], vec![], "");
    let bad = node("cost", vec![("name", "pts"), ("value", "oops")], vec![], "");
    let costs = node("costs", vec![], vec![good, bad], "");
    let root = node("roster", vec![], vec![costs], "");
    let (_, pts) = get_costs(&root);
    assert_eq!(pts, dec(20, 0));
}

#[test]
fn later_cost_with_same_name_wins() {
    let first = node("cost", vec![("name", "pts"), ("value", "10")], vec![], "");
    let second = node("cost", vec![("name", "pts"), ("value", "55.5")], vec![], "");
    let costs = node("costs", vec![], vec![first, second], "");
    let root = node("roster", vec![], vec![costs], "");
    let (_, pts) = get_costs(&root);
    assert_eq!(pts, dec(555, 1));
}

#[test]
fn cost_without_value_attribute_is_skipped() {
    let cost = node("cost", vec![("name", "pts")], vec![], "");
    let costs = node("costs", vec![], vec![cost], "");
    let root = node("roster", vec![], vec![costs], "");
    let (_, pts) = get_costs(&root);
    assert_eq!(pts, Decimal::zero());
}

#[test]
fn cost_with_unknown_name_is_ignored() {
    let cost = node("cost", vec![("name", "CP"), ("value", "3")], vec![], "");
    let costs = node("costs", vec![], vec![cost], "");
    let root = node("roster", vec![], vec![costs], "");
    let (pl, pts) = get_costs(&root);
    assert_eq!(pl, Decimal::zero());
    assert_eq!(pts, Decimal::zero());
}

#[test]
fn costs_in_foreign_namespace_are_ignored() {
    let cost = node("cost", vec![("name", "pts"), ("value", "12")], vec![], "");
    let mut costs = node("costs", vec![], vec![cost], "");
    costs.ns = "http://example.com/other".to_string();
    let root = node("roster", vec![], vec![costs], "");
    let (_, pts) = get_costs(&root);
    assert_eq!(pts, Decimal::zero());
}

#[test]
fn selection_types_filter_units() {
    let model = node("selection", vec![("type", "model"), ("name", "A")], vec![], "");
    let unit = node("selection", vec![("type", "unit"), ("name", "B")], vec![], "");
    let wargear = node("selection", vec![("type", "wargear"), ("name", "C")], vec![], "");
    let untyped = node("selection", vec![("name", "D")], vec![], "");
    let selections = node("selections", vec![], vec![model, wargear, unit, untyped], "");
    let force = node("force", vec![], vec![selections], "");
    let units = get_units(&force);
    assert_eq!(units.len(), 2);
    assert_eq!(units[0].get_name().as_str(), "A");
    assert_eq!(units[1].get_name().as_str(), "B");
}

#[test]
fn rules_merge_explicit_rules_then_abilities() {
    let description = node("description", vec![], vec![], "Causes fear");
    let rule = node("rule", vec![("id", "r1"), ("name", "Fear")], vec![description], "");
    let rules_el = node("rules", vec![], vec![rule], "");

    let characteristic = node("characteristic", vec![("name", "Description")], vec![], "Never breaks");
    let characteristics = node("characteristics", vec![], vec![characteristic], "");
    let profile = node(
        "profile",
        vec![("typeName", "Abilities"), ("name", "Stubborn")],
        vec![characteristics],
        "",
    );
    let profiles = node("profiles", vec![], vec![profile], "");

    let selection = node("selection", vec![("type", "unit")], vec![rules_el, profiles], "");
    let rules = get_rules(&selection);
    assert_eq!(rules.len(), 2);
    assert_eq!(rules[0].get_id().as_str(), "r1");
    assert_eq!(rules[0].get_name().as_str(), "Fear");
    assert_eq!(rules[0].get_description().as_str(), "Causes fear");
    assert_eq!(rules[1].get_id().as_str(), "");
    assert_eq!(rules[1].get_name().as_str(), "Stubborn");
    assert_eq!(rules[1].get_description().as_str(), "Never breaks");
}

#[test]
fn explicit_rules_come_first_whatever_the_document_order() {
    let rule = node("rule", vec![("id", "r1"), ("name", "Fear")], vec![], "");
    let rules_el = node("rules", vec![], vec![rule], "");
    let characteristic = node("characteristic", vec![("name", "Description")], vec![], "tough");
    let characteristics = node("characteristics", vec![], vec![characteristic], "");
    let profile = node(
        "profile",
        vec![("typeName", "Abilities"), ("name", "Stubborn")],
        vec![characteristics],
        "",
    );
    let profiles = node("profiles", vec![], vec![profile], "");
    let selection = node("selection", vec![("type", "unit")], vec![profiles, rules_el], "");
    let rules = get_rules(&selection);
    assert_eq!(rules.len(), 2);
    assert_eq!(rules[0].get_name().as_str(), "Fear");
    assert_eq!(rules[1].get_name().as_str(), "Stubborn");
}

#[test]
fn ability_rule_id_is_empty_even_when_the_profile_has_one() {
    let characteristic = node("characteristic", vec![("name", "Description")], vec![], "tough");
    let characteristics = node("characteristics", vec![], vec![characteristic], "");
    let profile = node(
        "profile",
        vec![("typeName", "Abilities"), ("id", "p1"), ("name", "Stubborn")],
        vec![characteristics],
        "",
    );
    let profiles = node("profiles", vec![], vec![profile], "");
    let selection = node("selection", vec![("type", "unit")], vec![profiles], "");
    let rules = get_rules(&selection);
    assert_eq!(rules.len(), 1);
    assert_eq!(rules[0].get_id().as_str(), "");
    assert_eq!(rules[0].get_name().as_str(), "Stubborn");
    assert_eq!(rules[0].get_description().as_str(), "tough");
}

#[test]
fn profile_of_other_type_is_not_a_rule() {
    let profile = node("profile", vec![("typeName", "Weapon"), ("name", "Bolter")], vec![], "");
    let profiles = node("profiles", vec![], vec![profile], "");
    let selection = node("selection", vec![("type", "unit")], vec![profiles], "");
    let rules = get_rules(&selection);
    assert_eq!(rules.len(), 0);
}

#[test]
fn rule_description_defaults_to_empty() {
    let rule = node("rule", vec![("id", "r2"), ("name", "Fly")], vec![], "");
    assert_eq!(get_rule_description(&rule).as_str(), "");
}

#[test]
fn ability_description_defaults_to_empty_when_structure_absent() {
    let profile = node("profile", vec![("typeName", "Abilities"), ("name", "X")], vec![], "");
    assert_eq!(get_ability_description(&profile).as_str(), "");
    let characteristic = node("characteristic", vec![("name", "Other")], vec![], "text");
    let characteristics = node("characteristics", vec![], vec![characteristic], "");
    let profile2 = node(
        "profile",
        vec![("typeName", "Abilities"), ("name", "Y")],
        vec![characteristics],
        "",
    );
    assert_eq!(get_ability_description(&profile2).as_str(), "");
}

#[test]
fn get_attr_returns_value_or_empty() {
    let el = node("roster", vec![("name", "Army"), ("id", "x1")], vec![], "");
    assert_eq!(get_attr(&el, "name").as_str(), "Army");
    assert_eq!(get_attr(&el, "id").as_str(), "x1");
    assert_eq!(get_attr(&el, "battleScribeVersion").as_str(), "");
}

fn sample_tree() -> XmlNode {
    let selection = node(
        "selection",
        vec![("type", "unit"), ("id", "u1"), ("name", "Tactical Squad")],
        vec![],
        "",
    );
    let selections = node("selections", vec![], vec![selection], "");
    let force = node(
        "force",
        vec![("catalogueName", "Space Marines"), ("name", "1st Company")],
        vec![selections],
        "",
    );
    let forces = node("forces", vec![], vec![force], "");
    node("roster", vec![("name", "My Army")], vec![forces], "")
}

#[test]
fn end_to_end_roster_extraction() {
    let root = sample_tree();
    let roster = create_roster(&root);
    assert_eq!(roster.get_name().as_str(), "My Army");
    assert_eq!(*roster.get_power_level(), Decimal::zero());
    assert_eq!(*roster.get_points(), Decimal::zero());
    let forces = roster.get_forces();
    assert_eq!(forces.len(), 1);
    assert_eq!(forces[0].get_faction().as_str(), "Space Marines");
    assert_eq!(forces[0].get_name().as_str(), "1st Company");
    let units = forces[0].get_units();
    assert_eq!(units.len(), 1);
    assert_eq!(units[0].get_id().as_str(), "u1");
    assert_eq!(units[0].get_name().as_str(), "Tactical Squad");
    assert_eq!(units[0].get_rules().len(), 0);
}

fn assert_same_roster(a: &Roster, b: &Roster) {
    assert_eq!(a.get_name(), b.get_name());
    assert_eq!(a.get_power_level(), b.get_power_level());
    assert_eq!(a.get_points(), b.get_points());
    let fa = a.get_forces();
    let fb = b.get_forces();
    assert_eq!(fa.len(), fb.len());
    for (x, y) in fa.iter().zip(fb.iter()) {
        assert_eq!(x.get_faction(), y.get_faction());
        assert_eq!(x.get_name(), y.get_name());
        let ua = x.get_units();
        let ub = y.get_units();
        assert_eq!(ua.len(), ub.len());
        for (u, v) in ua.iter().zip(ub.iter()) {
            assert_eq!(u.get_id(), v.get_id());
            assert_eq!(u.get_name(), v.get_name());
            let ra = u.get_rules();
            let rb = v.get_rules();
            assert_eq!(ra.len(), rb.len());
            for (p, q) in ra.iter().zip(rb.iter()) {
                assert_eq!(p.get_id(), q.get_id());
                assert_eq!(p.get_name(), q.get_name());
                assert_eq!(p.get_description(), q.get_description());
            }
        }
    }
}

#[test]
fn extraction_is_deterministic_over_the_same_tree() {
    let root = sample_tree();
    let first = create_roster(&root);
    let second = create_roster(&root);
    assert_same_roster(&first, &second);
}

#[test]
fn parse_decimal_accepts_plain_and_pointed_numerals() {
    assert_eq!(parse_decimal("37.5"), Some(dec(375, 1)));
    assert_eq!(parse_decimal("37"), Some(dec(37, 0)));
    assert_eq!(parse_decimal("0"), Some(dec(0, 0)));
    assert_eq!(parse_decimal("007.25"), Some(dec(725, 2)));
    assert_eq!(parse_decimal("18446744073709551615"), Some(dec(u64::MAX, 0)));
}

#[test]
fn parse_decimal_rejects_everything_else() {
    assert_eq!(parse_decimal(""), None);
    assert_eq!(parse_decimal("abc"), None);
    assert_eq!(parse_decimal("."), None);
    assert_eq!(parse_decimal("3."), None);
    assert_eq!(parse_decimal(".5"), None);
    assert_eq!(parse_decimal("3.4.5"), None);
    assert_eq!(parse_decimal("-3"), None);
    assert_eq!(parse_decimal("3 "), None);
    assert_eq!(parse_decimal("18446744073709551616"), None);
}
