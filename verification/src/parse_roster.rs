//! The schema-aware extraction: walks a parsed document tree and builds the
//! owned roster model, in a fixed top-down order — name, costs, forces,
//! units, rules.
//!
//! Each extractor is specified against a spec-level scan of the tree in
//! document order: `costs_of`, `forces_of`, `units_of` and `rules_of` fold
//! over the children of the relevant container elements, so the sequence
//! order of the model always matches document order. Missing attributes and
//! children fall back to empty strings, and an unparsable cost value leaves
//! the corresponding total at its prior value.

use vstd::prelude::*;

use crate::data::{Force, ForceModel, Roster, RosterModel, RosterRule, RuleModel, Unit, UnitModel};
use crate::decimal::{parse_decimal, spec_parse_decimal, Decimal};
use crate::tree::{attr_of, get_attr, node_is, XmlNode};

verus! {

// ---------------------------------------------------------------------------
// Costs
// ---------------------------------------------------------------------------
/// One "cost" entry folded into the running (power level, points) pair: a
/// parsable "value" lands in the total that the "name" discriminator picks;
/// any other entry leaves both totals at their prior value. A later entry
/// with the same discriminator wins over an earlier one.
pub open spec fn cost_step(c: XmlNode, acc: (Decimal, Decimal)) -> (Decimal, Decimal) {
    if node_is(c, "cost"@) {
        let parsed = spec_parse_decimal(attr_of(c, "value"@));
        let nm = attr_of(c, "name"@);
        let pl = if nm == " PL"@ && parsed is Some {
            parsed->0
        } else {
            acc.0
        };
        let pts = if nm == "pts"@ && parsed is Some {
            parsed->0
        } else {
            acc.1
        };
        (pl, pts)
    } else {
        acc
    }
}

/// The children of one "costs" container folded left to right.
pub open spec fn scan_costs(cs: Seq<XmlNode>, acc: (Decimal, Decimal)) -> (Decimal, Decimal)
    decreases cs.len(),
{
    if cs.len() == 0 {
        acc
    } else {
        scan_costs(cs.drop_first(), cost_step(cs.first(), acc))
    }
}

/// The roster's children folded left to right, each "costs" container
/// contributing its entries.
pub open spec fn scan_cost_containers(cs: Seq<XmlNode>, acc: (Decimal, Decimal)) -> (
    Decimal,
    Decimal,
)
    decreases cs.len(),
{
    if cs.len() == 0 {
        acc
    } else {
        let step = if node_is(cs.first(), "costs"@) {
            scan_costs(cs.first().children@, acc)
        } else {
            acc
        };
        scan_cost_containers(cs.drop_first(), step)
    }
}

/// The (power level, points) pair of a roster: both zero unless a "cost"
/// entry under a "costs" container sets them.
pub open spec fn costs_of(r: XmlNode) -> (Decimal, Decimal) {
    scan_cost_containers(r.children@, (Decimal::spec_zero(), Decimal::spec_zero()))
}

// ---------------------------------------------------------------------------
// Rule descriptions
// ---------------------------------------------------------------------------
/// The text of the first "description" child, or empty when none is.
pub open spec fn rule_description_in(cs: Seq<XmlNode>) -> Seq<char>
    decreases cs.len(),
{
    if cs.len() == 0 {
        Seq::empty()
    } else if node_is(cs.first(), "description"@) {
        cs.first().text@
    } else {
        rule_description_in(cs.drop_first())
    }
}

/// The description of an explicit "rule" element: the text of its first
/// "description" child.
pub open spec fn rule_description_of(r: XmlNode) -> Seq<char> {
    rule_description_in(r.children@)
}

/// The text of the first "characteristic" child whose "name" attribute is
/// the "Description" marker, if any.
pub open spec fn characteristic_desc_in(cs: Seq<XmlNode>) -> Option<Seq<char>>
    decreases cs.len(),
{
    if cs.len() == 0 {
        None
    } else if node_is(cs.first(), "characteristic"@) && attr_of(cs.first(), "name"@)
        == "Description"@ {
        Some(cs.first().text@)
    } else {
        characteristic_desc_in(cs.drop_first())
    }
}

/// The description of an "Abilities" profile: the first matching
/// description characteristic found under any "characteristics" child, or
/// empty when the nested structure is absent at any level.
pub open spec fn ability_description_in(cs: Seq<XmlNode>) -> Seq<char>
    decreases cs.len(),
{
    if cs.len() == 0 {
        Seq::empty()
    } else if node_is(cs.first(), "characteristics"@) && characteristic_desc_in(
        cs.first().children@,
    ) is Some {
        characteristic_desc_in(cs.first().children@)->0
    } else {
        ability_description_in(cs.drop_first())
    }
}

/// The description of an "Abilities" profile element.
pub open spec fn ability_description_of(a: XmlNode) -> Seq<char> {
    ability_description_in(a.children@)
}

// ---------------------------------------------------------------------------
// Rules
// ---------------------------------------------------------------------------
/// The rule built from an explicit "rule" element.
pub open spec fn rule_of(c: XmlNode) -> RuleModel {
    RuleModel {
        id: attr_of(c, "id"@),
        name: attr_of(c, "name"@),
        description: rule_description_of(c),
    }
}

/// The rule built from an "Abilities"-typed "profile" element. Its id is
/// empty: that source has no stable id field in the same slot, so an id
/// attribute the profile itself carries is not a rule id and is not taken.
pub open spec fn ability_rule_of(c: XmlNode) -> RuleModel {
    RuleModel {
        id: Seq::empty(),
        name: attr_of(c, "name"@),
        description: ability_description_of(c),
    }
}

/// Whether a "profile" element qualifies as a rule source: its type
/// discriminator must be the "Abilities" marker.
pub open spec fn is_ability_profile(c: XmlNode) -> bool {
    node_is(c, "profile"@) && attr_of(c, "typeName"@) == "Abilities"@
}

/// The children of one "rules" container folded left to right, each "rule"
/// element appending one rule.
pub open spec fn scan_rule_entries(cs: Seq<XmlNode>, acc: Seq<RuleModel>) -> Seq<RuleModel>
    decreases cs.len(),
{
    if cs.len() == 0 {
        acc
    } else {
        let step = if node_is(cs.first(), "rule"@) {
            acc.push(rule_of(cs.first()))
        } else {
            acc
        };
        scan_rule_entries(cs.drop_first(), step)
    }
}

/// A unit's children folded left to right, each "rules" container
/// contributing its entries.
pub open spec fn scan_rule_containers(cs: Seq<XmlNode>, acc: Seq<RuleModel>) -> Seq<RuleModel>
    decreases cs.len(),
{
    if cs.len() == 0 {
        acc
    } else {
        let step = if node_is(cs.first(), "rules"@) {
            scan_rule_entries(cs.first().children@, acc)
        } else {
            acc
        };
        scan_rule_containers(cs.drop_first(), step)
    }
}

/// The children of one "profiles" container folded left to right, each
/// qualifying "Abilities" profile appending one rule.
pub open spec fn scan_profile_entries(cs: Seq<XmlNode>, acc: Seq<RuleModel>) -> Seq<RuleModel>
    decreases cs.len(),
{
    if cs.len() == 0 {
        acc
    } else {
        let step = if is_ability_profile(cs.first()) {
            acc.push(ability_rule_of(cs.first()))
        } else {
            acc
        };
        scan_profile_entries(cs.drop_first(), step)
    }
}

/// A unit's children folded left to right, each "profiles" container
/// contributing its qualifying profiles.
pub open spec fn scan_profile_containers(cs: Seq<XmlNode>, acc: Seq<RuleModel>) -> Seq<RuleModel>
    decreases cs.len(),
{
    if cs.len() == 0 {
        acc
    } else {
        let step = if node_is(cs.first(), "profiles"@) {
            scan_profile_entries(cs.first().children@, acc)
        } else {
            acc
        };
        scan_profile_containers(cs.drop_first(), step)
    }
}

/// All rules of a unit, merged from its two sources in a fixed order:
/// every explicit "rule" element first, then every qualifying "Abilities"
/// profile, each source in document order, without deduplication.
pub open spec fn rules_of(u: XmlNode) -> Seq<RuleModel> {
    scan_profile_containers(u.children@, scan_rule_containers(u.children@, Seq::empty()))
}

// ---------------------------------------------------------------------------
// Units
// ---------------------------------------------------------------------------
/// Whether a "selection" element counts as a unit: its type discriminator
/// must be exactly "model" or "unit"; any other value, or a missing
/// attribute, excludes it.
pub open spec fn is_unit_selection(c: XmlNode) -> bool {
    &&& node_is(c, "selection"@)
    &&& (attr_of(c, "type"@) == "model"@ || attr_of(c, "type"@) == "unit"@)
}

/// The unit built from a qualifying "selection" element.
pub open spec fn unit_of(c: XmlNode) -> UnitModel {
    UnitModel { id: attr_of(c, "id"@), name: attr_of(c, "name"@), rules: rules_of(c) }
}

/// The children of one "selections" container folded left to right.
pub open spec fn scan_selection_entries(cs: Seq<XmlNode>, acc: Seq<UnitModel>) -> Seq<UnitModel>
    decreases cs.len(),
{
    if cs.len() == 0 {
        acc
    } else {
        let step = if is_unit_selection(cs.first()) {
            acc.push(unit_of(cs.first()))
        } else {
            acc
        };
        scan_selection_entries(cs.drop_first(), step)
    }
}

/// A force's children folded left to right, each "selections" container
/// contributing its qualifying selections.
pub open spec fn scan_selection_containers(cs: Seq<XmlNode>, acc: Seq<UnitModel>) -> Seq<UnitModel>
    decreases cs.len(),
{
    if cs.len() == 0 {
        acc
    } else {
        let step = if node_is(cs.first(), "selections"@) {
            scan_selection_entries(cs.first().children@, acc)
        } else {
            acc
        };
        scan_selection_containers(cs.drop_first(), step)
    }
}

/// All units of a force, in document order.
pub open spec fn units_of(f: XmlNode) -> Seq<UnitModel> {
    scan_selection_containers(f.children@, Seq::empty())
}

// ---------------------------------------------------------------------------
// Forces
// ---------------------------------------------------------------------------
/// The force built from a "force" element.
pub open spec fn force_of(c: XmlNode) -> ForceModel {
    ForceModel {
        faction: attr_of(c, "catalogueName"@),
        name: attr_of(c, "name"@),
        units: units_of(c),
    }
}

/// The children of one "forces" container folded left to right; every
/// "force" element is kept, without filtering.
pub open spec fn scan_force_entries(cs: Seq<XmlNode>, acc: Seq<ForceModel>) -> Seq<ForceModel>
    decreases cs.len(),
{
    if cs.len() == 0 {
        acc
    } else {
        let step = if node_is(cs.first(), "force"@) {
            acc.push(force_of(cs.first()))
        } else {
            acc
        };
        scan_force_entries(cs.drop_first(), step)
    }
}

/// A roster's children folded left to right, each "forces" container
/// contributing its forces.
pub open spec fn scan_force_containers(cs: Seq<XmlNode>, acc: Seq<ForceModel>) -> Seq<ForceModel>
    decreases cs.len(),
{
    if cs.len() == 0 {
        acc
    } else {
        let step = if node_is(cs.first(), "forces"@) {
            scan_force_entries(cs.first().children@, acc)
        } else {
            acc
        };
        scan_force_containers(cs.drop_first(), step)
    }
}

/// All forces of a roster, in document order.
pub open spec fn forces_of(r: XmlNode) -> Seq<ForceModel> {
    scan_force_containers(r.children@, Seq::empty())
}

// ---------------------------------------------------------------------------
// Roster
// ---------------------------------------------------------------------------
/// The full model extracted from a roster root element.
pub open spec fn roster_of(r: XmlNode) -> RosterModel {
    RosterModel {
        name: attr_of(r, "name"@),
        power_level: costs_of(r).0,
        points: costs_of(r).1,
        forces: forces_of(r),
    }
}

proof fn lemma_skip_step(cs: Seq<XmlNode>, i: int)
    requires
        0 <= i < cs.len(),
    ensures
        cs.skip(i).len() == cs.len() - i,
        cs.skip(i).first() == cs[i],
        cs.skip(i).drop_first() == cs.skip(i + 1),
{
    assert(cs.skip(i).drop_first() =~= cs.skip(i + 1));
}

/// The namespace string of the roster schema, as written in documents.
fn schema_ns_str() -> (r: &'static str)
    ensures
        r@ == crate::tree::schema_ns(),
{
    "http://www.battlescribe.net/schema/rosterSchema"
}

/// Whether `c` is tagged `tag` under the roster schema namespace: the one
/// tag test every extractor goes through.
fn is_schema_tag(c: &XmlNode, tag: &str) -> (r: bool)
    ensures
        r == node_is(*c, tag@),
{
    c.is_named(tag, schema_ns_str())
}

/// Extracts the (power level, points) pair of the roster: scans every
/// "costs" container for "cost" entries and folds them into the two
/// totals, which start at zero. An entry whose "value" is missing or
/// unparsable leaves its total at the prior value; a later parsable entry
/// with the same name discriminator overwrites an earlier one.
#[verifier::loop_isolation(false)]
pub fn get_costs(r: &XmlNode) -> (res: (Decimal, Decimal))
    ensures
        res == costs_of(*r),
{
    let mut pl = Decimal::zero();
    let mut pts = Decimal::zero();
    proof {
        assert(r.children@.skip(0) =~= r.children@);
    }
    let mut i: usize = 0;
    while i < r.children.len()
        invariant
            0 <= i <= r.children@.len(),
            scan_cost_containers(r.children@.skip(i as int), (pl, pts)) == costs_of(*r),
        decreases r.children@.len() - i,
    {
        proof {
            lemma_skip_step(r.children@, i as int);
        }
        let c0 = &r.children[i];
        if is_schema_tag(c0, "costs") {
            proof {
                assert(c0.children@.skip(0) =~= c0.children@);
            }
            let mut j: usize = 0;
            while j < c0.children.len()
                invariant
                    0 <= j <= c0.children@.len(),
                    scan_cost_containers(
                        r.children@.skip(i as int + 1),
                        scan_costs(c0.children@.skip(j as int), (pl, pts)),
                    ) == costs_of(*r),
                decreases c0.children@.len() - j,
            {
                proof {
                    lemma_skip_step(c0.children@, j as int);
                }
                let c1 = &c0.children[j];
                if is_schema_tag(c1, "cost") {
                    let v = get_attr(c1, "value");
                    let nm = get_attr(c1, "name");
                    match parse_decimal(v.as_str()) {
                        Some(d) => {
                            if nm == " PL".to_owned() {
                                pl = d;
                            }
                            if nm == "pts".to_owned() {
                                pts = d;
                            }
                        },
                        None => {},
                    }
                }
                j = j + 1;
            }
        }
        i = i + 1;
    }
    (pl, pts)
}

/// Extracts every force of the roster, in document order: each "force"
/// element under a "forces" container becomes one force, with its faction
/// read from the catalogue-name attribute and its units extracted from its
/// "selections" containers.
#[verifier::loop_isolation(false)]
pub fn get_forces(r: &XmlNode) -> (res: Vec<Force>)
    ensures
        res@.map_values(|f: Force| f@) == forces_of(*r),
{
    let mut forces: Vec<Force> = Vec::new();
    proof {
        assert(r.children@.skip(0) =~= r.children@);
        assert(forces@.map_values(|f: Force| f@) =~= Seq::<ForceModel>::empty());
    }
    let mut i: usize = 0;
    while i < r.children.len()
        invariant
            0 <= i <= r.children@.len(),
            scan_force_containers(r.children@.skip(i as int), forces@.map_values(|f: Force| f@))
                == forces_of(*r),
        decreases r.children@.len() - i,
    {
        proof {
            lemma_skip_step(r.children@, i as int);
        }
        let c0 = &r.children[i];
        if is_schema_tag(c0, "forces") {
            proof {
                assert(c0.children@.skip(0) =~= c0.children@);
            }
            let mut j: usize = 0;
            while j < c0.children.len()
                invariant
                    0 <= j <= c0.children@.len(),
                    scan_force_containers(
                        r.children@.skip(i as int + 1),
                        scan_force_entries(
                            c0.children@.skip(j as int),
                            forces@.map_values(|f: Force| f@),
                        ),
                    ) == forces_of(*r),
                decreases c0.children@.len() - j,
            {
                proof {
                    lemma_skip_step(c0.children@, j as int);
                }
                let c1 = &c0.children[j];
                if is_schema_tag(c1, "force") {
                    let faction = get_attr(c1, "catalogueName");
                    let name = get_attr(c1, "name");
                    let units = get_units(c1);
                    let ghost before = forces@.map_values(|f: Force| f@);
                    forces.push(Force::new(faction, name, units));
                    proof {
                        assert(forces@.map_values(|f: Force| f@) =~= before.push(
                            force_of(c0.children@[j as int]),
                        ));
                    }
                }
                j = j + 1;
            }
        }
        i = i + 1;
    }
    forces
}

/// Extracts every unit of a force, in document order: each "selection"
/// element under a "selections" container whose type discriminator is
/// "model" or "unit" becomes one unit; every other selection is skipped.
#[verifier::loop_isolation(false)]
pub fn get_units(f: &XmlNode) -> (res: Vec<Unit>)
    ensures
        res@.map_values(|u: Unit| u@) == units_of(*f),
{
    let mut units: Vec<Unit> = Vec::new();
    proof {
        assert(f.children@.skip(0) =~= f.children@);
        assert(units@.map_values(|u: Unit| u@) =~= Seq::<UnitModel>::empty());
    }
    let mut i: usize = 0;
    while i < f.children.len()
        invariant
            0 <= i <= f.children@.len(),
            scan_selection_containers(f.children@.skip(i as int), units@.map_values(|u: Unit| u@))
                == units_of(*f),
        decreases f.children@.len() - i,
    {
        proof {
            lemma_skip_step(f.children@, i as int);
        }
        let c0 = &f.children[i];
        if is_schema_tag(c0, "selections") {
            proof {
                assert(c0.children@.skip(0) =~= c0.children@);
            }
            let mut j: usize = 0;
            while j < c0.children.len()
                invariant
                    0 <= j <= c0.children@.len(),
                    scan_selection_containers(
                        f.children@.skip(i as int + 1),
                        scan_selection_entries(
                            c0.children@.skip(j as int),
                            units@.map_values(|u: Unit| u@),
                        ),
                    ) == units_of(*f),
                decreases c0.children@.len() - j,
            {
                proof {
                    lemma_skip_step(c0.children@, j as int);
                }
                let c1 = &c0.children[j];
                if is_schema_tag(c1, "selection") {
                    let ty = get_attr(c1, "type");
                    if ty == "model".to_owned() || ty == "unit".to_owned() {
                        let id = get_attr(c1, "id");
                        let name = get_attr(c1, "name");
                        let rules = get_rules(c1);
                        let ghost before = units@.map_values(|u: Unit| u@);
                        units.push(Unit::new(id, name, rules));
                        proof {
                            assert(units@.map_values(|u: Unit| u@) =~= before.push(
                                unit_of(c0.children@[j as int]),
                            ));
                        }
                    }
                }
                j = j + 1;
            }
        }
        i = i + 1;
    }
    units
}

/// Extracts every rule of a unit, merged from its two sources in a fixed
/// order: first each "rule" element under a "rules" container, then each
/// "Abilities"-typed "profile" element under a "profiles" container, both
/// in document order. A rule sourced from a profile carries an empty id.
/// The same rule arriving through both paths is kept twice: no
/// deduplication is performed.
#[verifier::loop_isolation(false)]
pub fn get_rules(u: &XmlNode) -> (res: Vec<RosterRule>)
    ensures
        res@.map_values(|x: RosterRule| x@) == rules_of(*u),
{
    let mut rules: Vec<RosterRule> = Vec::new();
    proof {
        assert(u.children@.skip(0) =~= u.children@);
        assert(rules@.map_values(|x: RosterRule| x@) =~= Seq::<RuleModel>::empty());
    }
    let mut i: usize = 0;
    while i < u.children.len()
        invariant
            0 <= i <= u.children@.len(),
            scan_profile_containers(
                u.children@,
                scan_rule_containers(
                    u.children@.skip(i as int),
                    rules@.map_values(|x: RosterRule| x@),
                ),
            ) == rules_of(*u),
        decreases u.children@.len() - i,
    {
        proof {
            lemma_skip_step(u.children@, i as int);
        }
        let c0 = &u.children[i];
        if is_schema_tag(c0, "rules") {
            proof {
                assert(c0.children@.skip(0) =~= c0.children@);
            }
            let mut j: usize = 0;
            while j < c0.children.len()
                invariant
                    0 <= j <= c0.children@.len(),
                    scan_profile_containers(
                        u.children@,
                        scan_rule_containers(
                            u.children@.skip(i as int + 1),
                            scan_rule_entries(
                                c0.children@.skip(j as int),
                                rules@.map_values(|x: RosterRule| x@),
                            ),
                        ),
                    ) == rules_of(*u),
                decreases c0.children@.len() - j,
            {
                proof {
                    lemma_skip_step(c0.children@, j as int);
                }
                let c1 = &c0.children[j];
                if is_schema_tag(c1, "rule") {
                    let id = get_attr(c1, "id");
                    let name = get_attr(c1, "name");
                    let description = get_rule_description(c1);
                    let ghost before = rules@.map_values(|x: RosterRule| x@);
                    rules.push(RosterRule::new(id, name, description));
                    proof {
                        assert(rules@.map_values(|x: RosterRule| x@) =~= before.push(
                            rule_of(c0.children@[j as int]),
                        ));
                    }
                }
                j = j + 1;
            }
        }
        i = i + 1;
    }
    let mut i: usize = 0;
    while i < u.children.len()
        invariant
            0 <= i <= u.children@.len(),
            scan_profile_containers(
                u.children@.skip(i as int),
                rules@.map_values(|x: RosterRule| x@),
            ) == rules_of(*u),
        decreases u.children@.len() - i,
    {
        proof {
            lemma_skip_step(u.children@, i as int);
        }
        let c0 = &u.children[i];
        if is_schema_tag(c0, "profiles") {
            proof {
                assert(c0.children@.skip(0) =~= c0.children@);
            }
            let mut j: usize = 0;
            while j < c0.children.len()
                invariant
                    0 <= j <= c0.children@.len(),
                    scan_profile_containers(
                        u.children@.skip(i as int + 1),
                        scan_profile_entries(
                            c0.children@.skip(j as int),
                            rules@.map_values(|x: RosterRule| x@),
                        ),
                    ) == rules_of(*u),
                decreases c0.children@.len() - j,
            {
                proof {
                    lemma_skip_step(c0.children@, j as int);
                }
                let c1 = &c0.children[j];
                if is_schema_tag(c1, "profile") {
                    let ty = get_attr(c1, "typeName");
                    if ty == "Abilities".to_owned() {
                        let name = get_attr(c1, "name");
                        let description = get_ability_description(c1);
                        let ghost before = rules@.map_values(|x: RosterRule| x@);
                        rules.push(RosterRule::new(String::new(), name, description));
                        proof {
                            assert(rules@.map_values(|x: RosterRule| x@) =~= before.push(
                                ability_rule_of(c0.children@[j as int]),
                            ));
                        }
                    }
                }
                j = j + 1;
            }
        }
        i = i + 1;
    }
    rules
}

/// Extracts the description of an explicit "rule" element: the text of its
/// first "description" child, or the empty string when it has none.
#[verifier::loop_isolation(false)]
pub fn get_rule_description(r: &XmlNode) -> (d: String)
    ensures
        d@ == rule_description_of(*r),
{
    proof {
        assert(r.children@.skip(0) =~= r.children@);
    }
    let mut i: usize = 0;
    while i < r.children.len()
        invariant
            0 <= i <= r.children@.len(),
            rule_description_in(r.children@.skip(i as int)) == rule_description_of(*r),
        decreases r.children@.len() - i,
    {
        proof {
            lemma_skip_step(r.children@, i as int);
        }
        let c0 = &r.children[i];
        if is_schema_tag(c0, "description") {
            return c0.text.clone();
        }
        i = i + 1;
    }
    String::new()
}

/// Extracts the description of an "Abilities" profile: the text of the
/// first "characteristic" child named "Description" under any
/// "characteristics" child, or the empty string when the nested structure
/// is absent at any level.
#[verifier::loop_isolation(false)]
pub fn get_ability_description(a: &XmlNode) -> (d: String)
    ensures
        d@ == ability_description_of(*a),
{
    proof {
        assert(a.children@.skip(0) =~= a.children@);
    }
    let mut i: usize = 0;
    while i < a.children.len()
        invariant
            0 <= i <= a.children@.len(),
            ability_description_in(a.children@.skip(i as int)) == ability_description_of(*a),
        decreases a.children@.len() - i,
    {
        proof {
            lemma_skip_step(a.children@, i as int);
        }
        let c0 = &a.children[i];
        if is_schema_tag(c0, "characteristics") {
            proof {
                assert(c0.children@.skip(0) =~= c0.children@);
            }
            let mut j: usize = 0;
            while j < c0.children.len()
                invariant
                    0 <= j <= c0.children@.len(),
                    characteristic_desc_in(c0.children@.skip(j as int)) == characteristic_desc_in(
                        c0.children@,
                    ),
                decreases c0.children@.len() - j,
            {
                proof {
                    lemma_skip_step(c0.children@, j as int);
                }
                let c1 = &c0.children[j];
                if is_schema_tag(c1, "characteristic") {
                    let nm = get_attr(c1, "name");
                    if nm == "Description".to_owned() {
                        return c1.text.clone();
                    }
                }
                j = j + 1;
            }
            proof {
                assert(c0.children@.skip(c0.children@.len() as int) =~= Seq::<XmlNode>::empty());
            }
        }
        i = i + 1;
    }
    String::new()
}

/// The single entry point of the conversion: reads the roster name, the
/// cost totals and the forces off the root element and assembles the owned
/// model. Total over any tree: missing pieces become empty strings, zero
/// totals or empty sequences, never an error.
pub fn create_roster(root: &XmlNode) -> (r: Roster)
    ensures
        r@ == roster_of(*root),
{
    let name = get_attr(root, "name");
    let (power_level, points) = get_costs(root);
    let forces = get_forces(root);
    Roster::new(name, power_level, points, forces)
}

// ---------------------------------------------------------------------------
// Laws
// ---------------------------------------------------------------------------
proof fn lemma_scan_cost_containers_no_match(cs: Seq<XmlNode>, acc: (Decimal, Decimal))
    requires
        forall|i: int| 0 <= i < cs.len() ==> !node_is(#[trigger] cs[i], "costs"@),
    ensures
        scan_cost_containers(cs, acc) == acc,
    decreases cs.len(),
{
    if cs.len() > 0 {
        assert(cs.first() == cs[0]);
        assert(forall|i: int|
            0 <= i < cs.drop_first().len() ==> #[trigger] cs.drop_first()[i] == cs[i + 1]);
        lemma_scan_cost_containers_no_match(cs.drop_first(), acc);
    }
}

/// A tree without any "costs" container under its root extracts to a power
/// level and a points total that are both zero.
pub proof fn lemma_missing_costs_container_zero(r: XmlNode)
    requires
        forall|i: int| 0 <= i < r.children@.len() ==> !node_is(#[trigger] r.children@[i], "costs"@),
    ensures
        costs_of(r) == (Decimal::spec_zero(), Decimal::spec_zero()),
{
    lemma_scan_cost_containers_no_match(
        r.children@,
        (Decimal::spec_zero(), Decimal::spec_zero()),
    );
}

/// A "cost" entry whose name discriminator is not the power-level marker
/// never changes the power-level total, whatever its value holds; and one
/// whose name is not the points marker never changes the points total.
pub proof fn lemma_cost_step_other_total_unchanged(c: XmlNode, acc: (Decimal, Decimal))
    ensures
        attr_of(c, "name"@) != " PL"@ ==> cost_step(c, acc).0 == acc.0,
        attr_of(c, "name"@) != "pts"@ ==> cost_step(c, acc).1 == acc.1,
{
}

/// A "cost" entry whose value is missing or does not parse leaves both
/// totals at their prior values, whatever its name discriminator says; in
/// particular a total never set stays zero. The conversion itself never
/// fails on such an entry.
pub proof fn lemma_unparsable_cost_changes_nothing(c: XmlNode, acc: (Decimal, Decimal))
    requires
        !crate::decimal::dec_parses(attr_of(c, "value"@)),
    ensures
        cost_step(c, acc) == acc,
{
    assert((acc.0, acc.1) == acc);
}

/// The extraction is deterministic: any two rosters extracted from the
/// same tree are structurally identical. The model is a pure function of
/// the tree, so repeated runs agree.
pub proof fn lemma_extraction_deterministic(t: XmlNode, r1: Roster, r2: Roster)
    requires
        r1@ == roster_of(t),
        r2@ == roster_of(t),
    ensures
        r1@ == r2@,
{
}

} // verus!
