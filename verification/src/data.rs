//! The owned domain model that the extraction builds: a roster owning
//! forces, which own units, which own rules. Every entity is immutable once
//! built, every textual field defaults to the empty string, and the two
//! cost totals default to zero.
//!
//! Each entity has a ghost model (`RosterModel` and so on) holding its
//! mathematical content; the contracts of the extraction are stated over
//! those models.

use vstd::prelude::*;

use crate::decimal::Decimal;

verus! {

/// The content of a [`RosterRule`].
pub ghost struct RuleModel {
    pub id: Seq<char>,
    pub name: Seq<char>,
    pub description: Seq<char>,
}

/// The content of a [`Unit`].
pub ghost struct UnitModel {
    pub id: Seq<char>,
    pub name: Seq<char>,
    pub rules: Seq<RuleModel>,
}

/// The content of a [`Force`].
pub ghost struct ForceModel {
    pub faction: Seq<char>,
    pub name: Seq<char>,
    pub units: Seq<UnitModel>,
}

/// The content of a [`Roster`].
pub ghost struct RosterModel {
    pub name: Seq<char>,
    pub power_level: Decimal,
    pub points: Decimal,
    pub forces: Seq<ForceModel>,
}

/// A named ability attached to a unit. Rules sourced from an ability
/// profile carry an empty `id`, since that source has no id in the same
/// slot.
pub struct RosterRule {
    id: String,
    name: String,
    description: String,
}

impl View for RosterRule {
    type V = RuleModel;

    closed spec fn view(&self) -> RuleModel {
        RuleModel { id: self.id@, name: self.name@, description: self.description@ }
    }
}

impl RosterRule {
    pub fn new(id: String, name: String, description: String) -> (r: RosterRule)
        ensures
            r@ == (RuleModel { id: id@, name: name@, description: description@ }),
    {
        RosterRule { id, name, description }
    }

    pub fn get_id(&self) -> (r: &String)
        ensures
            r@ == self@.id,
    {
        &self.id
    }

    pub fn get_name(&self) -> (r: &String)
        ensures
            r@ == self@.name,
    {
        &self.name
    }

    pub fn get_description(&self) -> (r: &String)
        ensures
            r@ == self@.description,
    {
        &self.description
    }
}

/// A model or unit entry within a force.
pub struct Unit {
    id: String,
    name: String,
    rules: Vec<RosterRule>,
}

impl View for Unit {
    type V = UnitModel;

    closed spec fn view(&self) -> UnitModel {
        UnitModel {
            id: self.id@,
            name: self.name@,
            rules: self.rules@.map_values(|r: RosterRule| r@),
        }
    }
}

impl Unit {
    pub fn new(id: String, name: String, rules: Vec<RosterRule>) -> (r: Unit)
        ensures
            r@ == (UnitModel {
                id: id@,
                name: name@,
                rules: rules@.map_values(|r: RosterRule| r@),
            }),
    {
        Unit { id, name, rules }
    }

    pub fn get_id(&self) -> (r: &String)
        ensures
            r@ == self@.id,
    {
        &self.id
    }

    pub fn get_name(&self) -> (r: &String)
        ensures
            r@ == self@.name,
    {
        &self.name
    }

    pub fn get_rules(&self) -> (r: &Vec<RosterRule>)
        ensures
            r@.map_values(|x: RosterRule| x@) == self@.rules,
    {
        &self.rules
    }
}

/// A detachment within a roster, tied to one faction.
pub struct Force {
    faction: String,
    name: String,
    units: Vec<Unit>,
}

impl View for Force {
    type V = ForceModel;

    closed spec fn view(&self) -> ForceModel {
        ForceModel {
            faction: self.faction@,
            name: self.name@,
            units: self.units@.map_values(|u: Unit| u@),
        }
    }
}

impl Force {
    pub fn new(faction: String, name: String, units: Vec<Unit>) -> (r: Force)
        ensures
            r@ == (ForceModel {
                faction: faction@,
                name: name@,
                units: units@.map_values(|u: Unit| u@),
            }),
    {
        Force { faction, name, units }
    }

    pub fn get_faction(&self) -> (r: &String)
        ensures
            r@ == self@.faction,
    {
        &self.faction
    }

    pub fn get_name(&self) -> (r: &String)
        ensures
            r@ == self@.name,
    {
        &self.name
    }

    pub fn get_units(&self) -> (r: &Vec<Unit>)
        ensures
            r@.map_values(|u: Unit| u@) == self@.units,
    {
        &self.units
    }
}

/// The top-level army list.
pub struct Roster {
    name: String,
    power_level: Decimal,
    points: Decimal,
    forces: Vec<Force>,
}

impl View for Roster {
    type V = RosterModel;

    closed spec fn view(&self) -> RosterModel {
        RosterModel {
            name: self.name@,
            power_level: self.power_level,
            points: self.points,
            forces: self.forces@.map_values(|f: Force| f@),
        }
    }
}

impl Roster {
    pub fn new(name: String, power_level: Decimal, points: Decimal, forces: Vec<Force>) -> (r:
        Roster)
        ensures
            r@ == (RosterModel {
                name: name@,
                power_level,
                points,
                forces: forces@.map_values(|f: Force| f@),
            }),
    {
        Roster { name, power_level, points, forces }
    }

    pub fn get_name(&self) -> (r: &String)
        ensures
            r@ == self@.name,
    {
        &self.name
    }

    pub fn get_power_level(&self) -> (r: &Decimal)
        ensures
            *r == self@.power_level,
    {
        &self.power_level
    }

    pub fn get_points(&self) -> (r: &Decimal)
        ensures
            *r == self@.points,
    {
        &self.points
    }

    pub fn get_forces(&self) -> (r: &Vec<Force>)
        ensures
            r@.map_values(|f: Force| f@) == self@.forces,
    {
        &self.forces
    }
}

} // verus!
