//! The static side table of rule metadata: rules keyed by name, with the
//! game phase and turn they apply in and a list of textual conditions.
//!
//! The table is loaded from a flat store of records whose phase and turn
//! are still numeric; `build_rules` turns those records into typed rules,
//! falling back to the first phase and to both turns when a numeric code
//! is out of range.

use vstd::prelude::*;

verus! {

/// A game phase, in play order. `phase_value` numbers the phases from
/// zero in this order, and `Phase::name` is its partial inverse.
#[derive(Clone, Copy, Debug, PartialEq, Eq)]
pub enum Phase {
    BeforeGame,
    CommandStart,
    Command,
    CommandEnd,
    MovementStart,
    Movement,
    Reinforcements,
    MovementEnd,
    PsychicStart,
    PsychicTest,
    PsychicDeny,
    PsychicDamage,
    PsychicEnd,
    ShootingStart,
    ShootingTargets,
    ShootingHits,
    ShootingWounds,
    ShootingSaves,
    ShootingDamage,
    ShootingEnd,
    ChargeStart,
    Charge,
    HeroicIntervention,
    ChargeEnd,
    FightStart,
    FightPileIn,
    FightTargets,
    FightHits,
    FightWounds,
    FightSaves,
    FightDamage,
    FightConsolidate,
    FightEnd,
    MoraleStart,
    Morale,
    CombatAttrition,
    UnitCoherency,
    MoraleEnd,
    TurnEnd,
}

/// The numeric code of a phase: its position in play order.
pub open spec fn phase_value(p: Phase) -> int {
    match p {
        Phase::BeforeGame => 0,
        Phase::CommandStart => 1,
        Phase::Command => 2,
        Phase::CommandEnd => 3,
        Phase::MovementStart => 4,
        Phase::Movement => 5,
        Phase::Reinforcements => 6,
        Phase::MovementEnd => 7,
        Phase::PsychicStart => 8,
        Phase::PsychicTest => 9,
        Phase::PsychicDeny => 10,
        Phase::PsychicDamage => 11,
        Phase::PsychicEnd => 12,
        Phase::ShootingStart => 13,
        Phase::ShootingTargets => 14,
        Phase::ShootingHits => 15,
        Phase::ShootingWounds => 16,
        Phase::ShootingSaves => 17,
        Phase::ShootingDamage => 18,
        Phase::ShootingEnd => 19,
        Phase::ChargeStart => 20,
        Phase::Charge => 21,
        Phase::HeroicIntervention => 22,
        Phase::ChargeEnd => 23,
        Phase::FightStart => 24,
        Phase::FightPileIn => 25,
        Phase::FightTargets => 26,
        Phase::FightHits => 27,
        Phase::FightWounds => 28,
        Phase::FightSaves => 29,
        Phase::FightDamage => 30,
        Phase::FightConsolidate => 31,
        Phase::FightEnd => 32,
        Phase::MoraleStart => 33,
        Phase::Morale => 34,
        Phase::CombatAttrition => 35,
        Phase::UnitCoherency => 36,
        Phase::MoraleEnd => 37,
        Phase::TurnEnd => 38,
    }
}

/// The phase with numeric code `v`, when `v` is in range.
pub open spec fn phase_from_value(v: int) -> Option<Phase> {
    if exists|p: Phase| phase_value(p) == v {
        Some(choose|p: Phase| phase_value(p) == v)
    } else {
        None
    }
}

/// Distinct phases carry distinct numeric codes.
pub proof fn lemma_phase_value_injective()
    ensures
        forall|p1: Phase, p2: Phase| phase_value(p1) == phase_value(p2) ==> p1 == p2,
{
}

/// Every phase's numeric code lies between 0 and 38.
pub proof fn lemma_phase_value_range()
    ensures
        forall|p: Phase| 0 <= #[trigger] phase_value(p) <= 38,
{
}

impl Phase {
    /// The phase that the numeric code `value` names: exactly the codes
    /// 0 through 38 name one.
    pub fn name(value: i32) -> (r: Option<Phase>)
        ensures
            r == phase_from_value(value as int),
    {
        proof {
            lemma_phase_value_injective();
            lemma_phase_value_range();
            assert(phase_value(Phase::BeforeGame) == 0);
            assert(phase_value(Phase::CommandStart) == 1);
            assert(phase_value(Phase::Command) == 2);
            assert(phase_value(Phase::CommandEnd) == 3);
            assert(phase_value(Phase::MovementStart) == 4);
            assert(phase_value(Phase::Movement) == 5);
            assert(phase_value(Phase::Reinforcements) == 6);
            assert(phase_value(Phase::MovementEnd) == 7);
            assert(phase_value(Phase::PsychicStart) == 8);
            assert(phase_value(Phase::PsychicTest) == 9);
            assert(phase_value(Phase::PsychicDeny) == 10);
            assert(phase_value(Phase::PsychicDamage) == 11);
            assert(phase_value(Phase::PsychicEnd) == 12);
            assert(phase_value(Phase::ShootingStart) == 13);
            assert(phase_value(Phase::ShootingTargets) == 14);
            assert(phase_value(Phase::ShootingHits) == 15);
            assert(phase_value(Phase::ShootingWounds) == 16);
            assert(phase_value(Phase::ShootingSaves) == 17);
            assert(phase_value(Phase::ShootingDamage) == 18);
            assert(phase_value(Phase::ShootingEnd) == 19);
            assert(phase_value(Phase::ChargeStart) == 20);
            assert(phase_value(Phase::Charge) == 21);
            assert(phase_value(Phase::HeroicIntervention) == 22);
            assert(phase_value(Phase::ChargeEnd) == 23);
            assert(phase_value(Phase::FightStart) == 24);
            assert(phase_value(Phase::FightPileIn) == 25);
            assert(phase_value(Phase::FightTargets) == 26);
            assert(phase_value(Phase::FightHits) == 27);
            assert(phase_value(Phase::FightWounds) == 28);
            assert(phase_value(Phase::FightSaves) == 29);
            assert(phase_value(Phase::FightDamage) == 30);
            assert(phase_value(Phase::FightConsolidate) == 31);
            assert(phase_value(Phase::FightEnd) == 32);
            assert(phase_value(Phase::MoraleStart) == 33);
            assert(phase_value(Phase::Morale) == 34);
            assert(phase_value(Phase::CombatAttrition) == 35);
            assert(phase_value(Phase::UnitCoherency) == 36);
            assert(phase_value(Phase::MoraleEnd) == 37);
            assert(phase_value(Phase::TurnEnd) == 38);
        }
        match value {
            0 => Some(Phase::BeforeGame),
            1 => Some(Phase::CommandStart),
            2 => Some(Phase::Command),
            3 => Some(Phase::CommandEnd),
            4 => Some(Phase::MovementStart),
            5 => Some(Phase::Movement),
            6 => Some(Phase::Reinforcements),
            7 => Some(Phase::MovementEnd),
            8 => Some(Phase::PsychicStart),
            9 => Some(Phase::PsychicTest),
            10 => Some(Phase::PsychicDeny),
            11 => Some(Phase::PsychicDamage),
            12 => Some(Phase::PsychicEnd),
            13 => Some(Phase::ShootingStart),
            14 => Some(Phase::ShootingTargets),
            15 => Some(Phase::ShootingHits),
            16 => Some(Phase::ShootingWounds),
            17 => Some(Phase::ShootingSaves),
            18 => Some(Phase::ShootingDamage),
            19 => Some(Phase::ShootingEnd),
            20 => Some(Phase::ChargeStart),
            21 => Some(Phase::Charge),
            22 => Some(Phase::HeroicIntervention),
            23 => Some(Phase::ChargeEnd),
            24 => Some(Phase::FightStart),
            25 => Some(Phase::FightPileIn),
            26 => Some(Phase::FightTargets),
            27 => Some(Phase::FightHits),
            28 => Some(Phase::FightWounds),
            29 => Some(Phase::FightSaves),
            30 => Some(Phase::FightDamage),
            31 => Some(Phase::FightConsolidate),
            32 => Some(Phase::FightEnd),
            33 => Some(Phase::MoraleStart),
            34 => Some(Phase::Morale),
            35 => Some(Phase::CombatAttrition),
            36 => Some(Phase::UnitCoherency),
            37 => Some(Phase::MoraleEnd),
            38 => Some(Phase::TurnEnd),
            _ => None,
        }
    }

    /// The numeric code of this phase.
    pub fn value(&self) -> (r: i32)
        ensures
            r == phase_value(*self),
    {
        match *self {
            Phase::BeforeGame => 0,
            Phase::CommandStart => 1,
            Phase::Command => 2,
            Phase::CommandEnd => 3,
            Phase::MovementStart => 4,
            Phase::Movement => 5,
            Phase::Reinforcements => 6,
            Phase::MovementEnd => 7,
            Phase::PsychicStart => 8,
            Phase::PsychicTest => 9,
            Phase::PsychicDeny => 10,
            Phase::PsychicDamage => 11,
            Phase::PsychicEnd => 12,
            Phase::ShootingStart => 13,
            Phase::ShootingTargets => 14,
            Phase::ShootingHits => 15,
            Phase::ShootingWounds => 16,
            Phase::ShootingSaves => 17,
            Phase::ShootingDamage => 18,
            Phase::ShootingEnd => 19,
            Phase::ChargeStart => 20,
            Phase::Charge => 21,
            Phase::HeroicIntervention => 22,
            Phase::ChargeEnd => 23,
            Phase::FightStart => 24,
            Phase::FightPileIn => 25,
            Phase::FightTargets => 26,
            Phase::FightHits => 27,
            Phase::FightWounds => 28,
            Phase::FightSaves => 29,
            Phase::FightDamage => 30,
            Phase::FightConsolidate => 31,
            Phase::FightEnd => 32,
            Phase::MoraleStart => 33,
            Phase::Morale => 34,
            Phase::CombatAttrition => 35,
            Phase::UnitCoherency => 36,
            Phase::MoraleEnd => 37,
            Phase::TurnEnd => 38,
        }
    }
}

/// Whose turn a rule applies in.
#[derive(Clone, Copy, Debug, PartialEq, Eq)]
pub enum Turn {
    Friendly,
    Opponent,
    Both,
}

/// The numeric code of a turn kind.
pub open spec fn turn_value(t: Turn) -> int {
    match t {
        Turn::Friendly => 0,
        Turn::Opponent => 1,
        Turn::Both => 2,
    }
}

/// The turn kind with numeric code `v`, when `v` is in range.
pub open spec fn turn_from_value(v: int) -> Option<Turn> {
    if exists|t: Turn| turn_value(t) == v {
        Some(choose|t: Turn| turn_value(t) == v)
    } else {
        None
    }
}

/// Distinct turn kinds carry distinct numeric codes, and every code lies
/// between 0 and 2.
pub proof fn lemma_turn_value_injective_range()
    ensures
        forall|t1: Turn, t2: Turn| turn_value(t1) == turn_value(t2) ==> t1 == t2,
        forall|t: Turn| 0 <= #[trigger] turn_value(t) <= 2,
{
}

impl Turn {
    /// The turn kind that the numeric code `value` names: exactly the
    /// codes 0 through 2 name one.
    pub fn name(value: i32) -> (r: Option<Turn>)
        ensures
            r == turn_from_value(value as int),
    {
        proof {
            lemma_turn_value_injective_range();
            assert(turn_value(Turn::Friendly) == 0);
            assert(turn_value(Turn::Opponent) == 1);
            assert(turn_value(Turn::Both) == 2);
        }
        match value {
            0 => Some(Turn::Friendly),
            1 => Some(Turn::Opponent),
            2 => Some(Turn::Both),
            _ => None,
        }
    }

    /// The numeric code of this turn kind.
    pub fn value(&self) -> (r: i32)
        ensures
            r == turn_value(*self),
    {
        match *self {
            Turn::Friendly => 0,
            Turn::Opponent => 1,
            Turn::Both => 2,
        }
    }
}

/// The content of a [`Rule`] of the side table.
pub ghost struct StoredRuleModel {
    pub name: Seq<char>,
    pub description: Seq<char>,
    pub phase: Phase,
    pub turn: Turn,
    pub conditions: Seq<Seq<char>>,
}

/// One rule of the side table.
pub struct Rule {
    name: String,
    description: String,
    phase: Phase,
    turn: Turn,
    conditions: Vec<String>,
}

impl View for Rule {
    type V = StoredRuleModel;

    closed spec fn view(&self) -> StoredRuleModel {
        StoredRuleModel {
            name: self.name@,
            description: self.description@,
            phase: self.phase,
            turn: self.turn,
            conditions: self.conditions.deep_view(),
        }
    }
}

impl Rule {
    pub fn new(name: String, description: String, phase: Phase, turn: Turn, conditions: Vec<
        String,
    >) -> (r: Rule)
        ensures
            r@ == (StoredRuleModel {
                name: name@,
                description: description@,
                phase,
                turn,
                conditions: conditions.deep_view(),
            }),
    {
        Rule { name, description, phase, turn, conditions }
    }

    pub fn get_name(&self) -> (r: &String)
        ensures
            r@ == self@.name,
    {
        &self.name
    }

    pub fn get_description(&self) -> (r: &String)
        ensures
            r@ == self@.description,
    {
        &self.description
    }

    pub fn get_phase(&self) -> (r: &Phase)
        ensures
            *r == self@.phase,
    {
        &self.phase
    }

    pub fn get_turn(&self) -> (r: &Turn)
        ensures
            *r == self@.turn,
    {
        &self.turn
    }

    pub fn get_conditions(&self) -> (r: &Vec<String>)
        ensures
            r.deep_view() == self@.conditions,
    {
        &self.conditions
    }
}

/// One record of the side table as it comes from the flat store: phase
/// and turn still numeric.
pub struct ValueRule {
    pub conditions: Vec<String>,
    pub description: String,
    pub name: String,
    pub phase: i32,
    pub turn: i32,
}

/// The typed rule that a flat record denotes: a phase code out of range
/// falls back to the pre-game phase, a turn code out of range to both
/// turns.
pub open spec fn rule_of_record(v: ValueRule) -> StoredRuleModel {
    StoredRuleModel {
        name: v.name@,
        description: v.description@,
        phase: match phase_from_value(v.phase as int) {
            Some(p) => p,
            None => Phase::BeforeGame,
        },
        turn: match turn_from_value(v.turn as int) {
            Some(t) => t,
            None => Turn::Both,
        },
        conditions: v.conditions.deep_view(),
    }
}

/// Builds the typed rule table from the flat records, one rule per record
/// in order.
pub fn build_rules(records: Vec<ValueRule>) -> (r: Vec<Rule>)
    ensures
        r@.map_values(|x: Rule| x@) == records@.map_values(|v: ValueRule| rule_of_record(v)),
{
    let ghost orig = records@;
    let mut records = records;
    let mut rules: Vec<Rule> = Vec::new();
    proof {
        assert(rules@.map_values(|x: Rule| x@) + records@.map_values(
            |v: ValueRule| rule_of_record(v),
        ) =~= orig.map_values(|v: ValueRule| rule_of_record(v)));
    }
    while records.len() > 0
        invariant
            rules@.map_values(|x: Rule| x@) + records@.map_values(|v: ValueRule| rule_of_record(v))
                == orig.map_values(|v: ValueRule| rule_of_record(v)),
        decreases records@.len(),
    {
        let ghost rules_before = rules@.map_values(|x: Rule| x@);
        let ghost records_before = records@.map_values(|v: ValueRule| rule_of_record(v));
        let rec = records.remove(0);
        let phase = match Phase::name(rec.phase) {
            Some(p) => p,
            None => Phase::BeforeGame,
        };
        let turn = match Turn::name(rec.turn) {
            Some(t) => t,
            None => Turn::Both,
        };
        let rule = Rule::new(rec.name, rec.description, phase, turn, rec.conditions);
        rules.push(rule);
        proof {
            assert(rules@.map_values(|x: Rule| x@) =~= rules_before.push(rule@));
            assert(records@.map_values(|v: ValueRule| rule_of_record(v)) =~= records_before.drop_first());
            assert(rules@.map_values(|x: Rule| x@) + records@.map_values(
                |v: ValueRule| rule_of_record(v),
            ) =~= rules_before + records_before);
        }
    }
    proof {
        assert(records@.map_values(|v: ValueRule| rule_of_record(v)) =~= Seq::<
            StoredRuleModel,
        >::empty());
        assert(rules@.map_values(|x: Rule| x@) =~= rules@.map_values(|x: Rule| x@) + records@.map_values(
            |v: ValueRule| rule_of_record(v),
        ));
    }
    rules
}

} // verus!
