//! The protocol's vocabulary: the numeric opcodes that the decoder switches on.

use vstd::prelude::*;

verus! {

pub const ENTER_COMBAT: u64 = 836045448945489;
pub const EXIT_COMBAT: u64 = 836045448945490;

pub const AREA_ENTERED: u64 = 836045448953664;

pub const TARGET_SET: u64 = 836045448953668;
pub const TARGET_CLEARED: u64 = 836045448953669;

pub const MODIFY_THREAT: u64 = 836045448945483;
pub const MODIFY_CHARGES: u64 = 836045448953666;

pub const DAMAGE: u64 = 836045448945501;
pub const HEAL: u64 = 836045448945500;

pub const SPEND: u64 = 836045448945473;
pub const RESTORE: u64 = 836045448945476;

pub const DISCIPLINE_CHANGED: u64 = 836045448953665;

pub const CHARGES: u64 = 836045448953667;

pub const ENERGY: u64 = 836045448940874;
pub const KINETIC: u64 = 836045448940873;
pub const ELEMENTAL: u64 = 836045448940875;
pub const INTERNAL: u64 = 836045448940876;

pub const STUNNED_01: u64 = 3287243414307089;
pub const STUNNED_02: u64 = 812732366455133;
pub const STUNNED_03: u64 = 808261305500044;
pub const STUNNED_FORCE: u64 = 80775449935909;
pub const STUNNED_TECH: u64 = 3695630379647238;

pub const ABSORBED: u64 = 836045448945511;
pub const PARRY: u64 = 836045448945503;
pub const DEFLECT: u64 = 836045448945508;
pub const DODGE: u64 = 836045448945505;
pub const MISS: u64 = 836045448945502;

pub const EVENT: u64 = 836045448945472;
pub const ABILITY_ACTIVATE: u64 = 836045448945479;
pub const ABILITY_DEACTIVATE: u64 = 836045448945480;
pub const ABILITY_INTERRUPT: u64 = 836045448945482;

pub const DEATH: u64 = 836045448945493;
pub const REVIVED: u64 = 836045448945494;

pub const APPLY_EFFECT: u64 = 836045448945477;
pub const REMOVE_EFFECT: u64 = 836045448945478;

/// The bracketed token that marks a hit taken on a shield.
pub const SHIELD_STR: &'static str = "{836045448945509}";
/// The bracketed token that marks a reflected hit.
pub const REFLECTED_STR: &'static str = "{836045448953649}";

/// Event ids: the left half of an action field.
pub struct EventIDs;

impl EventIDs {
    pub const AREA_ENTERED: u64 = 836045448953664;
    pub const EVENT: u64 = 836045448945472;
    pub const APPLY_EFFECT: u64 = 836045448945477;
    pub const REMOVE_EFFECT: u64 = 836045448945478;
    pub const SPEND: u64 = 836045448945473;
    pub const RESTORE: u64 = 836045448945476;
    pub const DISCIPLINE_CHANGED: u64 = 836045448953665;
    pub const MODIFY_CHARGES: u64 = 836045448953666;
}

/// Effect ids: the right half of an action field.
pub struct EffectIDs;

impl EffectIDs {
    pub const ENTER_COMBAT: u64 = 836045448945489;
    pub const EXIT_COMBAT: u64 = 836045448945490;
    pub const MODIFY_THREAT: u64 = 836045448945483;
    pub const DAMAGE: u64 = 836045448945501;
    pub const HEAL: u64 = 836045448945500;
}

/// Sub-type ids of a value: damage elements, avoidance reasons, markers.
pub struct ValueIDs;

impl ValueIDs {
    pub const CHARGES: u64 = 836045448953667;
    pub const SHIELD: &'static str = "{836045448945509}";
    pub const REFLECTED: &'static str = "{836045448953649}";
    pub const ENERGY: u64 = 836045448940874;
    pub const KINETIC: u64 = 836045448940873;
    pub const ELEMENTAL: u64 = 836045448940875;
    pub const INTERNAL: u64 = 836045448940876;
    pub const ABSORBED: u64 = 836045448945511;
    pub const PARRY: u64 = 836045448945503;
    pub const DEFLECT: u64 = 836045448945508;
    pub const DODGE: u64 = 836045448945505;
    pub const MISS: u64 = 836045448945502;
}

/// Damage elements.
#[derive(Debug, Clone, Copy, PartialEq, Eq, Structural)]
pub enum Damage {
    Energy,
    Kinetic,
    Elemental,
    Internal,
}

/// Reasons a hit did no damage.
#[derive(Debug, Clone, Copy, PartialEq, Eq, Structural)]
pub enum Avoidance {
    Absorbed,
    Parry,
    Deflect,
    Dodge,
    Miss,
}

impl Damage {
    /// The element with sub-type id `id`, if it names one.
    pub fn new(id: u64) -> (r: Option<Damage>)
        ensures
            r == damage_of(id),
    {
        if id == ENERGY {
            Some(Damage::Energy)
        } else if id == KINETIC {
            Some(Damage::Kinetic)
        } else if id == ELEMENTAL {
            Some(Damage::Elemental)
        } else if id == INTERNAL {
            Some(Damage::Internal)
        } else {
            None
        }
    }
}

impl Avoidance {
    /// The avoidance reason with sub-type id `id`, if it names one.
    pub fn new(id: u64) -> (r: Option<Avoidance>)
        ensures
            r == avoidance_of(id),
    {
        if id == ABSORBED {
            Some(Avoidance::Absorbed)
        } else if id == PARRY {
            Some(Avoidance::Parry)
        } else if id == DEFLECT {
            Some(Avoidance::Deflect)
        } else if id == DODGE {
            Some(Avoidance::Dodge)
        } else if id == MISS {
            Some(Avoidance::Miss)
        } else {
            None
        }
    }
}

pub open spec fn damage_of(id: u64) -> Option<Damage> {
    if id == ENERGY {
        Some(Damage::Energy)
    } else if id == KINETIC {
        Some(Damage::Kinetic)
    } else if id == ELEMENTAL {
        Some(Damage::Elemental)
    } else if id == INTERNAL {
        Some(Damage::Internal)
    } else {
        None
    }
}

pub open spec fn avoidance_of(id: u64) -> Option<Avoidance> {
    if id == ABSORBED {
        Some(Avoidance::Absorbed)
    } else if id == PARRY {
        Some(Avoidance::Parry)
    } else if id == DEFLECT {
        Some(Avoidance::Deflect)
    } else if id == DODGE {
        Some(Avoidance::Dodge)
    } else if id == MISS {
        Some(Avoidance::Miss)
    } else {
        None
    }
}

/// An opcode of the vocabulary.
#[derive(Debug, Clone, Copy, PartialEq, Eq, Structural)]
pub struct ID(pub u64);

/// The label of an event or effect opcode; empty for ids outside the table.
pub open spec fn opcode_name(id: u64) -> Seq<char> {
    if id == ENTER_COMBAT {
        "EnterCombat"@
    } else if id == EXIT_COMBAT {
        "ExitCombat"@
    } else if id == AREA_ENTERED {
        "AreaEntered"@
    } else if id == TARGET_SET {
        "TargetSet"@
    } else if id == TARGET_CLEARED {
        "TargetCleared"@
    } else if id == MODIFY_THREAT {
        "ModifyThreat"@
    } else if id == MODIFY_CHARGES {
        "ModifyCharges"@
    } else if id == DAMAGE {
        "Damage"@
    } else if id == HEAL {
        "Heal"@
    } else if id == SPEND {
        "Spend"@
    } else if id == RESTORE {
        "Restore"@
    } else if id == DISCIPLINE_CHANGED {
        "DisciplineChanged"@
    } else if id == EVENT {
        "Event"@
    } else if id == ABILITY_ACTIVATE {
        "AbilityActivate"@
    } else if id == ABILITY_DEACTIVATE {
        "AbilityDeactivate"@
    } else if id == ABILITY_INTERRUPT {
        "AbilityInterrupt"@
    } else if id == DEATH {
        "Death"@
    } else if id == REVIVED {
        "Revived"@
    } else if id == APPLY_EFFECT {
        "ApplyEffect"@
    } else if id == REMOVE_EFFECT {
        "RemoveEffect"@
    } else {
        ""@
    }
}

impl ID {
    /// The label of this opcode, as the log writes it; empty where the
    /// vocabulary does not hold it.
    pub fn name(&self) -> (r: &'static str)
        ensures
            r@ == opcode_name(self.0),
    {
        let id = self.0;
        if id == ENTER_COMBAT {
            "EnterCombat"
        } else if id == EXIT_COMBAT {
            "ExitCombat"
        } else if id == AREA_ENTERED {
            "AreaEntered"
        } else if id == TARGET_SET {
            "TargetSet"
        } else if id == TARGET_CLEARED {
            "TargetCleared"
        } else if id == MODIFY_THREAT {
            "ModifyThreat"
        } else if id == MODIFY_CHARGES {
            "ModifyCharges"
        } else if id == DAMAGE {
            "Damage"
        } else if id == HEAL {
            "Heal"
        } else if id == SPEND {
            "Spend"
        } else if id == RESTORE {
            "Restore"
        } else if id == DISCIPLINE_CHANGED {
            "DisciplineChanged"
        } else if id == EVENT {
            "Event"
        } else if id == ABILITY_ACTIVATE {
            "AbilityActivate"
        } else if id == ABILITY_DEACTIVATE {
            "AbilityDeactivate"
        } else if id == ABILITY_INTERRUPT {
            "AbilityInterrupt"
        } else if id == DEATH {
            "Death"
        } else if id == REVIVED {
            "Revived"
        } else if id == APPLY_EFFECT {
            "ApplyEffect"
        } else if id == REMOVE_EFFECT {
            "RemoveEffect"
        } else {
            ""
        }
    }
}

} // verus!
