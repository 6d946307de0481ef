//! The action constructor: switches on the event id, then on the effect id,
//! and builds exactly one `Action`.

use vstd::prelude::*;
use crate::actor::Actor;
use crate::consts::{
    ABILITY_ACTIVATE, ABILITY_DEACTIVATE, ABILITY_INTERRUPT, APPLY_EFFECT, AREA_ENTERED,
    DAMAGE, DEATH, DEFLECT, DISCIPLINE_CHANGED, DODGE, ELEMENTAL, ENERGY, ENTER_COMBAT, EVENT,
    EXIT_COMBAT, HEAL, INTERNAL, KINETIC, MISS, MODIFY_CHARGES, MODIFY_THREAT, PARRY,
    REMOVE_EFFECT, RESTORE, REVIVED, SPEND, STUNNED_01, STUNNED_02, STUNNED_03, STUNNED_FORCE,
    STUNNED_TECH, TARGET_CLEARED, TARGET_SET,
};
use crate::namedid::{named_id_of, named_name_of, NamedID};
use crate::text::{chars_of, splitn_ranges, splitn_spec};
use crate::value::{value_of, Value};

verus! {

/// The damage element or avoidance reason of a hit.
#[derive(Debug, Clone, Copy, PartialEq, Eq, Structural)]
pub enum DamageKind {
    Energy,
    Kinetic,
    Elemental,
    Internal,
    Absorbed,
    Parry,
    Deflect,
    Dodge,
    Miss,
    Unknown,
}

pub open spec fn damage_kind_of(id: u64) -> DamageKind {
    if id == ENERGY {
        DamageKind::Energy
    } else if id == KINETIC {
        DamageKind::Kinetic
    } else if id == ELEMENTAL {
        DamageKind::Elemental
    } else if id == INTERNAL {
        DamageKind::Internal
    } else if id == PARRY {
        DamageKind::Parry
    } else if id == DEFLECT {
        DamageKind::Deflect
    } else if id == DODGE {
        DamageKind::Dodge
    } else if id == MISS {
        DamageKind::Miss
    } else {
        DamageKind::Unknown
    }
}

impl DamageKind {
    /// The kind that the value sub-type id `id` names.
    pub fn new(id: u64) -> (r: Self)
        ensures
            r == damage_kind_of(id),
    {
        if id == ENERGY {
            DamageKind::Energy
        } else if id == KINETIC {
            DamageKind::Kinetic
        } else if id == ELEMENTAL {
            DamageKind::Elemental
        } else if id == INTERNAL {
            DamageKind::Internal
        } else if id == PARRY {
            DamageKind::Parry
        } else if id == DEFLECT {
            DamageKind::Deflect
        } else if id == DODGE {
            DamageKind::Dodge
        } else if id == MISS {
            DamageKind::Miss
        } else {
            DamageKind::Unknown
        }
    }
}

/// A class and specialisation, written `"Class {id}/Spec {id}"`.
#[derive(Debug)]
pub struct Discipline {
    pub class: NamedID,
    pub spec: NamedID,
}

/// The `k`-th piece of `p` cut once at `sep`, or empty.
pub open spec fn half(p: Seq<char>, sep: char, k: int) -> Seq<char> {
    if k < splitn_spec(p, sep, 2).len() {
        splitn_spec(p, sep, 2)[k]
    } else {
        Seq::empty()
    }
}

/// `n` is what `NamedID::new` reads from `p`.
pub open spec fn named_from(n: NamedID, p: Seq<char>) -> bool {
    n.id == named_id_of(p) && n.name@ == named_name_of(p)
}

/// Cuts `p` once at `sep`; the second piece is empty where `sep` is absent.
fn halves<'a>(p: &'a str, sep: char) -> (r: (&'a str, &'a str))
    ensures
        r.0@ == half(p@, sep, 0),
        r.1@ == half(p@, sep, 1),
{
    let cs = chars_of(p);
    let rs = splitn_ranges(cs.as_slice(), sep, 2);
    assert(splitn_spec(p@, sep, 2).len() >= 1);
    let (a, b) = rs[0];
    assert(rs@[0].0 <= rs@[0].1 <= p@.len());
    let first = p.substring_char(a, b);
    if rs.len() > 1 {
        let (c, d) = rs[1];
        assert(rs@[1].0 <= rs@[1].1 <= p@.len());
        (first, p.substring_char(c, d))
    } else {
        (first, p.substring_char(0, 0))
    }
}

impl Discipline {
    /// Decodes `"Class {id}/Spec {id}"`; a missing half reads as empty.
    pub fn new(p: &str) -> (r: Self)
        ensures
            named_from(r.class, half(p@, '/', 0)),
            named_from(r.spec, half(p@, '/', 1)),
    {
        let (c, s) = halves(p, '/');
        Discipline { class: NamedID::new(c), spec: NamedID::new(s) }
    }
}

/// One decoded combat event.
#[derive(Debug)]
pub enum Action {
    AreaEntered(NamedID),
    EnterCombat,
    ExitCombat,
    DisciplineChanged { class: NamedID, spec: NamedID },
    TargetSet,
    TargetCleared,
    AbilityActivate(NamedID),
    AbilityDeactivate(NamedID),
    ModifyThreat(NamedID, i32),
    ModifyCharges(NamedID),
    Spend,
    Restore,
    Death,
    Revived,
    Stunned(NamedID),
    Interrupted(NamedID),
    ApplyEffect(NamedID),
    RemoveEffect(NamedID),
    Damage {
        kind: DamageKind,
        ability: NamedID,
        value: i32,
        absorbed: i32,
        shielded: bool,
        reflected: bool,
        critical: bool,
    },
    Heal { ability: NamedID, value: i32, effective: i32, critical: bool },
    Event { ability: NamedID, effect: NamedID },
    Other { event: NamedID, effect: NamedID, ability: NamedID },
    /// No action at all: the default, which no decoded line carries.
    Empty,
}

impl Default for Action {
    fn default() -> (r: Self)
        ensures
            r is Empty,
    {
        Action::Empty
    }
}

pub open spec fn is_stun(id: u64) -> bool {
    id == STUNNED_01 || id == STUNNED_02 || id == STUNNED_03 || id == STUNNED_FORCE || id
        == STUNNED_TECH
}

/// The effective amount of a heal: the `~` amount where there is one, else
/// nothing on a target at full health, else the whole amount.
pub open spec fn effective_heal(v: Value, full: bool) -> i32 {
    if v.tilde != 0 {
        v.tilde
    } else if full {
        0
    } else {
        v.total
    }
}

/// The action that the event id, then the effect id select, for the action
/// field `act` (`"<event> {id}: <effect> {id}"`), the value payload `val`,
/// the ability, and whether the target is at full health.
pub open spec fn action_spec(
    a: Action,
    act: Seq<char>,
    val: Seq<char>,
    ability: NamedID,
    full: bool,
) -> bool {
    let ev = half(act, ':', 0);
    let ef = half(act, ':', 1);
    let event = named_id_of(ev);
    let effect = named_id_of(ef);
    let v = value_of(val);
    if event == SPEND {
        a is Spend
    } else if event == RESTORE {
        a is Restore
    } else if event == DISCIPLINE_CHANGED {
        a matches Action::DisciplineChanged { class, spec } && named_from(class, half(ef, '/', 0))
            && named_from(spec, half(ef, '/', 1))
    } else if event == AREA_ENTERED {
        a matches Action::AreaEntered(n) && named_from(n, ef)
    } else if event == EVENT {
        if effect == ENTER_COMBAT {
            a is EnterCombat
        } else if effect == EXIT_COMBAT {
            a is ExitCombat
        } else if effect == TARGET_SET {
            a is TargetSet
        } else if effect == TARGET_CLEARED {
            a is TargetCleared
        } else if effect == ABILITY_ACTIVATE {
            a matches Action::AbilityActivate(n) && n.same(&ability)
        } else if effect == ABILITY_DEACTIVATE {
            a matches Action::AbilityDeactivate(n) && n.same(&ability)
        } else if effect == ABILITY_INTERRUPT {
            a matches Action::Interrupted(n) && n.same(&ability)
        } else if effect == DEATH {
            a is Death
        } else if effect == REVIVED {
            a is Revived
        } else if effect == MODIFY_THREAT {
            a matches Action::ModifyThreat(n, t) && n.same(&ability) && t == v.threat
        } else {
            a matches Action::Event { ability: n, effect: e } && n.same(&ability) && named_from(
                e,
                ef,
            )
        }
    } else if event == MODIFY_CHARGES {
        a matches Action::ModifyCharges(n) && named_from(n, ef)
    } else if event == APPLY_EFFECT {
        if effect == HEAL {
            a matches Action::Heal { ability: n, value, effective, critical } && n.same(&ability)
                && value == v.total && effective == effective_heal(v, full) && critical
                == v.critical
        } else if effect == DAMAGE {
            a matches Action::Damage {
                kind,
                ability: n,
                value,
                absorbed,
                shielded,
                reflected,
                critical,
            } && n.same(&ability) && kind == damage_kind_of(v.value_id) && value == v.total
                && absorbed == v.absorbed && shielded == v.shielded && reflected == v.reflected
                && critical == v.critical
        } else if is_stun(effect) {
            a matches Action::Stunned(n) && n.same(&ability)
        } else {
            a matches Action::ApplyEffect(n) && named_from(n, ef)
        }
    } else if event == REMOVE_EFFECT {
        a matches Action::RemoveEffect(n) && named_from(n, ef)
    } else {
        a matches Action::Other { event: e, effect: f, ability: n } && named_from(e, ev)
            && named_from(f, ef) && n.same(&ability)
    }
}

/// The target is present and at full health.
pub open spec fn target_full(dst: Option<Actor>) -> bool {
    match dst {
        Some(d) => d.health == d.max_health,
        None => false,
    }
}

impl Action {
    /// Builds the action of one line from its action field `act`, its value
    /// payload `val`, the ability, and the target. Never fails: unknown
    /// opcodes become `Event` or `Other`, bad numbers read as 0.
    pub fn new(act: &str, val: &str, ability: NamedID, dst: &Option<Actor>) -> (r: Self)
        ensures
            action_spec(r, act@, val@, ability, target_full(*dst)),
    {
        let (ev, ef) = halves(act, ':');
        let event = NamedID::new(ev);
        let effect = NamedID::new(ef);
        let v = Value::new(val);
        let full = match dst {
            Some(d) => d.is_full_health(),
            None => false,
        };
        let eid = event.id;
        let fid = effect.id;
        if eid == SPEND {
            Action::Spend
        } else if eid == RESTORE {
            Action::Restore
        } else if eid == DISCIPLINE_CHANGED {
            let d = Discipline::new(ef);
            Action::DisciplineChanged { class: d.class, spec: d.spec }
        } else if eid == AREA_ENTERED {
            Action::AreaEntered(effect)
        } else if eid == EVENT {
            if fid == ENTER_COMBAT {
                Action::EnterCombat
            } else if fid == EXIT_COMBAT {
                Action::ExitCombat
            } else if fid == TARGET_SET {
                Action::TargetSet
            } else if fid == TARGET_CLEARED {
                Action::TargetCleared
            } else if fid == ABILITY_ACTIVATE {
                Action::AbilityActivate(ability)
            } else if fid == ABILITY_DEACTIVATE {
                Action::AbilityDeactivate(ability)
            } else if fid == ABILITY_INTERRUPT {
                Action::Interrupted(ability)
            } else if fid == DEATH {
                Action::Death
            } else if fid == REVIVED {
                Action::Revived
            } else if fid == MODIFY_THREAT {
                Action::ModifyThreat(ability, v.threat)
            } else {
                Action::Event { ability, effect }
            }
        } else if eid == MODIFY_CHARGES {
            Action::ModifyCharges(effect)
        } else if eid == APPLY_EFFECT {
            if fid == HEAL {
                let effective = if v.tilde != 0 {
                    v.tilde
                } else if full {
                    0
                } else {
                    v.total
                };
                Action::Heal { ability, value: v.total, effective, critical: v.critical }
            } else if fid == DAMAGE {
                Action::Damage {
                    kind: DamageKind::new(v.value_id),
                    ability,
                    value: v.total,
                    absorbed: v.absorbed,
                    shielded: v.shielded,
                    reflected: v.reflected,
                    critical: v.critical,
                }
            } else if fid == STUNNED_01 || fid == STUNNED_02 || fid == STUNNED_03 || fid
                == STUNNED_FORCE || fid == STUNNED_TECH {
                Action::Stunned(ability)
            } else {
                Action::ApplyEffect(effect)
            }
        } else if eid == REMOVE_EFFECT {
            Action::RemoveEffect(effect)
        } else {
            Action::Other { event, effect, ability }
        }
    }
}

} // verus!
