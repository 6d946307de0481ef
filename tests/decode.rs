use swtorlib::action::{Action, DamageKind, Discipline};
use swtorlib::actor::{Actor, ActorType};
use swtorlib::consts::{Avoidance, Damage, ABSORBED, KINETIC, PARRY};
use swtorlib::line::{strip, Line};
use swtorlib::namedid::NamedID;
use swtorlib::value::Value;

const HEAL_LINE: &str = "[19:46:01.686] [@Nyx'ayuna#686862584797878|(-109.03,-630.11,-63.40,108.12)|(263258/380355)] [=] [Berserk {4056205769048064}] [ApplyEffect {836045448945477}: Heal {836045448945500}] (3955) <1977>";
const SHIELD_LINE: &str = "[19:52:17.535] [Toth {2857549116211200}:52422000225810|(-103.70,-609.83,-63.40,-155.69)|(5430688/13451706)] [@Recency#689265319653227|(-101.50,-604.66,-62.68,21.52)|(309708/457173)] [Backhand Smash {2857321482944512}] [ApplyEffect {836045448945477}: Damage {836045448945501}] (5289 kinetic {836045448940873} -shield {836045448945509} (74525 absorbed {836045448945511})) <5289>";
const CRIT_HEAL_LINE: &str = "[19:52:17.948] [@Locutus'of#690037831467479|(-97.30,-622.67,-63.39,165.31)|(140782/428340)] [@Nyx'ayuna#686862584797878|(-102.09,-616.61,-63.40,166.80)|(225043/380355)] [Salvation {812990064492544}] [ApplyEffect {836045448945477}: Heal {836045448945500}] (3075*) <1384>";

#[test]
fn value_tokens() {
    let v = Value::new("(5289 kinetic {836045448940873} -shield {836045448945509} (74525 absorbed {836045448945511})) <5289>");
    assert_eq!(v.total, 5289);
    assert_eq!(v.value_id, KINETIC);
    assert!(v.shielded);
    assert!(!v.reflected);
    assert_eq!(v.absorbed, 74525);
    assert_eq!(v.threat, 5289);
    assert!(!v.critical);

    let v = Value::new("(3075*) <1384>");
    assert_eq!(v.total, 3075);
    assert!(v.critical);
    assert_eq!(v.threat, 1384);

    let v = Value::new("(2000 ~1500) <700>");
    assert_eq!(v.total, 2000);
    assert_eq!(v.tilde, 1500);

    let v = Value::new("(0 -parry {836045448945503}) <1>");
    assert_eq!(v.value_id, PARRY);

    let v = Value::new("(12 energy {836045448940874} {836045448953649})");
    assert!(v.reflected);

    let v = Value::new("(abc ~x {y} <z>)");
    assert_eq!(v.total, 0);
    assert_eq!(v.tilde, 0);
    assert_eq!(v.value_id, 0);
    assert_eq!(v.threat, 0);
}

#[test]
fn damage_kinds() {
    assert_eq!(DamageKind::new(KINETIC), DamageKind::Kinetic);
    assert_eq!(DamageKind::new(PARRY), DamageKind::Parry);
    assert_eq!(DamageKind::new(5), DamageKind::Unknown);
    assert_eq!(DamageKind::new(ABSORBED), DamageKind::Unknown);
    assert_eq!(Damage::new(KINETIC), Some(Damage::Kinetic));
    assert_eq!(Avoidance::new(PARRY), Some(Avoidance::Parry));
    assert_eq!(Avoidance::new(KINETIC), None);
}

#[test]
fn actor_player() {
    let a = Actor::new("@Nyx'ayuna#686862584797878|(-109.03,-630.11,-63.40,108.12)|(263258/380355)").unwrap();
    assert_eq!(a.id.id, 686862584797878);
    assert_eq!(a.id.name, "Nyx'ayuna");
    assert!(matches!(a.typ, ActorType::Player));
    assert_eq!(a.health, 263258);
    assert_eq!(a.max_health, 380355);
    assert_eq!(a.position_text(), "(-109.03,-630.11,-63.40,108.12)");
    assert!(!a.is_full_health());
}

#[test]
fn actor_npc_and_none() {
    let a = Actor::new("Toth {2857549116211200}:52422000225810|(-103.70,-609.83,-63.40,-155.69)|(5430688/13451706)").unwrap();
    assert!(a.is_npc());
    assert_eq!(a.id.id, 2857549116211200);
    assert_eq!(a.id.name, "Toth");
    assert_eq!(a.max_health, 13451706);
    assert!(Actor::new("").is_none());
    assert!(Actor::new("=").is_none());
    let a = Actor::new("Probe {5}|(0,0,0,0)|(bad)").unwrap();
    assert_eq!(a.health, 0);
    assert_eq!(a.max_health, 0);
}

#[test]
fn actor_companion_key() {
    let a = Actor::new("@Probe#42/Owner {77}:9|(0,0,0,0)|(10/10)").unwrap();
    match &a.typ {
        ActorType::Companion(o) => {
            assert_eq!(o.id, 77);
            assert_eq!(o.name, "Owner");
        }
        _ => panic!("not a companion"),
    }
    assert_eq!(a.id.id, 42);
    let k = a.get_id();
    assert_eq!(k.id, 42);
    assert_eq!(k.name, "Probe (Owner)");
    assert!(a.is_full_health());
}

#[test]
fn discipline_halves() {
    let d = Discipline::new("Sage {16140902893827567561}/Seer {2031339142381593}");
    assert_eq!(d.class.name, "Sage");
    assert_eq!(d.spec.id, 2031339142381593);
    let d = Discipline::new("Sage {1}");
    assert_eq!(d.spec.id, 0);
    assert_eq!(d.spec.name, "");
}

#[test]
fn action_dispatch() {
    let none: Option<Actor> = None;
    let ab = || NamedID::new("Strike {9}");
    assert!(matches!(Action::new("Event {836045448945472}: EnterCombat {836045448945489}", "", ab(), &none), Action::EnterCombat));
    assert!(matches!(Action::new("Event {836045448945472}: ExitCombat {836045448945490}", "", ab(), &none), Action::ExitCombat));
    assert!(matches!(Action::new("Event {836045448945472}: Death {836045448945493}", "", ab(), &none), Action::Death));
    assert!(matches!(Action::new("Event {836045448945472}: Revived {836045448945494}", "", ab(), &none), Action::Revived));
    match Action::new("Event {836045448945472}: ModifyThreat {836045448945483}", "<1200>", ab(), &none) {
        Action::ModifyThreat(a, t) => {
            assert_eq!(a.id, 9);
            assert_eq!(t, 1200);
        }
        other => panic!("{:?}", other),
    }
    match Action::new("AreaEntered {836045448953664}: Dromund Kaas {1}", "", ab(), &none) {
        Action::AreaEntered(n) => assert_eq!(n.name, "Dromund Kaas"),
        other => panic!("{:?}", other),
    }
    match Action::new("DisciplineChanged {836045448953665}: Sage {2}/Seer {3}", "", ab(), &none) {
        Action::DisciplineChanged { class, spec } => {
            assert_eq!(class.id, 2);
            assert_eq!(spec.name, "Seer");
        }
        other => panic!("{:?}", other),
    }
    assert!(matches!(Action::new("Spend {836045448945473}: Energy {1}", "", ab(), &none), Action::Spend));
    assert!(matches!(Action::new("ApplyEffect {836045448945477}: Stunned {3287243414307089}", "", ab(), &none), Action::Stunned(_)));
    assert!(matches!(Action::new("RemoveEffect {836045448945478}: Guard {5}", "", ab(), &none), Action::RemoveEffect(_)));
    assert!(matches!(Action::new("Event {836045448945472}: Something {5}", "", ab(), &none), Action::Event { .. }));
    match Action::new("Mystery {1}: Thing {2}", "", ab(), &none) {
        Action::Other { event, effect, ability } => {
            assert_eq!(event.id, 1);
            assert_eq!(effect.id, 2);
            assert_eq!(ability.id, 9);
        }
        other => panic!("{:?}", other),
    }
    assert!(matches!(Action::new("no colon", "", ab(), &none), Action::Other { .. }));
}

#[test]
fn heal_effective_amounts() {
    let full = Actor::new("@T#1|(0,0,0,0)|(10/10)");
    let hurt = Actor::new("@T#1|(0,0,0,0)|(5/10)");
    let act = "ApplyEffect {836045448945477}: Heal {836045448945500}";
    let ab = || NamedID::new("Heal {1}");
    match Action::new(act, "(300)", ab(), &full) {
        Action::Heal { value, effective, .. } => assert_eq!((value, effective), (300, 0)),
        other => panic!("{:?}", other),
    }
    match Action::new(act, "(300)", ab(), &hurt) {
        Action::Heal { value, effective, .. } => assert_eq!((value, effective), (300, 300)),
        other => panic!("{:?}", other),
    }
    match Action::new(act, "(300 ~120)", ab(), &full) {
        Action::Heal { value, effective, .. } => assert_eq!((value, effective), (300, 120)),
        other => panic!("{:?}", other),
    }
}

#[test]
fn line_heal() {
    let l = Line::new(HEAL_LINE).unwrap();
    assert_eq!(l.ts.ms, ((19 * 60 + 46) * 60 + 1) * 1000 + 686);
    assert!(l.target.is_none());
    assert_eq!(l.source.as_ref().unwrap().id.name, "Nyx'ayuna");
    match l.action {
        Action::Heal { ability, value, effective, critical } => {
            assert_eq!(ability.name, "Berserk");
            assert_eq!(value, 3955);
            assert_eq!(effective, 3955);
            assert!(!critical);
        }
        other => panic!("{:?}", other),
    }
}

#[test]
fn scenario_critical_heal() {
    let l = Line::new(CRIT_HEAL_LINE).unwrap();
    match l.action {
        Action::Heal { value, critical, effective, .. } => {
            assert!(critical);
            assert_eq!(value, 3075);
            assert_eq!(effective, 3075);
        }
        other => panic!("{:?}", other),
    }
}

#[test]
fn scenario_shielded_damage() {
    let l = Line::new(SHIELD_LINE).unwrap();
    assert!(l.source.as_ref().unwrap().is_npc());
    match l.action {
        Action::Damage { kind, value, absorbed, shielded, reflected, critical, ability } => {
            assert!(shielded);
            assert_eq!(absorbed, 74525);
            assert_eq!(value, 5289);
            assert_eq!(kind, DamageKind::Kinetic);
            assert!(!reflected);
            assert!(!critical);
            assert_eq!(ability.id, 2857321482944512);
        }
        other => panic!("{:?}", other),
    }
}

#[test]
fn line_rejects() {
    assert!(Line::new("[xx:46:01.686] [] [] [] [Event {1}: X {2}] ()").is_none());
    assert!(Line::new("[19:46:01.686] [] []").is_none());
    assert!(Line::new("").is_none());
    let l = Line::new("[19:46:01.686] [[HIDDEN]] [] [] [Event {836045448945472}: EnterCombat {836045448945489}] ()").unwrap();
    assert!(l.source.is_none());
    assert!(matches!(l.action, Action::EnterCombat));
}

#[test]
fn strip_marker() {
    assert_eq!(strip("a[HIDDEN]b[HIDDEN]", "[HIDDEN]"), "ab");
    assert_eq!(strip("[HID", "[HIDDEN]"), "[HID");
}

#[test]
fn default_action_is_empty() {
    assert!(matches!(Action::default(), Action::Empty));
}
