use swtorlib::action::Action;
use swtorlib::actor::Actor;
use swtorlib::actor_stats::{ActorStats, Meter};
use swtorlib::encounter::{Encounter, Encounters, Notify};
use swtorlib::line::Line;
use swtorlib::namedid::NamedID;
use swtorlib::reader::TailBuffer;

const ENTER: &str = "[20:00:00.000] [@A#1|(0,0,0,0)|(100/100)] [] [] [Event {836045448945472}: EnterCombat {836045448945489}] () <0>";
const EXIT: &str = "[20:00:10.500] [@A#1|(0,0,0,0)|(100/100)] [] [] [Event {836045448945472}: ExitCombat {836045448945490}] () <0>";

fn damage(src: &str, dst: &str, amount: &str) -> String {
    format!(
        "[20:00:05.000] [{}] [{}] [Strike {{9}}] [ApplyEffect {{836045448945477}}: Damage {{836045448945501}}] ({} kinetic {{836045448940873}}) <1>",
        src, dst, amount
    )
}

fn heal(src: &str, dst: &str, amount: &str) -> String {
    format!(
        "[20:00:06.000] [{}] [{}] [Mend {{8}}] [ApplyEffect {{836045448945477}}: Heal {{836045448945500}}] ({}) <1>",
        src, dst, amount
    )
}

fn event(src: &str, effect: &str) -> String {
    format!("[20:00:07.000] [{}] [] [] [Event {{836045448945472}}: {}] ()", src, effect)
}

const A: &str = "@A#1|(0,0,0,0)|(90/100)";
const B: &str = "Boss {50}:1|(0,0,0,0)|(1000/1000)";

fn line(s: &str) -> Line {
    Line::new(s).unwrap()
}

#[test]
fn meter_update_and_merge() {
    let mut m = Meter::new(NamedID::new("Strike {9}"));
    m.update(100, false);
    m.update(50, true);
    assert_eq!((m.casts, m.total, m.crits, m.crit_total), (2, 150, 1, 50));
    let mut n = Meter::new(NamedID::new("Other {1}"));
    n.update(7, true);
    let mut a = Meter::new(NamedID::new("X {1}"));
    a.add_assign(&m);
    a.add_assign(&n);
    let mut b = Meter::new(NamedID::new("X {1}"));
    b.add_assign(&n);
    b.add_assign(&m);
    assert_eq!((a.casts, a.total, a.crits, a.crit_total), (3, 157, 2, 57));
    assert_eq!((a.casts, a.total, a.crits, a.crit_total), (b.casts, b.total, b.crits, b.crit_total));
    assert!(a.crits <= a.casts && a.crit_total <= a.total);
}

#[test]
fn meter_saturates() {
    let mut m = Meter::new(NamedID::new("X {1}"));
    m.update(i32::MAX, true);
    m.update(5, true);
    assert_eq!(m.total, i32::MAX);
    assert_eq!(m.crit_total, i32::MAX);
    assert_eq!(m.casts, 2);
}

#[test]
fn stats_route_damage() {
    let l = line(&damage(A, B, "300"));
    let a = l.source.as_ref().unwrap().get_id();
    let mut s = ActorStats::new(a);
    assert!(s.update(&l.source, &l.target, &l.action));
    assert_eq!(s.dmg_total.total, 300);
    assert_eq!(s.health, 90);
    assert_eq!(s.dmg_out.len(), 1);
    assert_eq!(s.dmg_out.iter()[0].id.name, "Boss");
    assert_eq!(s.spells_out.iter()[0].id.name, "Strike");
    assert!(s.dmg_in.is_empty());
    let l2 = line(&damage(A, B, "500*"));
    s.update(&l2.source, &l2.target, &l2.action);
    let out = s.all_dmg_out();
    assert_eq!((out.casts, out.total, out.crits, out.crit_total), (2, 800, 1, 500));

    let mut b = ActorStats::new(l.target.as_ref().unwrap().get_id());
    b.update(&l.source, &l.target, &l.action);
    assert_eq!(b.dmg_in.iter()[0].id.name, "Boss");
    assert_eq!(b.spells_in.iter()[0].total, 300);
    assert_eq!(b.all_dmg_in().total, 300);
}

#[test]
fn stats_rank_meters() {
    let mut s = ActorStats::new(NamedID::new("A {1}"));
    for (dst, amount) in [("X {10}|(0,0,0,0)|(1/1)", "5"), ("Y {11}|(0,0,0,0)|(1/1)", "50"), ("X {10}|(0,0,0,0)|(1/1)", "100")] {
        let l = line(&damage(A, dst, amount));
        s.update(&l.source, &l.target, &l.action);
    }
    let totals: Vec<i32> = s.dmg_out.iter().iter().map(|m| m.total).collect();
    assert_eq!(totals, vec![105, 50]);
}

#[test]
fn zero_value_lines_count_nothing() {
    let mut s = ActorStats::new(NamedID::new("A {1}"));
    for l in [damage(A, B, "0"), heal(A, A, "0")] {
        let l = line(&l);
        assert!(!s.update(&l.source, &l.target, &l.action));
    }
    assert_eq!(s.dmg_total.casts, 0);
    assert_eq!(s.heal_total.casts, 0);
    assert!(s.spells_out.is_empty());
}

#[test]
fn heal_routes_and_counts_raw_value() {
    let l = line(&format!(
        "[20:00:06.000] [{}] [{}] [Mend {{8}}] [ApplyEffect {{836045448945477}}: Heal {{836045448945500}}] (400 ~100) <1>",
        A, "@C#2|(0,0,0,0)|(5/10)"
    ));
    let mut s = ActorStats::new(NamedID::new("A {1}"));
    s.update(&l.source, &l.target, &l.action);
    assert_eq!(s.heal_total.total, 400);
    assert_eq!(s.all_heal_out().total, 400);
    assert_eq!(s.heal_out.iter()[0].id.name, "C");
}

#[test]
fn dead_after_cycles() {
    let mut s = ActorStats::new(NamedID::new("A {1}"));
    let death = line(&event(A, "Death {836045448945493}"));
    let revive = line(&event(A, "Revived {836045448945494}"));
    assert!(!s.is_dead());
    s.update(&death.source, &death.target, &death.action);
    assert!(s.is_dead());
    s.update(&revive.source, &revive.target, &revive.action);
    assert!(!s.is_dead());
    s.update(&death.source, &death.target, &death.action);
    assert!(s.is_dead());
    assert_eq!((s.deaths, s.revives), (2, 1));
}

#[test]
fn scenario_enter_damage_exit() {
    let mut encs = Encounters::new();
    assert_eq!(encs.process_line(&line(ENTER)), Notify::Quiet);
    assert_eq!(encs.process_line(&line(&damage(A, B, "5000"))), Notify::Current);
    assert_eq!(encs.process_line(&line(EXIT)), Notify::Sealed);
    assert!(encs.current().is_none());
    let e = &encs.history()[0];
    assert_eq!(encs.history().len(), 1);
    let p = &e.players.iter()[0];
    assert_eq!(p.id.name, "A");
    assert_eq!(p.dmg_total.total, 5000);
    assert_eq!(p.dmg_total.casts, 1);
    assert_eq!(e.npcs.iter()[0].id.name, "Boss");
    assert_eq!(e.elapsed(), 10_500);
}

#[test]
fn pair_twice_seals_two() {
    let mut encs = Encounters::new();
    let area = line("[19:00:00.000] [@A#1|(0,0,0,0)|(1/1)] [] [] [AreaEntered {836045448953664}: Ilum {3}] ()");
    encs.process_line(&area);
    for _ in 0..2 {
        assert_eq!(encs.process_line(&line(ENTER)), Notify::Quiet);
        assert_eq!(encs.process_line(&line(EXIT)), Notify::Sealed);
    }
    assert_eq!(encs.history().len(), 2);
    for e in encs.history() {
        assert_eq!(e.area, "Ilum");
        assert_eq!(e.elapsed(), 10_500);
        assert!(e.elapsed() >= 0);
    }
    assert_eq!(encs.last_area(), "Ilum");
}

#[test]
fn sealed_and_idle_drop_lines() {
    let mut encs = Encounters::new();
    assert_eq!(encs.process_line(&line(&damage(A, B, "10"))), Notify::Quiet);
    encs.process_line(&line(ENTER));
    encs.process_line(&line(ENTER));
    assert_eq!(encs.history().len(), 1);
    let mut e = Encounter::new(String::from("Here"));
    e.append(&line(EXIT));
    assert!(!e.append(&line(&damage(A, B, "10"))));
    assert!(e.players.is_empty());
}

#[test]
fn boss_detection() {
    let mut e = Encounter::new(String::from("x"));
    let players = ["@P#1|(0,0,0,0)|(100/100)", "@Q#2|(0,0,0,0)|(100/100)"];
    let npcs = ["Boss {50}|(0,0,0,0)|(500/500)", "Add {51}|(0,0,0,0)|(150/150)", "Rat {52}|(0,0,0,0)|(50/50)"];
    for p in players {
        for n in npcs {
            e.append(&line(&damage(p, n, "1")));
        }
    }
    assert_eq!(e.players_health(), 200);
    assert!(e.is_boss());
    let names: Vec<String> = e.npc_by_health(true).into_iter().map(|(n, _)| n).collect();
    assert_eq!(names, vec!["Boss".to_string(), "Add".to_string()]);
    let all: Vec<(String, i32)> = e.npc_by_health(false);
    assert_eq!(all, vec![("Boss".to_string(), 500), ("Add".to_string(), 150), ("Rat".to_string(), 50)]);

    let mut f = Encounter::new(String::from("y"));
    f.append(&line(&damage("@P#1|(0,0,0,0)|(1000/1000)", "Rat {52}|(0,0,0,0)|(50/50)", "1")));
    assert!(!f.is_boss());
    assert_eq!(f.npc_by_health(true).len(), 1);
    assert!(!f.is_boss_dead());
}

#[test]
fn player_lookup_by_label() {
    let mut e = Encounter::new(String::from("x"));
    e.append(&line(&damage(A, B, "1")));
    let dc = line(&format!(
        "[20:00:01.000] [{}] [] [] [DisciplineChanged {{836045448953665}}: Sage {{2}}/Seer {{3}}] ()",
        A
    ));
    e.append(&dc);
    let p = &e.players.iter()[0];
    assert_eq!(p.label(), "A (Seer)");
    assert!(e.player_by_name("A (Seer)").is_some());
    assert!(e.player_by_name("A").is_none());
    assert!(e.player_by_name("Z (Seer)").is_none());
    assert!(e.player_by_name("A(Seer)").is_none());
    assert!(e.player_by_name("AB(Seer)").is_none());
    assert!(e.player_by_name("(Seer)").is_none());
    assert!(e.player_by_name("A (x) (y)").is_some());
}

#[test]
fn partial_line_waits_for_newline() {
    let mut t = TailBuffer::new();
    let first = &ENTER.as_bytes()[..30];
    let rest = &ENTER.as_bytes()[30..];
    assert!(t.feed(first).is_empty());
    assert!(t.feed(rest).is_empty());
    let out = t.feed(b"\r\n");
    assert_eq!(out, vec![ENTER.to_string()]);
    assert!(Line::new(&out[0]).is_some());
}

#[test]
fn batched_reads_split_records() {
    let mut t = TailBuffer::new();
    let data = format!("{}\n\n{}\n{}", ENTER, EXIT, "[20:00");
    let out = t.feed(data.as_bytes());
    assert_eq!(out, vec![ENTER.to_string(), EXIT.to_string()]);
    let out = t.feed(b":11.000] x\n");
    assert_eq!(out, vec!["[20:00:11.000] x".to_string()]);
}

#[test]
fn latin1_bytes_map_one_to_one() {
    let mut t = TailBuffer::new();
    let out = t.feed(&[b'N', 0xE9, b'e', b'\n']);
    assert_eq!(out, vec!["N\u{e9}e".to_string()]);
}

#[test]
fn action_kinds_are_not_counted_twice() {
    let l = line(&event(A, "TargetSet {836045448953668}"));
    let mut s = ActorStats::new(NamedID::new("A {1}"));
    assert!(!s.update(&l.source, &l.target, &l.action));
    assert!(matches!(l.action, Action::TargetSet));
    let _ = Actor::new(A);
}
