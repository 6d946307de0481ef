//! Encounters: the per-session rosters, their ranking and boss heuristics,
//! and the state machine that opens and seals sessions.

use vstd::prelude::*;
use crate::action::Action;
use crate::actor::Actor;
use crate::actor_stats::{
    key_of, lemma_zero_value_no_casts, records, stats_new, stats_step, ActorStats, StatsV,
};
use crate::line::Line;
use crate::namedid::NamedID;
use crate::sorted_vec::{
    first_match, lemma_upserted_from, slot, upserted, Rank, SortedVec, Upsert,
};
use crate::text::{chars_of, string_of_str};

verus! {

/// Players ranked by the damage they dealt, highest first.
#[derive(Debug)]
pub struct ByDamage;

impl Rank<ActorStats> for ByDamage {
    open spec fn rank_spec(&self, t: StatsV) -> int {
        t.dmg_total.total as int
    }

    fn rank(&self, t: &ActorStats) -> (r: i64) {
        t.dmg_total.total as i64
    }
}

/// NPCs ranked by their maximum health, highest first.
#[derive(Debug)]
pub struct ByMaxHealth;

impl Rank<ActorStats> for ByMaxHealth {
    open spec fn rank_spec(&self, t: StatsV) -> int {
        t.max_health as int
    }

    fn rank(&self, t: &ActorStats) -> (r: i64) {
        t.max_health as i64
    }
}

/// Books one line into the statistics of the combatant keyed `key`.
pub struct StatsOp<'a> {
    pub key: NamedID,
    pub max_health: i32,
    pub line: &'a Line,
}

/// The statistics of the combatant `who` after the line `l`.
pub open spec fn booked(t: StatsV, who: Actor, l: Line) -> StatsV {
    stats_step(StatsV { max_health: who.max_health, ..t }, l.source, l.target, l.action)
}

impl<'a> Upsert<ActorStats> for StatsOp<'a> {
    open spec fn matches_spec(&self, t: StatsV) -> bool {
        t.id == self.key@
    }

    open spec fn fresh_spec(&self) -> StatsV {
        stats_new(self.key@)
    }

    open spec fn apply_spec(&self, t: StatsV) -> StatsV {
        stats_step(
            StatsV { max_health: self.max_health, ..t },
            self.line.source,
            self.line.target,
            self.line.action,
        )
    }

    fn matches(&self, t: &ActorStats) -> (r: bool) {
        t.id == self.key
    }

    fn fresh(&self) -> (r: ActorStats) {
        ActorStats::new(self.key.copy())
    }

    fn apply(&self, t: &mut ActorStats) {
        t.max_health = self.max_health;
        t.update(&self.line.source, &self.line.target, &self.line.action);
    }
}

/// One combat session.
#[derive(Debug)]
pub struct Encounter {
    pub area: String,
    /// When the session opened, in milliseconds after midnight.
    pub start: u32,
    /// The time of the latest line booked.
    pub ts: u32,
    /// When the session was sealed.
    pub end: Option<u32>,
    pub players: SortedVec<ActorStats, ByDamage>,
    pub npcs: SortedVec<ActorStats, ByMaxHealth>,
}

/// The model of an `Encounter`.
pub struct EncV {
    pub area: Seq<char>,
    pub start: u32,
    pub ts: u32,
    pub end: Option<u32>,
    pub players: Seq<StatsV>,
    pub npcs: Seq<StatsV>,
}

impl View for Encounter {
    type V = EncV;

    open spec fn view(&self) -> EncV {
        EncV {
            area: self.area@,
            start: self.start,
            ts: self.ts,
            end: self.end,
            players: self.players@,
            npcs: self.npcs@,
        }
    }
}

/// A session in `area` with nobody in it yet.
pub open spec fn enc_new(area: Seq<char>) -> EncV {
    EncV { area, start: 0, ts: 0, end: None, players: Seq::empty(), npcs: Seq::empty() }
}

/// The session after the line `l` books the combatant `who`: NPCs in the
/// NPC roster, everyone else among the players.
pub open spec fn roster_step(e: EncV, who: Actor, l: Line) -> EncV {
    let key = key_of(who);
    if who.typ is NPC {
        EncV {
            npcs: upserted(
                ByMaxHealth,
                |t: StatsV| t.id == key,
                stats_new(key),
                |t: StatsV| booked(t, who, l),
                e.npcs,
            ),
            ..e
        }
    } else {
        EncV {
            players: upserted(
                ByDamage,
                |t: StatsV| t.id == key,
                stats_new(key),
                |t: StatsV| booked(t, who, l),
                e.players,
            ),
            ..e
        }
    }
}

/// The session after the line `l`.
pub open spec fn enc_append(e: EncV, l: Line) -> EncV {
    match l.action {
        Action::EnterCombat => EncV { start: l.ts.ms, ..e },
        Action::ExitCombat => EncV { end: Some(l.ts.ms), ..e },
        _ => if e.end is Some {
            e
        } else {
            let e1 = EncV { ts: l.ts.ms, ..e };
            let e2 = match l.source {
                Some(a) => roster_step(e1, a, l),
                None => e1,
            };
            match l.target {
                Some(d) => roster_step(e2, d, l),
                None => e2,
            }
        },
    }
}

/// The line `l` books something the open session `e` counts.
pub open spec fn enc_records(e: EncV, l: Line) -> bool {
    match l.action {
        Action::EnterCombat => false,
        Action::ExitCombat => false,
        _ => e.end is None && (l.source is Some || l.target is Some) && records(l.action),
    }
}

/// How long the session ran: to its end once sealed, else to its latest line.
pub open spec fn elapsed_of(e: EncV) -> int {
    match e.end {
        Some(t) => t - e.start,
        None => e.ts - e.start,
    }
}

/// Sum of the players' maximum health.
pub open spec fn health_sum(s: Seq<StatsV>) -> int
    decreases s.len(),
{
    if s.len() == 0 {
        0
    } else {
        health_sum(s.drop_last()) + s.last().max_health
    }
}

/// Some NPC has more maximum health than all players together.
pub open spec fn boss_spec(e: EncV) -> bool {
    e.npcs.len() > 0 && e.npcs[0].max_health > health_sum(e.players)
}

/// The `(name, max health)` rows of the roster `s`; only those whose
/// maximum health exceeds half of `p` where `only_big`.
pub open spec fn npc_rows(s: Seq<StatsV>, only_big: bool, p: int) -> Seq<(Seq<char>, i32)>
    decreases s.len(),
{
    if s.len() == 0 {
        Seq::empty()
    } else {
        let r = npc_rows(s.drop_last(), only_big, p);
        let t = s.last();
        if !only_big || 2 * t.max_health > p {
            r.push((t.id.1, t.max_health))
        } else {
            r
        }
    }
}

/// Position of the first `" ("` in `s`.
pub open spec fn find_suffix(s: Seq<char>) -> Option<int>
    decreases s.len(),
{
    if s.len() < 2 {
        None
    } else if s[0] == ' ' && s[1] == '(' {
        Some(0)
    } else {
        match find_suffix(s.drop_first()) {
            Some(k) => Some(k + 1),
            None => None,
        }
    }
}

/// The name a label looks a player up by: all before its first `" ("`;
/// none where the label has no such suffix.
pub open spec fn lookup_name(label: Seq<char>) -> Option<Seq<char>> {
    match find_suffix(label) {
        Some(i) => Some(label.take(i)),
        None => None,
    }
}

/// Position of the first `" ("` in `s`.
fn find_suffix_at(s: &[char]) -> (r: Option<usize>)
    ensures
        match r {
            Some(i) => i + 1 < s@.len() && find_suffix(s@) == Some(i as int),
            None => find_suffix(s@) is None,
        },
{
    let n = s.len();
    let mut i: usize = 0;
    assert(s@.skip(0) =~= s@);
    while i < n && n - i >= 2
        invariant
            i <= n == s@.len(),
            find_suffix(s@) == match find_suffix(s@.skip(i as int)) {
                Some(k) => Some(k + i),
                None => None,
            },
        decreases n - i,
    {
        assert(s@.skip(i as int).drop_first() =~= s@.skip(i + 1));
        assert(s@.skip(i as int)[0] == s@[i as int] && s@.skip(i as int)[1] == s@[i + 1]);
        if s[i] == ' ' && s[i + 1] == '(' {
            return Some(i);
        }
        i = i + 1;
    }
    assert(s@.skip(i as int).len() < 2);
    None
}

/// A row label: the name, with the specialisation in parentheses where known.
pub open spec fn label_of(s: StatsV) -> Seq<char> {
    if s.spec.0 != 0 {
        s.id.1 + " ("@ + s.spec.1 + ")"@
    } else {
        s.id.1
    }
}

impl ActorStats {
    /// The row label: `"<name> (<spec>)"` where the specialisation is known.
    pub fn label(&self) -> (r: String)
        ensures
            r@ == label_of(self@),
    {
        if self.spec.id != 0 {
            let n = string_of_str(self.id.name.as_str());
            let n = n.concat(" (");
            let n = n.concat(self.spec.name.as_str());
            n.concat(")")
        } else {
            string_of_str(self.id.name.as_str())
        }
    }
}

impl Encounter {
    /// Both rosters are in rank order.
    pub open spec fn wf(&self) -> bool {
        self.players.wf() && self.npcs.wf()
    }

    pub fn new(area: String) -> (r: Self)
        ensures
            r@ == enc_new(area@),
            r.wf(),
    {
        Encounter {
            area,
            start: 0,
            ts: 0,
            end: None,
            players: SortedVec::new(ByDamage),
            npcs: SortedVec::new(ByMaxHealth),
        }
    }

    fn book(&mut self, who: &Actor, l: &Line)
        ensures
            final(self)@ == roster_step(old(self)@, *who, *l),
            old(self).wf() ==> final(self).wf(),
    {
        let ghost key = key_of(*who);
        let op = StatsOp { key: who.get_id(), max_health: who.max_health, line: l };
        proof {
            assert(op.key@ == key);
            assert((|t: StatsV| op.matches_spec(t)) =~= (|t: StatsV| t.id == key));
            assert((|t: StatsV| op.apply_spec(t)) =~= (|t: StatsV| booked(t, *who, *l)));
        }
        if who.is_npc() {
            self.npcs.update(&op);
        } else {
            self.players.update(&op);
        }
    }

    /// Books one line: `EnterCombat` sets the start, `ExitCombat` seals the
    /// session; once sealed, other lines are dropped; else the time advances
    /// and the source and the target are booked. Says whether the line
    /// carried anything the statistics count.
    pub fn append(&mut self, l: &Line) -> (r: bool)
        ensures
            final(self)@ == enc_append(old(self)@, *l),
            r == enc_records(old(self)@, *l),
            old(self).wf() ==> final(self).wf(),
    {
        match l.action {
            Action::EnterCombat => {
                self.start = l.ts.ms;
                return false;
            },
            Action::ExitCombat => {
                self.end = Some(l.ts.ms);
                return false;
            },
            _ => {},
        }
        if self.end.is_some() {
            return false;
        }
        self.ts = l.ts.ms;
        if let Some(a) = &l.source {
            self.book(a, l);
        }
        if let Some(d) = &l.target {
            self.book(d, l);
        }
        (l.source.is_some() || l.target.is_some()) && records_exec(&l.action)
    }

    /// Duration in milliseconds: to the end once sealed, else to the latest line.
    pub fn elapsed(&self) -> (r: i64)
        ensures
            r == elapsed_of(self@),
    {
        match self.end {
            Some(t) => t as i64 - self.start as i64,
            None => self.ts as i64 - self.start as i64,
        }
    }

    /// The players' maximum health, summed.
    pub fn players_health(&self) -> (r: i128)
        ensures
            r == health_sum(self@.players),
    {
        let items = self.players.iter();
        let ghost s = self@.players;
        let mut acc: i128 = 0;
        let mut i: usize = 0;
        while i < items.len()
            invariant
                i <= items@.len(),
                items@.map_values(|t: ActorStats| t@) == s,
                acc == health_sum(s.take(i as int)),
                -(i as int) * 0x8000_0000 <= acc <= (i as int) * 0x8000_0000,
            decreases items.len() - i,
        {
            assert(s.take(i + 1).drop_last() =~= s.take(i as int));
            assert(s[i as int] == items@[i as int]@);
            acc = acc + items[i].max_health as i128;
            i = i + 1;
        }
        assert(s.take(i as int) =~= s);
        acc
    }

    /// The NPC with the most maximum health has more than all players
    /// together.
    pub fn is_boss(&self) -> (r: bool)
        ensures
            r == boss_spec(self@),
    {
        let p = self.players_health();
        if self.npcs.is_empty() {
            false
        } else {
            self.npcs.get(0).max_health as i128 > p
        }
    }

    /// `(name, max health)` of the NPCs, highest first; in a boss encounter,
    /// where `filter_bosses`, only those with more than half the players'
    /// summed maximum health.
    pub fn npc_by_health(&self, filter_bosses: bool) -> (r: Vec<(String, i32)>)
        ensures
            r@.map_values(|x: (String, i32)| (x.0@, x.1)) == npc_rows(
                self@.npcs,
                filter_bosses && boss_spec(self@),
                health_sum(self@.players),
            ),
    {
        let p = self.players_health();
        let only_big = filter_bosses && self.is_boss();
        let items = self.npcs.iter();
        let ghost s = self@.npcs;
        let mut out: Vec<(String, i32)> = Vec::new();
        let mut i: usize = 0;
        while i < items.len()
            invariant
                i <= items@.len(),
                items@.map_values(|t: ActorStats| t@) == s,
                p == health_sum(self@.players),
                out@.map_values(|x: (String, i32)| (x.0@, x.1)) == npc_rows(
                    s.take(i as int),
                    only_big,
                    p as int,
                ),
            decreases items.len() - i,
        {
            assert(s.take(i + 1).drop_last() =~= s.take(i as int));
            assert(s[i as int] == items@[i as int]@);
            let t = &items[i];
            let ghost before = out@;
            if !only_big || 2 * (t.max_health as i128) > p {
                out.push((string_of_str(t.id.name.as_str()), t.max_health));
                assert(out@.map_values(|x: (String, i32)| (x.0@, x.1)) =~= before.map_values(
                    |x: (String, i32)| (x.0@, x.1),
                ).push((t.id.name@, t.max_health)));
            }
            i = i + 1;
        }
        assert(s.take(i as int) =~= s);
        out
    }

    /// The player whose name is the part of `name` before its first `" ("`
    /// (the spec suffix); none where `name` has no such suffix.
    pub fn player_by_name(&self, name: &str) -> (r: Option<&ActorStats>)
        ensures
            match lookup_name(name@) {
                Some(n) => match first_match(|t: StatsV| t.id.1 == n, self@.players) {
                    Some(k) => r matches Some(p) && p@ == self@.players[k],
                    None => r is None,
                },
                None => r is None,
            },
    {
        let cs = chars_of(name);
        let idx = match find_suffix_at(cs.as_slice()) {
            Some(i) => i,
            None => {
                return None;
            },
        };
        let wanted = name.substring_char(0, idx);
        let ghost n = wanted@;
        assert(wanted@ =~= name@.take(idx as int));
        assert(lookup_name(name@) == Some(n));
        let items = self.players.iter();
        let ghost s = self@.players;
        let mut i: usize = 0;
        assert(s.skip(0) =~= s);
        while i < items.len()
            invariant
                i <= items@.len(),
                items@.map_values(|t: ActorStats| t@) == s,
                s == self@.players,
                n == wanted@,
                lookup_name(name@) == Some(n),
                first_match(|t: StatsV| t.id.1 == n, s) == match first_match(
                    |t: StatsV| t.id.1 == n,
                    s.skip(i as int),
                ) {
                    Some(k) => Some(k + i),
                    None => None,
                },
            decreases items.len() - i,
        {
            assert(s.skip(i as int).drop_first() =~= s.skip(i + 1));
            assert(s[i as int] == items@[i as int]@);
            if crate::text::str_eq(items[i].id.name.as_str(), wanted) {
                proof {
                    assert(s.skip(i as int)[0] == s[i as int]);
                    assert(s[i as int].id.1 == n);
                    assert(first_match(|t: StatsV| t.id.1 == n, s.skip(i as int)) == Some(0int));
                }
                return Some(&items[i]);
            }
            i = i + 1;
        }
        None
    }

    /// Every tracked NPC is dead.
    pub fn is_boss_dead(&self) -> (r: bool)
        ensures
            r == forall|k: int| 0 <= k < self@.npcs.len() ==> #[trigger] self@.npcs[k].deaths
                > self@.npcs[k].revives,
    {
        let items = self.npcs.iter();
        let ghost s = self@.npcs;
        let mut i: usize = 0;
        while i < items.len()
            invariant
                i <= items@.len(),
                items@.map_values(|t: ActorStats| t@) == s,
                s == self@.npcs,
                forall|k: int| 0 <= k < i ==> #[trigger] s[k].deaths > s[k].revives,
            decreases items.len() - i,
        {
            assert(s[i as int] == items@[i as int]@);
            if !items[i].is_dead() {
                assert(!(self@.npcs[i as int].deaths > self@.npcs[i as int].revives));
                return false;
            }
            i = i + 1;
        }
        true
    }
}

fn records_exec(act: &Action) -> (r: bool)
    ensures
        r == records(*act),
{
    match act {
        Action::Damage { value, .. } => *value != 0,
        Action::Heal { value, .. } => *value != 0,
        Action::DisciplineChanged { .. } => true,
        Action::Death => true,
        Action::Revived => true,
        Action::Interrupted(_) => true,
        _ => false,
    }
}

/// What the caller of `Encounters::process_line` is owed after a line.
#[derive(Debug, Clone, Copy, PartialEq, Eq, Structural)]
pub enum Notify {
    /// Nothing to show.
    Quiet,
    /// The open session took new content: show `current()`.
    Current,
    /// A session was sealed: show the last of `history()`.
    Sealed,
}

/// The session list: sealed sessions, the open one, the last area entered.
#[derive(Debug)]
pub struct Encounters {
    all: Vec<Encounter>,
    curr: Option<Encounter>,
    last_area: String,
}

/// The model of `Encounters`.
pub struct EncsV {
    pub all: Seq<EncV>,
    pub curr: Option<EncV>,
    pub last_area: Seq<char>,
}

impl View for Encounters {
    type V = EncsV;

    closed spec fn view(&self) -> EncsV {
        EncsV {
            all: self.all@.map_values(|e: Encounter| e@),
            curr: match self.curr {
                Some(e) => Some(e@),
                None => None,
            },
            last_area: self.last_area@,
        }
    }
}

/// The session list after the line `l`, and what the caller is owed.
pub open spec fn encs_step(s: EncsV, l: Line) -> (EncsV, Notify) {
    match l.action {
        Action::AreaEntered(n) => (EncsV { last_area: n.name@, ..s }, Notify::Quiet),
        Action::EnterCombat => {
            let e = enc_append(enc_new(s.last_area), l);
            let all = match s.curr {
                Some(c) => s.all.push(c),
                None => s.all,
            };
            (EncsV { all, curr: Some(e), ..s }, Notify::Quiet)
        },
        Action::ExitCombat => match s.curr {
            Some(c) => (
                EncsV { all: s.all.push(enc_append(c, l)), curr: None, ..s },
                Notify::Sealed,
            ),
            None => (s, Notify::Quiet),
        },
        _ => match s.curr {
            Some(c) => if c.end is Some {
                (s, Notify::Quiet)
            } else {
                (
                    EncsV { curr: Some(enc_append(c, l)), ..s },
                    if enc_records(c, l) {
                        Notify::Current
                    } else {
                        Notify::Quiet
                    },
                )
            },
            None => (s, Notify::Quiet),
        },
    }
}

impl Encounters {
    /// Every session, sealed or open, keeps its rosters in rank order.
    pub closed spec fn wf(&self) -> bool {
        &&& forall|i: int| 0 <= i < self.all@.len() ==> (#[trigger] self.all@[i]).wf()
        &&& (self.curr matches Some(e) ==> e.wf())
    }

    pub fn new() -> (r: Self)
        ensures
            r@.all == Seq::<EncV>::empty(),
            r@.curr is None,
            r@.last_area == Seq::<char>::empty(),
            r.wf(),
    {
        let r = Encounters { all: Vec::new(), curr: None, last_area: String::new() };
        assert(r@.all =~= Seq::<EncV>::empty());
        r
    }

    /// One step of the session state machine. `AreaEntered` records the
    /// area; `EnterCombat` opens a session in it, moving an open one to
    /// the history first; `ExitCombat` seals the open session into the
    /// history; other lines go to the open, unsealed session, and are
    /// dropped where there is none.
    pub fn process_line(&mut self, l: &Line) -> (r: Notify)
        ensures
            (final(self)@, r) == encs_step(old(self)@, *l),
            old(self).wf() ==> final(self).wf(),
    {
        let ghost s = self@;
        let ghost was_wf = self.wf();
        let ghost old_all = self.all@;
        match &l.action {
            Action::AreaEntered(n) => {
                self.last_area = n.name.clone();
                Notify::Quiet
            },
            Action::EnterCombat => {
                let mut e = Encounter::new(self.last_area.clone());
                e.append(l);
                let prev = self.curr.take();
                if let Some(c) = prev {
                    let ghost cw = c.wf();
                    self.all.push(c);
                    assert(self.all@.map_values(|e: Encounter| e@) =~= s.all.push(
                        s.curr->0,
                    ));
                    proof {
                        if was_wf {
                            assert forall|i: int| 0 <= i < self.all@.len() implies (
                            #[trigger] self.all@[i]).wf() by {
                                if i < old_all.len() {
                                    assert(self.all@[i] == old_all[i]);
                                }
                            }
                        }
                    }
                }
                self.curr = Some(e);
                Notify::Quiet
            },
            Action::ExitCombat => {
                let prev = self.curr.take();
                match prev {
                    Some(mut c) => {
                        c.append(l);
                        let ghost cv = c@;
                        self.all.push(c);
                        assert(self.all@.map_values(|e: Encounter| e@) =~= s.all.push(cv));
                        proof {
                            if was_wf {
                                assert forall|i: int| 0 <= i < self.all@.len() implies (
                                #[trigger] self.all@[i]).wf() by {
                                    if i < old_all.len() {
                                        assert(self.all@[i] == old_all[i]);
                                    }
                                }
                            }
                        }
                        Notify::Sealed
                    },
                    None => Notify::Quiet,
                }
            },
            _ => {
                let prev = self.curr.take();
                match prev {
                    Some(mut c) => {
                        if c.end.is_some() {
                            self.curr = Some(c);
                            return Notify::Quiet;
                        }
                        let rec = c.append(l);
                        self.curr = Some(c);
                        if rec {
                            Notify::Current
                        } else {
                            Notify::Quiet
                        }
                    },
                    None => Notify::Quiet,
                }
            },
        }
    }

    /// The open session, if any.
    pub fn current(&self) -> (r: Option<&Encounter>)
        ensures
            match r {
                Some(e) => self@.curr == Some(e@),
                None => self@.curr is None,
            },
    {
        match &self.curr {
            Some(e) => Some(e),
            None => None,
        }
    }

    /// The sealed sessions, oldest first.
    pub fn history(&self) -> (r: &[Encounter])
        ensures
            r@.map_values(|e: Encounter| e@) == self@.all,
    {
        self.all.as_slice()
    }

    /// The last area entered.
    pub fn last_area(&self) -> (r: &str)
        ensures
            r@ == self@.last_area,
    {
        self.last_area.as_str()
    }
}

/// A Damage or Heal line whose amount is zero.
pub open spec fn zero_value(act: Action) -> bool {
    (act matches Action::Damage { value, .. } && value == 0) || (act matches Action::Heal {
        value,
        ..
    } && value == 0)
}

/// The same counters: both totals and every keyed meter.
pub open spec fn same_counts(a: StatsV, b: StatsV) -> bool {
    &&& a.dmg_total == b.dmg_total
    &&& a.heal_total == b.heal_total
    &&& a.dmg_out == b.dmg_out
    &&& a.dmg_in == b.dmg_in
    &&& a.heal_out == b.heal_out
    &&& a.heal_in == b.heal_in
    &&& a.spells_out == b.spells_out
    &&& a.spells_in == b.spells_in
}

/// Nothing counted: no cast in either total, no keyed meter.
pub open spec fn zero_counts(x: StatsV) -> bool {
    &&& x.dmg_total.casts == 0
    &&& x.heal_total.casts == 0
    &&& x.dmg_out.len() == 0
    &&& x.dmg_in.len() == 0
    &&& x.heal_out.len() == 0
    &&& x.heal_in.len() == 0
    &&& x.spells_out.len() == 0
    &&& x.spells_in.len() == 0
}

/// `x` counts nothing, or counts just what the entry with its key in `s` did.
pub open spec fn kept_from(x: StatsV, s: Seq<StatsV>) -> bool {
    zero_counts(x) || exists|j: int| 0 <= j < s.len() && s[j].id == x.id && same_counts(s[j], x)
}

pub open spec fn all_kept(s2: Seq<StatsV>, s: Seq<StatsV>) -> bool {
    forall|k: int| 0 <= k < s2.len() ==> kept_from(#[trigger] s2[k], s)
}

proof fn lemma_kept_refl(s: Seq<StatsV>)
    ensures
        all_kept(s, s),
{
    assert forall|k: int| 0 <= k < s.len() implies kept_from(#[trigger] s[k], s) by {
        assert(s[k].id == s[k].id && same_counts(s[k], s[k]));
    }
}

proof fn lemma_kept_trans(s3: Seq<StatsV>, s2: Seq<StatsV>, s: Seq<StatsV>)
    requires
        all_kept(s3, s2),
        all_kept(s2, s),
    ensures
        all_kept(s3, s),
{
    assert forall|k: int| 0 <= k < s3.len() implies kept_from(#[trigger] s3[k], s) by {
        let x = s3[k];
        if !zero_counts(x) {
            let j = choose|j: int| 0 <= j < s2.len() && s2[j].id == x.id && same_counts(s2[j], x);
            assert(kept_from(s2[j], s));
            if !zero_counts(s2[j]) {
                let i = choose|i: int|
                    0 <= i < s.len() && s[i].id == s2[j].id && same_counts(s[i], s2[j]);
                assert(s[i].id == x.id && same_counts(s[i], x));
            }
        }
    }
}

proof fn lemma_roster_keeps<R: Rank<ActorStats>>(r: R, s: Seq<StatsV>, who: Actor, l: Line)
    requires
        zero_value(l.action),
    ensures
        all_kept(
            upserted(
                r,
                |t: StatsV| t.id == key_of(who),
                stats_new(key_of(who)),
                |t: StatsV| booked(t, who, l),
                s,
            ),
            s,
        ),
{
    let key = key_of(who);
    let m = |t: StatsV| t.id == key;
    let f = |t: StatsV| booked(t, who, l);
    let res = upserted(r, m, stats_new(key), f, s);
    assert forall|k: int| 0 <= k < res.len() implies kept_from(#[trigger] res[k], s) by {
        lemma_upserted_from(r, m, stats_new(key), f, s, k);
        let x = res[k];
        if exists|j: int| 0 <= j < s.len() && x == s[j] {
            let j = choose|j: int| 0 <= j < s.len() && x == s[j];
            assert(s[j].id == x.id && same_counts(s[j], x));
        } else if x == f(stats_new(key)) {
            let t = StatsV { max_health: who.max_health, ..stats_new(key) };
            lemma_zero_value_no_casts(t, l.source, l.target, l.action);
            assert(zero_counts(x));
        } else {
            let j = choose|j: int| 0 <= j < s.len() && x == f(s[j]);
            let t = StatsV { max_health: who.max_health, ..s[j] };
            lemma_zero_value_no_casts(t, l.source, l.target, l.action);
            assert(s[j].id == x.id && same_counts(s[j], x));
        }
    }
}

proof fn lemma_step_keeps(e: EncV, who: Actor, l: Line)
    requires
        zero_value(l.action),
    ensures
        all_kept(roster_step(e, who, l).players, e.players),
        all_kept(roster_step(e, who, l).npcs, e.npcs),
{
    lemma_kept_refl(e.players);
    lemma_kept_refl(e.npcs);
    if who.typ is NPC {
        lemma_roster_keeps(ByMaxHealth, e.npcs, who, l);
    } else {
        lemma_roster_keeps(ByDamage, e.players, who, l);
    }
}

/// A Damage or Heal line whose amount is zero asks for no callback and
/// counts no cast anywhere in the session: every combatant afterwards
/// either counts nothing (one first seen on this line) or keeps exactly
/// the totals and keyed meters it had.
pub proof fn lemma_zero_value_line_counts_nothing(e: EncV, l: Line)
    requires
        zero_value(l.action),
    ensures
        !enc_records(e, l),
        all_kept(enc_append(e, l).players, e.players),
        all_kept(enc_append(e, l).npcs, e.npcs),
{
    let e1 = EncV { ts: l.ts.ms, ..e };
    lemma_kept_refl(e.players);
    lemma_kept_refl(e.npcs);
    if e.end is None {
        let e2 = match l.source {
            Some(a) => roster_step(e1, a, l),
            None => e1,
        };
        if let Some(a) = l.source {
            lemma_step_keeps(e1, a, l);
        }
        if let Some(d) = l.target {
            lemma_step_keeps(e2, d, l);
            lemma_kept_trans(roster_step(e2, d, l).players, e2.players, e.players);
            lemma_kept_trans(roster_step(e2, d, l).npcs, e2.npcs, e.npcs);
        }
    }
}

/// A fresh session list fed `EnterCombat`, one Damage line of 5000 from a
/// player A to an NPC B, and `ExitCombat` seals one session: A is its only
/// player, with one cast of 5000 dealt, B its only NPC; the damage line
/// asks to show the open session and the exit line the sealed one.
pub proof fn lemma_enter_damage_exit(
    s: EncsV,
    enter: Line,
    hit: Line,
    exit: Line,
    a: Actor,
    b: Actor,
)
    requires
        s.all.len() == 0,
        s.curr is None,
        enter.action is EnterCombat,
        exit.action is ExitCombat,
        hit.source == Some(a),
        hit.target == Some(b),
        a.typ is Player,
        b.typ is NPC,
        hit.action matches Action::Damage { value, critical, .. } && value == 5000 && !critical,
    ensures
        ({
            let (s1, n1) = encs_step(s, enter);
            let (s2, n2) = encs_step(s1, hit);
            let (s3, n3) = encs_step(s2, exit);
            let e = s3.all[0];
            &&& n1 == Notify::Quiet && n2 == Notify::Current && n3 == Notify::Sealed
            &&& s3.all.len() == 1 && s3.curr is None
            &&& e.end == Some(exit.ts.ms)
            &&& e.players.len() == 1 && e.players[0].id == key_of(a)
            &&& e.players[0].dmg_total.total == 5000 && e.players[0].dmg_total.casts == 1
            &&& e.npcs.len() == 1 && e.npcs[0].id == key_of(b)
        }),
{
    let (s1, n1) = encs_step(s, enter);
    let e1 = enc_append(enc_new(s.last_area), enter);
    assert(s1.curr == Some(e1));
    assert(e1.end is None);
    let f1 = EncV { ts: hit.ts.ms, ..e1 };
    let sa = StatsV { max_health: a.max_health, ..stats_new(key_of(a)) };
    let pa = stats_step(sa, hit.source, hit.target, hit.action);
    assert(first_match(|t: StatsV| t.id == key_of(a), f1.players) is None);
    assert(slot(ByDamage, f1.players, pa) == 0);
    let f2 = roster_step(f1, a, hit);
    assert(f2.players =~= seq![pa]);
    let sb = StatsV { max_health: b.max_health, ..stats_new(key_of(b)) };
    let pb = stats_step(sb, hit.source, hit.target, hit.action);
    assert(first_match(|t: StatsV| t.id == key_of(b), f2.npcs) is None);
    assert(slot(ByMaxHealth, f2.npcs, pb) == 0);
    let f3 = roster_step(f2, b, hit);
    assert(f3.npcs =~= seq![pb]);
    assert(f3.players == f2.players);
    assert(pa.dmg_total == crate::actor_stats::meter_updated(sa.dmg_total, 5000, false));
    assert(pa.id == key_of(a));
    assert(pb.id == key_of(b));
}

/// Once a session is sealed it stays sealed: no line clears its end.
pub proof fn lemma_sealed_stays_sealed(e: EncV, l: Line)
    requires
        e.end is Some,
    ensures
        enc_append(e, l).end is Some,
        !(l.action is ExitCombat) ==> enc_append(e, l).end == e.end,
{
}

/// Feeding one `EnterCombat`/`ExitCombat` pair twice in a row, with no
/// session open before, seals exactly one session per pair, each opened
/// at the first line's time and sealed at the second's, leaves none open,
/// and gives each a duration that is not negative.
pub proof fn lemma_pair_twice(s: EncsV, enter: Line, exit: Line)
    requires
        s.curr is None,
        enter.action is EnterCombat,
        exit.action is ExitCombat,
        enter.ts.ms <= exit.ts.ms,
    ensures
        ({
            let (s1, n1) = encs_step(s, enter);
            let (s2, n2) = encs_step(s1, exit);
            let (s3, n3) = encs_step(s2, enter);
            let (s4, n4) = encs_step(s3, exit);
            let sealed = EncV {
                area: s.last_area,
                start: enter.ts.ms,
                ts: 0,
                end: Some(exit.ts.ms),
                players: Seq::empty(),
                npcs: Seq::empty(),
            };
            &&& s4.all == s.all.push(sealed).push(sealed)
            &&& s4.curr is None
            &&& n1 == Notify::Quiet && n3 == Notify::Quiet
            &&& n2 == Notify::Sealed && n4 == Notify::Sealed
            &&& elapsed_of(sealed) == exit.ts.ms - enter.ts.ms
            &&& elapsed_of(sealed) >= 0
        }),
{
}

/// Boss detection over a roster in rank order: the encounter is a boss
/// encounter exactly when some NPC's maximum health exceeds the players'
/// summed maximum health `P`; filtering then keeps only the NPCs above
/// `P / 2`, and without a boss every NPC is listed.
pub proof fn lemma_boss_detection(e: EncV)
    requires
        crate::sorted_vec::sorted_by::<ActorStats, ByMaxHealth>(ByMaxHealth, e.npcs),
    ensures
        boss_spec(e) == exists|i: int| 0 <= i < e.npcs.len() && #[trigger] e.npcs[i].max_health
            > health_sum(e.players),
        forall|k: int| 0 <= k < npc_rows(e.npcs, true, health_sum(e.players)).len() ==> 2 * (
        #[trigger] npc_rows(e.npcs, true, health_sum(e.players))[k]).1 > health_sum(e.players),
        !boss_spec(e) ==> npc_rows(e.npcs, boss_spec(e), health_sum(e.players)).len()
            == e.npcs.len(),
{
    let p = health_sum(e.players);
    if exists|i: int| 0 <= i < e.npcs.len() && #[trigger] e.npcs[i].max_health > p {
        let i = choose|i: int| 0 <= i < e.npcs.len() && #[trigger] e.npcs[i].max_health > p;
        if i > 0 {
            assert(ByMaxHealth.rank_spec(e.npcs[0]) >= ByMaxHealth.rank_spec(e.npcs[i]));
        }
    }
    lemma_rows_big(e.npcs, p);
    lemma_rows_all(e.npcs, p);
}

proof fn lemma_rows_big(s: Seq<StatsV>, p: int)
    ensures
        forall|k: int| 0 <= k < npc_rows(s, true, p).len() ==> 2 * (#[trigger] npc_rows(
            s,
            true,
            p,
        )[k]).1 > p,
    decreases s.len(),
{
    if s.len() > 0 {
        let r = npc_rows(s.drop_last(), true, p);
        lemma_rows_big(s.drop_last(), p);
        let full = npc_rows(s, true, p);
        assert forall|k: int| 0 <= k < full.len() implies 2 * (#[trigger] full[k]).1 > p by {
            if k < r.len() {
                assert(full[k] == r[k]);
            }
        }
    }
}

proof fn lemma_rows_all(s: Seq<StatsV>, p: int)
    ensures
        npc_rows(s, false, p).len() == s.len(),
    decreases s.len(),
{
    if s.len() > 0 {
        lemma_rows_all(s.drop_last(), p);
    }
}

} // verus!
