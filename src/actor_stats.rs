//! Per-combatant meters and the per-event reducer that fills them.
//! Counters saturate at the bounds of `i32` instead of wrapping.

use vstd::prelude::*;
use crate::action::Action;
use crate::actor::{actor_key_name, Actor};
use crate::namedid::NamedID;
use crate::sorted_vec::{upserted, Rank, SortedVec, Upsert};

verus! {

/// `x` clamped to the range of `i32`.
pub open spec fn sat(x: int) -> i32 {
    if x > i32::MAX {
        i32::MAX
    } else if x < i32::MIN {
        i32::MIN
    } else {
        x as i32
    }
}

/// `a + b`, clamped to the range of `i32`.
pub fn sat_add(a: i32, b: i32) -> (r: i32)
    ensures
        r == sat(a + b),
{
    let x = a as i64 + b as i64;
    if x > i32::MAX as i64 {
        i32::MAX
    } else if x < i32::MIN as i64 {
        i32::MIN
    } else {
        x as i32
    }
}

/// Running totals for one bucket: casts, amount, critical casts and amount.
#[derive(Debug)]
pub struct Meter {
    pub id: NamedID,
    pub casts: i32,
    pub total: i32,
    pub crit_total: i32,
    pub crits: i32,
}

/// The model of a `Meter`.
pub struct MeterV {
    pub id: (u64, Seq<char>),
    pub casts: i32,
    pub total: i32,
    pub crit_total: i32,
    pub crits: i32,
}

impl View for Meter {
    type V = MeterV;

    open spec fn view(&self) -> MeterV {
        MeterV {
            id: self.id@,
            casts: self.casts,
            total: self.total,
            crit_total: self.crit_total,
            crits: self.crits,
        }
    }
}

/// A meter with nothing counted yet.
pub open spec fn meter_zero(id: (u64, Seq<char>)) -> MeterV {
    MeterV { id, casts: 0, total: 0, crit_total: 0, crits: 0 }
}

/// One cast of `value` counted into `m`.
pub open spec fn meter_updated(m: MeterV, value: i32, crit: bool) -> MeterV {
    MeterV {
        id: m.id,
        casts: sat(m.casts + 1),
        total: sat(m.total + value),
        crit_total: if crit {
            sat(m.crit_total + value)
        } else {
            m.crit_total
        },
        crits: if crit {
            sat(m.crits + 1)
        } else {
            m.crits
        },
    }
}

/// The field-wise sum of two meters, under the id of the first.
pub open spec fn meter_merged(a: MeterV, b: MeterV) -> MeterV {
    MeterV {
        id: a.id,
        casts: sat(a.casts + b.casts),
        total: sat(a.total + b.total),
        crit_total: sat(a.crit_total + b.crit_total),
        crits: sat(a.crits + b.crits),
    }
}

impl Meter {
    pub fn new(id: NamedID) -> (r: Self)
        ensures
            r@ == meter_zero(id@),
    {
        Meter { id, casts: 0, total: 0, crit_total: 0, crits: 0 }
    }

    /// Counts one cast of `value`, and a critical one where `crit`.
    pub fn update(&mut self, value: i32, crit: bool)
        ensures
            final(self)@ == meter_updated(old(self)@, value, crit),
    {
        self.casts = sat_add(self.casts, 1);
        self.total = sat_add(self.total, value);
        if crit {
            self.crit_total = sat_add(self.crit_total, value);
            self.crits = sat_add(self.crits, 1);
        }
    }

    /// Adds `other`'s counters into this meter (`+=`).
    pub fn add_assign(&mut self, other: &Meter)
        ensures
            final(self)@ == meter_merged(old(self)@, other@),
    {
        self.casts = sat_add(self.casts, other.casts);
        self.total = sat_add(self.total, other.total);
        self.crit_total = sat_add(self.crit_total, other.crit_total);
        self.crits = sat_add(self.crits, other.crits);
    }
}

/// Meters ranked by their total.
#[derive(Debug)]
pub struct ByTotal;

impl Rank<Meter> for ByTotal {
    open spec fn rank_spec(&self, t: MeterV) -> int {
        t.total as int
    }

    fn rank(&self, t: &Meter) -> (r: i64) {
        t.total as i64
    }
}

/// Counts one cast into the meter keyed by `id`.
pub struct MeterOp {
    pub id: NamedID,
    pub value: i32,
    pub crit: bool,
}

impl Upsert<Meter> for MeterOp {
    open spec fn matches_spec(&self, t: MeterV) -> bool {
        t.id == self.id@
    }

    open spec fn fresh_spec(&self) -> MeterV {
        meter_zero(self.id@)
    }

    open spec fn apply_spec(&self, t: MeterV) -> MeterV {
        meter_updated(t, self.value, self.crit)
    }

    fn matches(&self, t: &Meter) -> (r: bool) {
        t.id == self.id
    }

    fn fresh(&self) -> (r: Meter) {
        Meter::new(self.id.copy())
    }

    fn apply(&self, t: &mut Meter) {
        t.update(self.value, self.crit);
    }
}

/// The keyed meters after one cast of `value` is counted under `key`.
pub open spec fn meter_step(s: Seq<MeterV>, key: (u64, Seq<char>), value: i32, crit: bool) -> Seq<
    MeterV,
> {
    upserted(
        ByTotal,
        |m: MeterV| m.id == key,
        meter_zero(key),
        |m: MeterV| meter_updated(m, value, crit),
        s,
    )
}

fn update_meter(v: &mut SortedVec<Meter, ByTotal>, id: NamedID, value: i32, crit: bool)
    ensures
        old(v).wf() ==> final(v).wf(),
        final(v)@ == meter_step(old(v)@, id@, value, crit),
{
    let ghost key = id@;
    let op = MeterOp { id, value, crit };
    v.update(&op);
    proof {
        assert((|t: MeterV| op.matches_spec(t)) =~= (|m: MeterV| m.id == key));
        assert((|t: MeterV| op.apply_spec(t)) =~= (|m: MeterV| meter_updated(m, value, crit)));
    }
}

/// Statistics of one combatant within one encounter.
#[derive(Debug)]
pub struct ActorStats {
    pub id: NamedID,
    pub spec: NamedID,
    pub class: NamedID,
    pub health: i32,
    pub max_health: i32,
    pub dmg_out: SortedVec<Meter, ByTotal>,
    pub dmg_in: SortedVec<Meter, ByTotal>,
    pub dmg_total: Meter,
    pub heal_out: SortedVec<Meter, ByTotal>,
    pub heal_in: SortedVec<Meter, ByTotal>,
    pub heal_total: Meter,
    pub spells_out: SortedVec<Meter, ByTotal>,
    pub spells_in: SortedVec<Meter, ByTotal>,
    pub interrupted: i32,
    pub absorbed: i32,
    pub deaths: i32,
    pub revives: i32,
}

/// The model of an `ActorStats`.
pub struct StatsV {
    pub id: (u64, Seq<char>),
    pub spec: (u64, Seq<char>),
    pub class: (u64, Seq<char>),
    pub health: i32,
    pub max_health: i32,
    pub dmg_out: Seq<MeterV>,
    pub dmg_in: Seq<MeterV>,
    pub dmg_total: MeterV,
    pub heal_out: Seq<MeterV>,
    pub heal_in: Seq<MeterV>,
    pub heal_total: MeterV,
    pub spells_out: Seq<MeterV>,
    pub spells_in: Seq<MeterV>,
    pub interrupted: i32,
    pub absorbed: i32,
    pub deaths: i32,
    pub revives: i32,
}

impl View for ActorStats {
    type V = StatsV;

    open spec fn view(&self) -> StatsV {
        StatsV {
            id: self.id@,
            spec: self.spec@,
            class: self.class@,
            health: self.health,
            max_health: self.max_health,
            dmg_out: self.dmg_out@,
            dmg_in: self.dmg_in@,
            dmg_total: self.dmg_total@,
            heal_out: self.heal_out@,
            heal_in: self.heal_in@,
            heal_total: self.heal_total@,
            spells_out: self.spells_out@,
            spells_in: self.spells_in@,
            interrupted: self.interrupted,
            absorbed: self.absorbed,
            deaths: self.deaths,
            revives: self.revives,
        }
    }
}

/// The statistics of a combatant first seen under `id`.
pub open spec fn stats_new(id: (u64, Seq<char>)) -> StatsV {
    StatsV {
        id,
        spec: (0, Seq::empty()),
        class: (0, Seq::empty()),
        health: 0,
        max_health: 0,
        dmg_out: Seq::empty(),
        dmg_in: Seq::empty(),
        dmg_total: meter_zero(id),
        heal_out: Seq::empty(),
        heal_in: Seq::empty(),
        heal_total: meter_zero(id),
        spells_out: Seq::empty(),
        spells_in: Seq::empty(),
        interrupted: 0,
        absorbed: 0,
        deaths: 0,
        revives: 0,
    }
}

/// The key an actor ranks under.
pub open spec fn key_of(a: Actor) -> (u64, Seq<char>) {
    (a.id.id, actor_key_name(&a))
}

/// The line's source is the combatant these statistics are for.
pub open spec fn is_source(s: StatsV, src: Option<Actor>) -> bool {
    src matches Some(a) && key_of(a) == s.id
}

/// Whom a hit is booked against: the target, else the source, else nobody.
pub open spec fn target_key(src: Option<Actor>, dst: Option<Actor>) -> (u64, Seq<char>) {
    match dst {
        Some(d) => key_of(d),
        None => match src {
            Some(a) => key_of(a),
            None => (0, Seq::empty()),
        },
    }
}

/// The line carries something these statistics count.
pub open spec fn records(act: Action) -> bool {
    match act {
        Action::Damage { value, .. } => value != 0,
        Action::Heal { value, .. } => value != 0,
        Action::DisciplineChanged { .. } => true,
        Action::Death => true,
        Action::Revived => true,
        Action::Interrupted(_) => true,
        _ => false,
    }
}

/// The statistics after one line with source `src`, target `dst` and
/// action `act`.
pub open spec fn stats_step(s: StatsV, src: Option<Actor>, dst: Option<Actor>, act: Action) -> StatsV {
    match act {
        Action::DisciplineChanged { class, spec } => StatsV {
            class: class@,
            spec: spec@,
            health: match src {
                Some(a) => a.max_health,
                None => s.health,
            },
            ..s
        },
        Action::Damage { ability, value, critical, .. } => if value == 0 {
            s
        } else {
            let out = is_source(s, src);
            let key = target_key(src, dst);
            let s1 = StatsV {
                dmg_total: meter_updated(s.dmg_total, value, critical),
                health: if out {
                    src->0.health
                } else {
                    s.health
                },
                ..s
            };
            if out {
                StatsV {
                    dmg_out: if key.0 > 0 {
                        meter_step(s.dmg_out, key, value, critical)
                    } else {
                        s.dmg_out
                    },
                    spells_out: meter_step(s.spells_out, ability@, value, critical),
                    ..s1
                }
            } else {
                StatsV {
                    dmg_in: if key.0 > 0 {
                        meter_step(s.dmg_in, key, value, critical)
                    } else {
                        s.dmg_in
                    },
                    spells_in: meter_step(s.spells_in, ability@, value, critical),
                    ..s1
                }
            }
        },
        Action::Heal { ability, value, critical, .. } => if value == 0 {
            s
        } else {
            let out = is_source(s, src);
            let s1 = StatsV {
                heal_total: meter_updated(s.heal_total, value, critical),
                health: if out {
                    src->0.health
                } else {
                    s.health
                },
                ..s
            };
            if out {
                StatsV {
                    heal_out: match dst {
                        Some(d) => meter_step(s.heal_out, key_of(d), value, critical),
                        None => s.heal_out,
                    },
                    spells_out: meter_step(s.spells_out, ability@, value, critical),
                    ..s1
                }
            } else {
                StatsV {
                    heal_in: match dst {
                        Some(d) => meter_step(s.heal_in, key_of(d), value, critical),
                        None => s.heal_in,
                    },
                    spells_in: meter_step(s.spells_in, ability@, value, critical),
                    ..s1
                }
            }
        },
        Action::Death => StatsV { deaths: sat(s.deaths + 1), ..s },
        Action::Revived => StatsV { revives: sat(s.revives + 1), ..s },
        Action::Interrupted(_) => StatsV { interrupted: sat(s.interrupted + 1), ..s },
        _ => s,
    }
}

/// The sum of the meters `s`, under the id `id`.
pub open spec fn sum_meters(s: Seq<MeterV>, id: (u64, Seq<char>)) -> MeterV {
    s.fold_left(meter_zero(id), |acc: MeterV, m: MeterV| meter_merged(acc, m))
}

impl ActorStats {
    /// All keyed meters are in rank order.
    pub open spec fn wf(&self) -> bool {
        &&& self.dmg_out.wf()
        &&& self.dmg_in.wf()
        &&& self.heal_out.wf()
        &&& self.heal_in.wf()
        &&& self.spells_out.wf()
        &&& self.spells_in.wf()
    }

    pub fn new(id: NamedID) -> (r: Self)
        ensures
            r@ == stats_new(id@),
            r.wf(),
    {
        let dmg_total = Meter::new(id.copy());
        let heal_total = Meter::new(id.copy());
        ActorStats {
            id,
            spec: NamedID::zero(),
            class: NamedID::zero(),
            health: 0,
            max_health: 0,
            dmg_out: SortedVec::new(ByTotal),
            dmg_in: SortedVec::new(ByTotal),
            dmg_total,
            heal_out: SortedVec::new(ByTotal),
            heal_in: SortedVec::new(ByTotal),
            heal_total,
            spells_out: SortedVec::new(ByTotal),
            spells_in: SortedVec::new(ByTotal),
            interrupted: 0,
            absorbed: 0,
            deaths: 0,
            revives: 0,
        }
    }

    /// Reduces one line into these statistics; says whether the line
    /// carried anything they count.
    pub fn update(&mut self, src: &Option<Actor>, dst: &Option<Actor>, act: &Action) -> (r: bool)
        ensures
            old(self).wf() ==> final(self).wf(),
            final(self)@ == stats_step(old(self)@, *src, *dst, *act),
            r == records(*act),
    {
        match act {
            Action::DisciplineChanged { class, spec } => {
                self.class = class.copy();
                self.spec = spec.copy();
                if let Some(a) = src {
                    self.health = a.max_health;
                }
                true
            },
            Action::Damage { ability, value, critical, .. } => {
                if *value == 0 {
                    return false;
                }
                self.dmg_total.update(*value, *critical);
                let out = match src {
                    Some(a) => a.get_id() == self.id,
                    None => false,
                };
                if out {
                    if let Some(a) = src {
                        self.health = a.health;
                    }
                }
                let key = match dst {
                    Some(d) => d.get_id(),
                    None => match src {
                        Some(a) => a.get_id(),
                        None => NamedID::zero(),
                    },
                };
                if out {
                    if key.id > 0 {
                        update_meter(&mut self.dmg_out, key, *value, *critical);
                    }
                    update_meter(&mut self.spells_out, ability.copy(), *value, *critical);
                } else {
                    if key.id > 0 {
                        update_meter(&mut self.dmg_in, key, *value, *critical);
                    }
                    update_meter(&mut self.spells_in, ability.copy(), *value, *critical);
                }
                true
            },
            Action::Heal { ability, value, critical, .. } => {
                if *value == 0 {
                    return false;
                }
                self.heal_total.update(*value, *critical);
                let out = match src {
                    Some(a) => a.get_id() == self.id,
                    None => false,
                };
                if out {
                    if let Some(a) = src {
                        self.health = a.health;
                    }
                }
                if out {
                    if let Some(d) = dst {
                        update_meter(&mut self.heal_out, d.get_id(), *value, *critical);
                    }
                    update_meter(&mut self.spells_out, ability.copy(), *value, *critical);
                } else {
                    if let Some(d) = dst {
                        update_meter(&mut self.heal_in, d.get_id(), *value, *critical);
                    }
                    update_meter(&mut self.spells_in, ability.copy(), *value, *critical);
                }
                true
            },
            Action::Death => {
                self.deaths = sat_add(self.deaths, 1);
                true
            },
            Action::Revived => {
                self.revives = sat_add(self.revives, 1);
                true
            },
            Action::Interrupted(_) => {
                self.interrupted = sat_add(self.interrupted, 1);
                true
            },
            _ => false,
        }
    }

    /// More deaths than revives.
    pub fn is_dead(&self) -> (r: bool)
        ensures
            r == (self.deaths > self.revives),
    {
        self.deaths > self.revives
    }

    /// Healing given, summed over all targets.
    pub fn all_heal_out(&self) -> (r: Meter)
        ensures
            r@ == sum_meters(self.heal_out@, self.id@),
    {
        Self::all_x(&self.heal_out, &self.id)
    }

    /// Healing taken, summed over all sources.
    pub fn all_heal_in(&self) -> (r: Meter)
        ensures
            r@ == sum_meters(self.heal_in@, self.id@),
    {
        Self::all_x(&self.heal_in, &self.id)
    }

    /// Damage dealt, summed over all targets.
    pub fn all_dmg_out(&self) -> (r: Meter)
        ensures
            r@ == sum_meters(self.dmg_out@, self.id@),
    {
        Self::all_x(&self.dmg_out, &self.id)
    }

    /// Damage taken, summed over all sources.
    pub fn all_dmg_in(&self) -> (r: Meter)
        ensures
            r@ == sum_meters(self.dmg_in@, self.id@),
    {
        Self::all_x(&self.dmg_in, &self.id)
    }

    /// Casts of every ability, summed.
    pub fn all_spells_out(&self) -> (r: Meter)
        ensures
            r@ == sum_meters(self.spells_out@, self.id@),
    {
        Self::all_x(&self.spells_out, &self.id)
    }

    fn all_x(v: &SortedVec<Meter, ByTotal>, id: &NamedID) -> (r: Meter)
        ensures
            r@ == sum_meters(v@, id@),
    {
        let mut m = Meter::new(id.copy());
        let items = v.iter();
        let ghost s = v@;
        let mut i: usize = 0;
        while i < items.len()
            invariant
                i <= items@.len(),
                items@.map_values(|t: Meter| t@) == s,
                m@ == sum_meters(s.take(i as int), id@),
            decreases items.len() - i,
        {
            assert(s.take(i + 1).drop_last() =~= s.take(i as int));
            assert(s[i as int] == items@[i as int]@);
            m.add_assign(&items[i]);
            i = i + 1;
        }
        assert(s.take(i as int) =~= s);
        m
    }
}

/// The four counters of a meter.
pub open spec fn counters(m: MeterV) -> (i32, i32, i32, i32) {
    (m.casts, m.total, m.crit_total, m.crits)
}

/// Critical casts within casts, critical amount within amount.
pub open spec fn meter_bounded(m: MeterV) -> bool {
    0 <= m.crits <= m.casts && 0 <= m.crit_total <= m.total
}

/// `m` after the casts `ups` (amount, critical) in order.
pub open spec fn meter_after(m: MeterV, ups: Seq<(i32, bool)>) -> MeterV
    decreases ups.len(),
{
    if ups.len() == 0 {
        m
    } else {
        meter_updated(meter_after(m, ups.drop_last()), ups.last().0, ups.last().1)
    }
}

/// After any sequence of casts of non-negative amounts, a meter counts no
/// more critical casts than casts and no more critical amount than amount.
pub proof fn lemma_meter_crits_bounded(m: MeterV, ups: Seq<(i32, bool)>)
    requires
        meter_bounded(m),
        forall|i: int| 0 <= i < ups.len() ==> (#[trigger] ups[i]).0 >= 0,
    ensures
        meter_bounded(meter_after(m, ups)),
    decreases ups.len(),
{
    if ups.len() > 0 {
        let pre = ups.drop_last();
        assert forall|i: int| 0 <= i < pre.len() implies (#[trigger] pre[i]).0 >= 0 by {
            assert(pre[i] == ups[i]);
        }
        lemma_meter_crits_bounded(m, pre);
        assert(ups[ups.len() - 1].0 >= 0);
    }
}

/// Merging meters is commutative on the four counters.
pub proof fn lemma_merge_commutative(a: MeterV, b: MeterV)
    ensures
        counters(meter_merged(a, b)) == counters(meter_merged(b, a)),
{
}

/// Merging meters is associative on the four counters, where no counter is
/// negative.
pub proof fn lemma_merge_associative(a: MeterV, b: MeterV, c: MeterV)
    requires
        a.casts >= 0 && a.total >= 0 && a.crit_total >= 0 && a.crits >= 0,
        b.casts >= 0 && b.total >= 0 && b.crit_total >= 0 && b.crits >= 0,
        c.casts >= 0 && c.total >= 0 && c.crit_total >= 0 && c.crits >= 0,
    ensures
        counters(meter_merged(meter_merged(a, b), c)) == counters(
            meter_merged(a, meter_merged(b, c)),
        ),
{
}

/// A Damage or Heal line whose amount is zero changes no statistics, so it
/// counts no cast.
pub proof fn lemma_zero_value_no_casts(
    s: StatsV,
    src: Option<Actor>,
    dst: Option<Actor>,
    act: Action,
)
    requires
        (act matches Action::Damage { value, .. } && value == 0) || (act matches Action::Heal {
            value,
            ..
        } && value == 0),
    ensures
        stats_step(s, src, dst, act) == s,
        !records(act),
{
}

/// Number of `true` in `evs`.
pub open spec fn count_true(evs: Seq<bool>) -> nat
    decreases evs.len(),
{
    if evs.len() == 0 {
        0
    } else {
        count_true(evs.drop_last()) + if evs.last() {
            1nat
        } else {
            0nat
        }
    }
}

/// `s` after a run of deaths (`true`) and revives (`false`).
pub open spec fn after_deaths(s: StatsV, evs: Seq<bool>) -> StatsV
    decreases evs.len(),
{
    if evs.len() == 0 {
        s
    } else {
        stats_step(
            after_deaths(s, evs.drop_last()),
            None,
            None,
            if evs.last() {
                Action::Death
            } else {
                Action::Revived
            },
        )
    }
}

proof fn lemma_death_counts(s: StatsV, evs: Seq<bool>)
    requires
        s.deaths == 0,
        s.revives == 0,
        evs.len() < i32::MAX,
    ensures
        after_deaths(s, evs).deaths == count_true(evs),
        after_deaths(s, evs).revives == evs.len() - count_true(evs),
    decreases evs.len(),
{
    if evs.len() > 0 {
        lemma_death_counts(s, evs.drop_last());
        assert(count_true(evs.drop_last()) <= evs.len() - 1) by {
            lemma_count_true_le(evs.drop_last());
        }
    }
}

proof fn lemma_count_true_le(evs: Seq<bool>)
    ensures
        count_true(evs) <= evs.len(),
    decreases evs.len(),
{
    if evs.len() > 0 {
        lemma_count_true_le(evs.drop_last());
    }
}

/// Through any run of deaths and revives, a combatant is dead exactly when
/// it has died more often than it was revived.
pub proof fn lemma_dead_iff_more_deaths(s: StatsV, evs: Seq<bool>)
    requires
        s.deaths == 0,
        s.revives == 0,
        evs.len() < i32::MAX,
    ensures
        (after_deaths(s, evs).deaths > after_deaths(s, evs).revives) == (count_true(evs) > evs.len()
            - count_true(evs)),
{
    lemma_death_counts(s, evs);
}

} // verus!
