//! The actor decoder: `@Name#id[/Owner {id}]|(x,y,z,dir)|(hp/maxhp)` for players
//! and companions, `Name {id}[:instance]|...` for NPCs.

use vstd::prelude::*;
use crate::namedid::{named_id_of, named_name_of, NamedID};
use crate::text::{
    chars_of, find_char, find_spec, i32_or_zero, parse_i32, parse_u64, rfind_char, rfind_spec,
    splitn_ranges, splitn_spec, split_ranges, split_spec, str_eq, string_of, trim, trim_parens,
    trim_parens_spec, trim_spec, u64_or_zero,
};

verus! {

/// What kind of combatant an actor is.
#[derive(Debug)]
pub enum ActorType {
    Player,
    NPC,
    /// A companion, with the `NamedID` written after the slash.
    Companion(NamedID),
}

impl ActorType {
    pub fn copy(&self) -> (r: Self)
        ensures
            r.same(self),
    {
        match self {
            ActorType::Player => ActorType::Player,
            ActorType::NPC => ActorType::NPC,
            ActorType::Companion(o) => ActorType::Companion(o.copy()),
        }
    }

    pub open spec fn same(&self, o: &ActorType) -> bool {
        match (self, o) {
            (ActorType::Player, ActorType::Player) => true,
            (ActorType::NPC, ActorType::NPC) => true,
            (ActorType::Companion(a), ActorType::Companion(b)) => a.same(b),
            _ => false,
        }
    }
}

impl Clone for ActorType {
    fn clone(&self) -> (r: Self)
        ensures
            r.same(self),
    {
        self.copy()
    }
}

/// A combatant as one log line describes it.
#[derive(Debug)]
pub struct Actor {
    pub id: NamedID,
    pub typ: ActorType,
    pub health: i32,
    pub max_health: i32,
    /// The position field, verbatim.
    pub pos: String,
}

/// The `|`-separated parts of an actor field, each trimmed.
pub open spec fn actor_part(p: Seq<char>, k: int) -> Seq<char> {
    if k < split_spec(p, '|').len() {
        trim_spec(split_spec(p, '|')[k])
    } else {
        Seq::empty()
    }
}

/// An empty field, or `=`, names no actor.
pub open spec fn names_actor(p: Seq<char>) -> bool {
    p.len() > 0 && p != "="@
}

/// The health pair `(hp/maxhp)` without its parentheses, cut at the slash.
pub open spec fn health_parts(p: Seq<char>) -> Seq<Seq<char>> {
    splitn_spec(trim_parens_spec(actor_part(p, 2)), '/', 2)
}

pub open spec fn health_of(p: Seq<char>) -> i32 {
    i32_or_zero(health_parts(p)[0])
}

pub open spec fn max_health_of(p: Seq<char>) -> i32 {
    if health_parts(p).len() > 1 {
        i32_or_zero(health_parts(p)[1])
    } else {
        0
    }
}

/// Where the owner part of a companion's identity starts: after the last
/// `/`, where that slash comes after the `#`.
pub open spec fn slash_after(t: Seq<char>, hash: int) -> Option<int> {
    match rfind_spec(t, '/') {
        Some(s) => if s > hash {
            Some(s)
        } else {
            None
        },
        None => None,
    }
}

/// A player's display name: what stands before the `#`, without the `@`.
pub open spec fn player_name_of(t: Seq<char>, hash: int) -> Seq<char> {
    if hash > 0 && t[0] == '@' {
        t.subrange(1, hash)
    } else {
        t.take(hash)
    }
}

/// The numeric id of a player or companion identity.
pub open spec fn player_id_of(t: Seq<char>, hash: int) -> u64 {
    match slash_after(t, hash) {
        Some(s) => u64_or_zero(t.subrange(hash + 1, s)),
        None => u64_or_zero(t.skip(hash + 1)),
    }
}

/// What `Actor::new` reads from the field `p`: id, name, kind, health pair
/// and position text.
pub open spec fn actor_spec(a: Actor, p: Seq<char>) -> bool {
    let t = actor_part(p, 0);
    &&& match find_spec(t, '#') {
        Some(h) => {
            &&& a.id.id == player_id_of(t, h)
            &&& a.id.name@ == player_name_of(t, h)
            &&& match slash_after(t, h) {
                Some(s) => a.typ matches ActorType::Companion(o) && o.id == named_id_of(t.skip(s + 1))
                    && o.name@ == named_name_of(t.skip(s + 1)),
                None => a.typ is Player,
            }
        },
        None => {
            &&& a.typ is NPC
            &&& a.id.id == named_id_of(t)
            &&& a.id.name@ == named_name_of(t)
        },
    }
    &&& a.health == health_of(p)
    &&& a.max_health == max_health_of(p)
    &&& a.pos@ == actor_part(p, 1)
}

/// The `k`-th trimmed part of the field, or an empty one.
fn part_of<'a>(p: &'a str, ranges: &Vec<(usize, usize)>, k: usize) -> (r: &'a str)
    requires
        crate::text::pieces(p@, ranges@) == split_spec(p@, '|'),
        crate::text::ranges_within(ranges@, p@.len()),
    ensures
        r@ == actor_part(p@, k as int),
{
    if k < ranges.len() {
        let (a, b) = ranges[k];
        assert(ranges@[k as int].0 <= ranges@[k as int].1 <= p@.len());
        trim(p.substring_char(a, b))
    } else {
        p.substring_char(0, 0)
    }
}

impl Actor {
    /// Decodes an actor field; `None` for an empty field or `=`. Numbers
    /// that do not parse read as 0.
    pub fn new(p: &str) -> (r: Option<Actor>)
        ensures
            r is None <==> !names_actor(p@),
            r matches Some(a) ==> actor_spec(a, p@),
    {
        if p.unicode_len() == 0 || str_eq(p, "=") {
            proof {
                reveal_strlit("=");
            }
            return None;
        }
        proof {
            reveal_strlit("=");
        }
        let cs = chars_of(p);
        let ranges = split_ranges(cs.as_slice(), '|');
        let t = part_of(p, &ranges, 0);
        let pos = part_of(p, &ranges, 1);
        let hp = trim_parens(part_of(p, &ranges, 2));
        let hcs = chars_of(hp);
        let hr = splitn_ranges(hcs.as_slice(), '/', 2);
        proof {
            assert(splitn_spec(hp@, '/', 2).len() >= 1);
        }
        let (h0a, h0b) = hr[0];
        assert(hr@[0].0 <= hr@[0].1 <= hp@.len());
        let health = int_or_zero(&hcs, h0a, h0b);
        let max_health = if hr.len() > 1 {
            let (h1a, h1b) = hr[1];
            assert(hr@[1].0 <= hr@[1].1 <= hp@.len());
            int_or_zero(&hcs, h1a, h1b)
        } else {
            0
        };
        let tc = chars_of(t);
        let tn = tc.len();
        let (id, typ) = match find_char(tc.as_slice(), '#') {
            Some(h) => {
                let name = if h > 0 && tc[0] == '@' {
                    string_of(t, 1, h)
                } else {
                    string_of(t, 0, h)
                };
                let slash = match rfind_char(tc.as_slice(), '/') {
                    Some(s) => if s > h {
                        Some(s)
                    } else {
                        None
                    },
                    None => None,
                };
                match slash {
                    Some(s) => {
                        let num = id_or_zero(&tc, h + 1, s);
                        let owner = NamedID::new(t.substring_char(s + 1, tn));
                        assert(t@.subrange(s + 1, tn as int) =~= t@.skip(s + 1));
                        (NamedID { id: num, name }, ActorType::Companion(owner))
                    },
                    None => {
                        let num = id_or_zero(&tc, h + 1, tn);
                        assert(t@.subrange(h + 1, tn as int) =~= t@.skip(h + 1));
                        (NamedID { id: num, name }, ActorType::Player)
                    },
                }
            },
            None => (NamedID::new(t), ActorType::NPC),
        };
        Some(Actor { id, typ, health, max_health, pos: crate::text::string_of_str(pos) })
    }

    /// Current health equals maximum health.
    pub fn is_full_health(&self) -> (r: bool)
        ensures
            r == (self.health == self.max_health),
    {
        self.health == self.max_health
    }

    pub fn is_npc(&self) -> (r: bool)
        ensures
            r == (self.typ is NPC),
    {
        match self.typ {
            ActorType::NPC => true,
            _ => false,
        }
    }

    /// The key this actor ranks under: its own id, except that a companion's
    /// name becomes `"<name> (<owner name>)"` so it ranks apart.
    pub fn get_id(&self) -> (r: NamedID)
        ensures
            r.id == self.id.id,
            r.name@ == actor_key_name(self),
    {
        match &self.typ {
            ActorType::Companion(owner) => {
                let n = crate::text::string_of_str(self.id.name.as_str());
                let n = n.concat(" (");
                let n = n.concat(owner.name.as_str());
                let n = n.concat(")");
                NamedID { id: self.id.id, name: n }
            },
            _ => self.id.copy(),
        }
    }

    /// The position field as the log wrote it.
    pub fn position_text(&self) -> (r: &str)
        ensures
            r@ == self.pos@,
    {
        self.pos.as_str()
    }
}

/// The name an actor ranks under.
pub open spec fn actor_key_name(a: &Actor) -> Seq<char> {
    match a.typ {
        ActorType::Companion(o) => a.id.name@ + " ("@ + o.name@ + ")"@,
        _ => a.id.name@,
    }
}

fn int_or_zero(cs: &Vec<char>, a: usize, b: usize) -> (r: i32)
    requires
        a <= b <= cs@.len(),
    ensures
        r == i32_or_zero(cs@.subrange(a as int, b as int)),
{
    match parse_i32(vstd::slice::slice_subrange(cs.as_slice(), a, b)) {
        Some(v) => v,
        None => 0,
    }
}

fn id_or_zero(cs: &Vec<char>, a: usize, b: usize) -> (r: u64)
    requires
        a <= b <= cs@.len(),
    ensures
        r == u64_or_zero(cs@.subrange(a as int, b as int)),
{
    match parse_u64(vstd::slice::slice_subrange(cs.as_slice(), a, b)) {
        Some(v) => v,
        None => 0,
    }
}

} // verus!
