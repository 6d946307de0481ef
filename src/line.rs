//! The line assembler: one log record into a timestamped, decoded event.

use vstd::prelude::*;
use crate::action::{action_spec, target_full, Action};
use crate::actor::{actor_spec, names_actor, Actor};
use crate::namedid::{named_id_of, named_name_of, NamedID};
use crate::text::{chars_of, splitn_ranges, splitn_spec, trim, trim_spec};

verus! {

/// The marker the game writes in place of a hidden identity.
pub const REDACTED: &'static str = "[HIDDEN]";

/// How a line writes its time of day.
pub const TIME_FORMAT: &'static str = "%H:%M:%S.%3f";

/// Time of day, in milliseconds after midnight.
#[derive(Debug, Clone, Copy, PartialEq, Eq, Structural)]
pub struct Timestamp {
    pub ms: u32,
}

/// What chrono's `NaiveTime::parse_from_str(s, fmt)` reads from `s`: the
/// seconds after midnight and the nanoseconds within the second.
pub uninterp spec fn clock_of(s: Seq<char>, fmt: Seq<char>) -> Option<(u32, u32)>;

/// Relies on chrono's `NaiveTime::parse_from_str`, and on the
/// `num_seconds_from_midnight` (0 to 86 399) and `nanosecond` (below
/// 2 000 000 000, a leap second included) of the time it returns.
#[verifier::external_body]
fn parse_clock(s: &str, fmt: &str) -> (r: Option<(u32, u32)>)
    ensures
        r == clock_of(s@, fmt@),
        r matches Some(c) ==> c.0 < 86400 && c.1 < 2_000_000_000,
{
    chrono::NaiveTime::parse_from_str(s, fmt).ok().map(
        |t| (chrono::Timelike::num_seconds_from_midnight(&t), chrono::Timelike::nanosecond(&t)),
    )
}

/// Milliseconds after midnight of a clock reading.
pub open spec fn clock_ms(c: (u32, u32)) -> u32 {
    (c.0 * 1000 + c.1 / 1_000_000) as u32
}

impl Timestamp {
    /// The time of day of seconds `secs` after midnight and `nanos`
    /// nanoseconds into the second.
    pub fn from_clock(secs: u32, nanos: u32) -> (r: Timestamp)
        requires
            secs < 86400,
            nanos < 2_000_000_000,
        ensures
            r.ms == clock_ms((secs, nanos)),
    {
        Timestamp { ms: secs * 1000 + nanos / 1_000_000 }
    }
}

/// `s` without every occurrence of `pat`, read left to right.
pub open spec fn strip_spec(s: Seq<char>, pat: Seq<char>) -> Seq<char>
    decreases s.len(),
{
    if s.len() == 0 {
        s
    } else if pat.len() > 0 && s.len() >= pat.len() && s.take(pat.len() as int) == pat {
        strip_spec(s.skip(pat.len() as int), pat)
    } else {
        seq![s[0]] + strip_spec(s.drop_first(), pat)
    }
}

/// `s` without every occurrence of `pat`, as `str::replace(pat, "")` gives it.
pub fn strip(s: &str, pat: &str) -> (r: String)
    ensures
        r@ == strip_spec(s@, pat@),
{
    let cs = chars_of(s);
    let ps = chars_of(pat);
    let n = cs.len();
    let m = ps.len();
    let mut out = String::new();
    let mut seg: usize = 0;
    let mut i: usize = 0;
    assert(s@.skip(0) =~= s@);
    assert(s@.subrange(0, 0) =~= Seq::<char>::empty());
    while i < n
        invariant
            seg <= i <= n == s@.len(),
            cs@ == s@,
            ps@ == pat@,
            m == pat@.len(),
            out@ + s@.subrange(seg as int, i as int) + strip_spec(s@.skip(i as int), pat@)
                == strip_spec(s@, pat@),
        decreases n - i,
    {
        let ghost rest = s@.skip(i as int);
        let mut hit = m > 0 && n - i >= m;
        let mut k: usize = 0;
        while hit && k < m
            invariant
                k <= m == pat@.len(),
                i + m <= n || !hit,
                n == s@.len(),
                cs@ == s@,
                ps@ == pat@,
                hit ==> m > 0,
                hit ==> forall|j: int| 0 <= j < k ==> s@[i + j] == pat@[j],
                (m > 0 && n - i >= m && !hit) ==> exists|j: int|
                    0 <= j < k && s@[i + j] != pat@[j],
            decreases m - k,
        {
            if cs[i + k] != ps[k] {
                hit = false;
            }
            k = k + 1;
        }
        if hit {
            assert(rest.take(m as int) =~= pat@);
            out = out.concat(s.substring_char(seg, i));
            i = i + m;
            seg = i;
            assert(rest.skip(m as int) =~= s@.skip(i as int));
            assert(s@.subrange(seg as int, i as int) =~= Seq::<char>::empty());
        } else {
            proof {
                if m > 0 && rest.len() >= m {
                    let j = choose|j: int| 0 <= j < k && s@[i + j] != pat@[j];
                    assert(rest.take(m as int)[j] == s@[i + j]);
                    assert(rest.take(m as int) != pat@);
                }
                assert(rest.drop_first() =~= s@.skip(i + 1));
                assert(s@.subrange(seg as int, i as int) + seq![s@[i as int]] =~= s@.subrange(
                    seg as int,
                    i + 1,
                ));
            }
            i = i + 1;
        }
    }
    out = out.concat(s.substring_char(seg, n));
    assert(s@.skip(n as int) =~= Seq::<char>::empty());
    out
}

/// `s` without its leading `c`s.
pub open spec fn trim_start_char(s: Seq<char>, c: char) -> Seq<char>
    decreases s.len(),
{
    if s.len() > 0 && s[0] == c {
        trim_start_char(s.drop_first(), c)
    } else {
        s
    }
}

fn trim_start_bracket(s: &str) -> (r: &str)
    ensures
        r@ == trim_start_char(s@, '['),
{
    let cs = chars_of(s);
    let n = cs.len();
    let mut a: usize = 0;
    assert(s@.skip(0) =~= s@);
    while a < n && cs[a] == '['
        invariant
            a <= n == s@.len(),
            cs@ == s@,
            trim_start_char(s@, '[') == trim_start_char(s@.skip(a as int), '['),
        decreases n - a,
    {
        assert(s@.skip(a as int).drop_first() =~= s@.skip(a + 1));
        a = a + 1;
    }
    assert(s@.skip(a as int) =~= s@.subrange(a as int, n as int));
    s.substring_char(a, n)
}

/// The line with the redaction marker taken out.
pub open spec fn unredacted(l: Seq<char>) -> Seq<char> {
    strip_spec(l, REDACTED@)
}

/// The `k`-th of the six fields: cut at `]` at most six times, trimmed,
/// opening brackets dropped.
pub open spec fn field(l: Seq<char>, k: int) -> Seq<char> {
    trim_start_char(trim_spec(splitn_spec(unredacted(l), ']', 6)[k]), '[')
}

/// The line has all six fields.
pub open spec fn has_fields(l: Seq<char>) -> bool {
    splitn_spec(unredacted(l), ']', 6).len() == 6
}

/// One decoded log record.
#[derive(Debug)]
pub struct Line {
    pub ts: Timestamp,
    pub source: Option<Actor>,
    pub target: Option<Actor>,
    pub action: Action,
}

/// `a` is what `Actor::new` decodes from `p`.
pub open spec fn actor_from(a: Option<Actor>, p: Seq<char>) -> bool {
    &&& (a is None <==> !names_actor(p))
    &&& (a matches Some(x) ==> actor_spec(x, p))
}

/// `r` is the line `l` decoded, with the time of day `ts`.
pub open spec fn line_spec(r: Line, l: Seq<char>, ts: Timestamp) -> bool {
    &&& r.ts == ts
    &&& actor_from(r.source, field(l, 1))
    &&& actor_from(r.target, field(l, 2))
    &&& exists|ability: NamedID|
        ability.id == named_id_of(field(l, 3)) && ability.name@ == named_name_of(field(l, 3))
            && action_spec(r.action, field(l, 4), field(l, 5), ability, target_full(r.target))
}

/// The six fields of a line, or `None` where it has fewer.
fn fields(l: &str) -> (r: Option<Vec<String>>)
    ensures
        r is Some <==> has_fields(l@),
        r matches Some(v) ==> v@.len() == 6 && forall|k: int| 0 <= k < 6 ==> #[trigger] v@[k]@
            == field(l@, k),
{
    let clean = strip(l, REDACTED);
    let cs = chars_of(clean.as_str());
    let rs = splitn_ranges(cs.as_slice(), ']', 6);
    if rs.len() != 6 {
        return None;
    }
    let mut out: Vec<String> = Vec::new();
    let mut k: usize = 0;
    while k < 6
        invariant
            k <= 6,
            rs@.len() == 6,
            clean@ == unredacted(l@),
            crate::text::pieces(clean@, rs@) == splitn_spec(clean@, ']', 6),
            crate::text::ranges_within(rs@, clean@.len()),
            out@.len() == k,
            forall|j: int| 0 <= j < k ==> #[trigger] out@[j]@ == field(l@, j),
        decreases 6 - k,
    {
        let (a, b) = rs[k];
        assert(rs@[k as int].0 <= rs@[k as int].1 <= clean@.len());
        let f = trim_start_bracket(trim(clean.as_str().substring_char(a, b)));
        out.push(crate::text::string_of_str(f));
        k = k + 1;
    }
    Some(out)
}

impl Line {
    /// Decodes one log line; `None` where the line has fewer than six
    /// fields or its time of day does not parse.
    pub fn new(l: &str) -> (r: Option<Line>)
        ensures
            r is Some <==> has_fields(l@) && clock_of(field(l@, 0), TIME_FORMAT@) is Some,
            r matches Some(x) ==> line_spec(
                x,
                l@,
                Timestamp { ms: clock_ms(clock_of(field(l@, 0), TIME_FORMAT@)->0) },
            ),
    {
        match fields(l) {
            None => None,
            Some(f) => match parse_clock(f[0].as_str(), TIME_FORMAT) {
                None => None,
                Some((secs, nanos)) => Some(
                    Line::with_time(Timestamp::from_clock(secs, nanos), l, &f),
                ),
            },
        }
    }

    /// Decodes the fields of line `l` with the time of day `ts` already read.
    fn with_time(ts: Timestamp, l: &str, f: &Vec<String>) -> (r: Line)
        requires
            f@.len() == 6,
            forall|k: int| 0 <= k < 6 ==> #[trigger] f@[k]@ == field(l@, k),
        ensures
            line_spec(r, l@, ts),
    {
        let source = Actor::new(f[1].as_str());
        let target = Actor::new(f[2].as_str());
        let ability = NamedID::new(f[3].as_str());
        let ghost ab = ability;
        let action = Action::new(f[4].as_str(), f[5].as_str(), ability, &target);
        assert(f@[1]@ == field(l@, 1));
        assert(f@[2]@ == field(l@, 2));
        assert(f@[3]@ == field(l@, 3));
        assert(f@[4]@ == field(l@, 4));
        assert(f@[5]@ == field(l@, 5));
        let r = Line { ts, source, target, action };
        assert(ab.id == named_id_of(field(l@, 3)) && ab.name@ == named_name_of(field(l@, 3))
            && action_spec(r.action, field(l@, 4), field(l@, 5), ab, target_full(r.target)));
        r
    }

    /// Decodes the line `l` whose time of day was read as `clock` (seconds
    /// after midnight, nanoseconds); `None` where it has fewer than six fields.
    pub fn from_clock(clock: (u32, u32), l: &str) -> (r: Option<Line>)
        requires
            clock.0 < 86400,
            clock.1 < 2_000_000_000,
        ensures
            r is Some <==> has_fields(l@),
            r matches Some(x) ==> line_spec(x, l@, Timestamp { ms: clock_ms(clock) }),
    {
        match fields(l) {
            None => None,
            Some(f) => Some(Line::with_time(Timestamp::from_clock(clock.0, clock.1), l, &f)),
        }
    }
}

} // verus!
