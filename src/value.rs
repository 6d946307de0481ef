//! The value tokenizer: the numeric payload of a line, such as
//! `(5289 kinetic {836045448940873} -shield {836045448945509} (74525 absorbed {836045448945511})) <5289>`.

use vstd::prelude::*;
use vstd::slice::slice_subrange;
use crate::consts::{REFLECTED_STR, SHIELD_STR};
use crate::text::{
    chars_of, i32_or_zero, is_digit, parse_i32, parse_u64, rfind_char, rfind_spec, split_ranges,
    split_spec, str_eq, trim_parens, trim_parens_spec, u64_or_zero,
};

verus! {

/// The fields read from a value payload.
#[derive(Debug, Clone, Copy, PartialEq, Eq, Structural)]
pub struct Value {
    /// Sub-type id: damage element, avoidance reason or resource marker.
    pub value_id: u64,
    /// The primary amount.
    pub total: i32,
    /// The amount a shield or barrier absorbed.
    pub absorbed: i32,
    /// The `~` amount: the effective part of a heal.
    pub tilde: i32,
    /// The `<...>` threat delta.
    pub threat: i32,
    /// The primary amount carried a `*`.
    pub critical: bool,
    /// The shield marker token was present.
    pub shielded: bool,
    /// The reflect marker token was present.
    pub reflected: bool,
}

pub open spec fn empty_value() -> Value {
    Value {
        value_id: 0,
        total: 0,
        absorbed: 0,
        tilde: 0,
        threat: 0,
        critical: false,
        shielded: false,
        reflected: false,
    }
}

/// The id inside a `{...}` token, up to its last `}`; zero where none is there.
pub open spec fn brace_id(t: Seq<char>) -> u64 {
    match rfind_spec(t, '}') {
        Some(j) => if 1 <= j {
            u64_or_zero(t.subrange(1, j))
        } else {
            0
        },
        None => 0,
    }
}

/// The inside of a `<...>` token.
pub open spec fn angle_inner(t: Seq<char>) -> Seq<char> {
    if t.len() >= 2 {
        t.subrange(1, t.len() - 1)
    } else {
        Seq::empty()
    }
}

pub open spec fn starts_with(t: Seq<char>, c: char) -> bool {
    t.len() > 0 && t[0] == c
}

/// One token read into the state: whether the primary amount has been
/// seen, and the fields so far. The first rule that matches applies.
pub open spec fn token_step(st: (bool, Value), t: Seq<char>) -> (bool, Value) {
    let got = st.0;
    let v = st.1;
    if !got && !starts_with(t, '<') {
        if t.len() > 0 && t.last() == '*' {
            (true, Value { total: i32_or_zero(t.drop_last()), critical: true, ..v })
        } else {
            (true, Value { total: i32_or_zero(t), ..v })
        }
    } else if starts_with(t, '~') {
        (got, Value { tilde: i32_or_zero(t.drop_first()), ..v })
    } else if starts_with(t, '{') && v.value_id == 0 {
        (got, Value { value_id: brace_id(t), ..v })
    } else if t == SHIELD_STR@ {
        (got, Value { shielded: true, ..v })
    } else if t == REFLECTED_STR@ {
        (got, Value { reflected: true, ..v })
    } else if got && v.absorbed == 0 && t.len() > 0 && is_digit(t[0]) {
        (got, Value { absorbed: i32_or_zero(t), ..v })
    } else if starts_with(t, '<') {
        (got, Value { threat: i32_or_zero(angle_inner(t)), ..v })
    } else {
        st
    }
}

/// The tokens of a payload: cut at each space, parentheses trimmed off.
pub open spec fn value_tokens(p: Seq<char>) -> Seq<Seq<char>> {
    split_spec(p, ' ').map_values(|t: Seq<char>| trim_parens_spec(t))
}

pub open spec fn token_fold(ts: Seq<Seq<char>>) -> (bool, Value) {
    ts.fold_left((false, empty_value()), |st: (bool, Value), t: Seq<char>| token_step(st, t))
}

/// The fields that `Value::new` reads from the payload `p`.
pub open spec fn value_of(p: Seq<char>) -> Value {
    token_fold(value_tokens(p)).1
}

fn int_or_zero(t: &[char]) -> (r: i32)
    ensures
        r == i32_or_zero(t@),
{
    match parse_i32(t) {
        Some(v) => v,
        None => 0,
    }
}

fn id_or_zero(t: &[char]) -> (r: u64)
    ensures
        r == u64_or_zero(t@),
{
    match parse_u64(t) {
        Some(v) => v,
        None => 0,
    }
}

/// Reads one token into the state, following `token_step`.
fn step(st: (bool, Value), tok: &str) -> (r: (bool, Value))
    ensures
        r == token_step(st, tok@),
{
    let (got, v) = st;
    let t = chars_of(tok);
    let n = t.len();
    if !got && !(n > 0 && t[0] == '<') {
        if n > 0 && t[n - 1] == '*' {
            let body = slice_subrange(t.as_slice(), 0, n - 1);
            assert(body@ =~= t@.drop_last());
            (true, Value { total: int_or_zero(body), critical: true, ..v })
        } else {
            (true, Value { total: int_or_zero(t.as_slice()), ..v })
        }
    } else if n > 0 && t[0] == '~' {
        let body = slice_subrange(t.as_slice(), 1, n);
        assert(body@ =~= t@.drop_first());
        (got, Value { tilde: int_or_zero(body), ..v })
    } else if n > 0 && t[0] == '{' && v.value_id == 0 {
        let id = match rfind_char(t.as_slice(), '}') {
            Some(j) => if 1 <= j {
                id_or_zero(slice_subrange(t.as_slice(), 1, j))
            } else {
                0
            },
            None => 0,
        };
        (got, Value { value_id: id, ..v })
    } else if str_eq(tok, SHIELD_STR) {
        (got, Value { shielded: true, ..v })
    } else if str_eq(tok, REFLECTED_STR) {
        (got, Value { reflected: true, ..v })
    } else if got && v.absorbed == 0 && n > 0 && '0' <= t[0] && t[0] <= '9' {
        (got, Value { absorbed: int_or_zero(t.as_slice()), ..v })
    } else if n > 0 && t[0] == '<' {
        let inner = if n >= 2 {
            slice_subrange(t.as_slice(), 1, n - 1)
        } else {
            slice_subrange(t.as_slice(), 0, 0)
        };
        assert(inner@ =~= angle_inner(t@));
        (got, Value { threat: int_or_zero(inner), ..v })
    } else {
        st
    }
}

impl Value {
    /// Reads a value payload: tokens cut at spaces, parentheses trimmed off
    /// each, read left to right; every number that does not parse reads as 0.
    pub fn new(p: &str) -> (r: Value)
        ensures
            r == value_of(p@),
    {
        let cs = chars_of(p);
        let ranges = split_ranges(cs.as_slice(), ' ');
        let ghost toks = value_tokens(p@);
        let mut st: (bool, Value) = (false, empty_value_exec());
        let mut k: usize = 0;
        while k < ranges.len()
            invariant
                k <= ranges@.len(),
                cs@ == p@,
                crate::text::pieces(p@, ranges@) == split_spec(p@, ' '),
                crate::text::ranges_within(ranges@, p@.len()),
                toks == value_tokens(p@),
                toks.len() == ranges@.len(),
                st == token_fold(toks.take(k as int)),
            decreases ranges.len() - k,
        {
            let (a, b) = ranges[k];
            assert(ranges@[k as int].0 <= ranges@[k as int].1 <= p@.len());
            let tok = trim_parens(p.substring_char(a, b));
            assert(toks[k as int] == tok@);
            assert(toks.take(k + 1).drop_last() =~= toks.take(k as int));
            st = step(st, tok);
            k = k + 1;
        }
        assert(toks.take(k as int) =~= toks);
        st.1
    }
}

fn empty_value_exec() -> (r: Value)
    ensures
        r == empty_value(),
{
    Value {
        value_id: 0,
        total: 0,
        absorbed: 0,
        tilde: 0,
        threat: 0,
        critical: false,
        shielded: false,
        reflected: false,
    }
}

} // verus!
