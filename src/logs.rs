//! Which file of the log directory to follow.

use vstd::prelude::*;
use crate::text::chars_of;

verus! {

/// Which log to follow, counted from the newest by name: 1 is the newest,
/// 2 the one before it. The game may still be creating the newest file, so
/// the one before it is followed.
pub const LOG_FROM_END: usize = 2;

/// `a` comes before `b` in the order of `String`: character by character,
/// a prefix first.
pub open spec fn lex_lt(a: Seq<char>, b: Seq<char>) -> bool
    decreases a.len(),
{
    if b.len() == 0 {
        false
    } else if a.len() == 0 {
        true
    } else if a[0] != b[0] {
        (a[0] as u32) < (b[0] as u32)
    } else {
        lex_lt(a.drop_first(), b.drop_first())
    }
}

/// How many of `names` come after `x`.
pub open spec fn count_after(names: Seq<Seq<char>>, x: Seq<char>) -> nat
    decreases names.len(),
{
    if names.len() == 0 {
        0
    } else {
        count_after(names.drop_last(), x) + if lex_lt(x, names.last()) {
            1nat
        } else {
            0nat
        }
    }
}

/// Whether `a` comes before `b` in the order of `String`.
pub fn str_lt(a: &str, b: &str) -> (r: bool)
    ensures
        r == lex_lt(a@, b@),
{
    let x = chars_of(a);
    let y = chars_of(b);
    let mut i: usize = 0;
    assert(a@.skip(0) =~= a@ && b@.skip(0) =~= b@);
    loop
        invariant
            i <= x@.len(),
            i <= y@.len(),
            x@ == a@,
            y@ == b@,
            lex_lt(a@, b@) == lex_lt(a@.skip(i as int), b@.skip(i as int)),
        decreases x@.len() - i,
    {
        if i == y.len() {
            return false;
        }
        if i == x.len() {
            return true;
        }
        assert(a@.skip(i as int).drop_first() =~= a@.skip(i + 1));
        assert(b@.skip(i as int).drop_first() =~= b@.skip(i + 1));
        if x[i] != y[i] {
            return (x[i] as u32) < (y[i] as u32);
        }
        i = i + 1;
    }
}

/// The views of `v`.
pub open spec fn views(v: Seq<String>) -> Seq<Seq<char>> {
    v.map_values(|s: String| s@)
}

/// The position in `names` of the `LOG_FROM_END`-th name counted from the
/// last in name order: the first name that exactly `LOG_FROM_END - 1` names
/// come after. `None` where no name is in that place.
pub fn pick_log(names: &Vec<String>) -> (r: Option<usize>)
    ensures
        match r {
            Some(i) => i < names@.len() && count_after(views(names@), names@[i as int]@) == (
            LOG_FROM_END - 1) as nat && forall|j: int|
                0 <= j < i ==> count_after(views(names@), #[trigger] names@[j]@) != (LOG_FROM_END
                    - 1) as nat,
            None => forall|j: int|
                0 <= j < names@.len() ==> count_after(views(names@), #[trigger] names@[j]@) != (
                LOG_FROM_END - 1) as nat,
        },
{
    let n = names.len();
    let mut i: usize = 0;
    while i < n
        invariant
            i <= n == names@.len(),
            forall|j: int|
                0 <= j < i ==> count_after(views(names@), #[trigger] names@[j]@) != (LOG_FROM_END
                    - 1) as nat,
        decreases n - i,
    {
        let mut k: usize = 0;
        let mut c: usize = 0;
        while k < n
            invariant
                k <= n == names@.len(),
                i < n,
                c <= k,
                c == count_after(views(names@).take(k as int), names@[i as int]@),
            decreases n - k,
        {
            assert(views(names@).take(k + 1).drop_last() =~= views(names@).take(k as int));
            if str_lt(names[i].as_str(), names[k].as_str()) {
                c = c + 1;
            }
            k = k + 1;
        }
        assert(views(names@).take(k as int) =~= views(names@));
        if c == LOG_FROM_END - 1 {
            return Some(i);
        }
        i = i + 1;
    }
    None
}

} // verus!
