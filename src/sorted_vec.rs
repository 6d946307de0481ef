//! An always-ranked collection: find-or-insert, update in place, re-rank.
//! Rosters and sub-meters hold tens of entries, so every write keeps the
//! whole sequence in rank order and readers never sort.

use vstd::prelude::*;

verus! {

/// How a `SortedVec` ranks its elements: higher rank first.
pub trait Rank<T: View> {
    spec fn rank_spec(&self, t: T::V) -> int;

    fn rank(&self, t: &T) -> (r: i64)
        ensures
            r as int == self.rank_spec(t@),
    ;
}

/// One find-or-insert-then-update step: which element it is for, what to
/// insert when there is none, and how the element changes.
pub trait Upsert<T: View> {
    spec fn matches_spec(&self, t: T::V) -> bool;

    spec fn fresh_spec(&self) -> T::V;

    spec fn apply_spec(&self, t: T::V) -> T::V;

    fn matches(&self, t: &T) -> (r: bool)
        ensures
            r == self.matches_spec(t@),
    ;

    fn fresh(&self) -> (r: T)
        ensures
            r@ == self.fresh_spec(),
    ;

    fn apply(&self, t: &mut T)
        ensures
            final(t)@ == self.apply_spec(old(t)@),
    ;
}

/// Elements kept in descending rank order.
#[derive(Debug)]
pub struct SortedVec<T, R> {
    v: Vec<T>,
    cmp: R,
}

impl<T: View, R> View for SortedVec<T, R> {
    type V = Seq<T::V>;

    closed spec fn view(&self) -> Seq<T::V> {
        self.v@.map_values(|t: T| t@)
    }
}

/// Each element ranks at least as high as every later one.
pub open spec fn sorted_by<T: View, R: Rank<T>>(r: R, s: Seq<T::V>) -> bool {
    forall|i: int, j: int| 0 <= i < j < s.len() ==> r.rank_spec(#[trigger] s[i]) >= r.rank_spec(
        #[trigger] s[j],
    )
}

/// Index of the first element that `m` holds of.
pub open spec fn first_match<V>(m: spec_fn(V) -> bool, s: Seq<V>) -> Option<int>
    decreases s.len(),
{
    if s.len() == 0 {
        None
    } else if m(s[0]) {
        Some(0)
    } else {
        match first_match(m, s.drop_first()) {
            Some(k) => Some(k + 1),
            None => None,
        }
    }
}

/// Where `x` goes: after every element that ranks at least as high.
pub open spec fn slot<T: View, R: Rank<T>>(r: R, s: Seq<T::V>, x: T::V) -> int
    decreases s.len(),
{
    if s.len() == 0 {
        0
    } else if r.rank_spec(s[0]) < r.rank_spec(x) {
        0
    } else {
        1 + slot(r, s.drop_first(), x)
    }
}

/// The sequence after one step: the first element that `m` holds of (or
/// `fresh` where there is none) is changed by `f`, taken out, and put back
/// at its rank.
pub open spec fn upserted<T: View, R: Rank<T>>(
    r: R,
    m: spec_fn(T::V) -> bool,
    fresh: T::V,
    f: spec_fn(T::V) -> T::V,
    s: Seq<T::V>,
) -> Seq<T::V> {
    match first_match(m, s) {
        Some(i) => {
            let rest = s.remove(i);
            let x = f(s[i]);
            rest.insert(slot(r, rest, x), x)
        },
        None => {
            let x = f(fresh);
            s.insert(slot(r, s, x), x)
        },
    }
}

proof fn lemma_slot<T: View, R: Rank<T>>(r: R, s: Seq<T::V>, x: T::V)
    requires
        sorted_by(r, s),
    ensures
        0 <= slot(r, s, x) <= s.len(),
        forall|m: int| 0 <= m < slot(r, s, x) ==> r.rank_spec(#[trigger] s[m]) >= r.rank_spec(x),
        forall|m: int| slot(r, s, x) <= m < s.len() ==> r.rank_spec(#[trigger] s[m]) < r.rank_spec(
            x,
        ),
    decreases s.len(),
{
    if s.len() > 0 && r.rank_spec(s[0]) >= r.rank_spec(x) {
        let t = s.drop_first();
        assert forall|i: int, j: int| 0 <= i < j < t.len() implies r.rank_spec(#[trigger] t[i])
            >= r.rank_spec(#[trigger] t[j]) by {
            assert(t[i] == s[i + 1] && t[j] == s[j + 1]);
        }
        lemma_slot(r, t, x);
        assert forall|m: int| 0 <= m < slot(r, s, x) implies r.rank_spec(#[trigger] s[m])
            >= r.rank_spec(x) by {
            if m > 0 {
                assert(s[m] == t[m - 1]);
            }
        }
        assert forall|m: int| slot(r, s, x) <= m < s.len() implies r.rank_spec(#[trigger] s[m])
            < r.rank_spec(x) by {
            assert(s[m] == t[m - 1]);
        }
    } else if s.len() > 0 {
        assert forall|m: int| 0 <= m < s.len() implies r.rank_spec(#[trigger] s[m]) < r.rank_spec(
            x,
        ) by {
            if m > 0 {
                assert(r.rank_spec(s[0]) >= r.rank_spec(s[m]));
            }
        }
    }
}

/// Putting `x` at its slot keeps a sorted sequence sorted.
proof fn lemma_insert_sorted<T: View, R: Rank<T>>(r: R, s: Seq<T::V>, x: T::V)
    requires
        sorted_by(r, s),
    ensures
        sorted_by(r, s.insert(slot(r, s, x), x)),
{
    lemma_slot(r, s, x);
    let k = slot(r, s, x);
    let t = s.insert(k, x);
    assert forall|i: int, j: int| 0 <= i < j < t.len() implies r.rank_spec(#[trigger] t[i])
        >= r.rank_spec(#[trigger] t[j]) by {
        if i < k {
            assert(t[i] == s[i]);
            if j < k {
                assert(t[j] == s[j]);
            } else if j > k {
                assert(t[j] == s[j - 1]);
                assert(r.rank_spec(s[i]) >= r.rank_spec(x));
            }
        } else if i == k {
            assert(t[j] == s[j - 1]);
        } else {
            assert(t[i] == s[i - 1] && t[j] == s[j - 1]);
        }
    }
}

/// Taking an element out keeps a sorted sequence sorted.
proof fn lemma_remove_sorted<T: View, R: Rank<T>>(r: R, s: Seq<T::V>, i: int)
    requires
        sorted_by(r, s),
        0 <= i < s.len(),
    ensures
        sorted_by(r, s.remove(i)),
{
    let t = s.remove(i);
    assert forall|a: int, b: int| 0 <= a < b < t.len() implies r.rank_spec(#[trigger] t[a])
        >= r.rank_spec(#[trigger] t[b]) by {
        let a2 = if a < i {
            a
        } else {
            a + 1
        };
        let b2 = if b < i {
            b
        } else {
            b + 1
        };
        assert(t[a] == s[a2] && t[b] == s[b2]);
    }
}

proof fn lemma_first_match_in<V>(m: spec_fn(V) -> bool, s: Seq<V>)
    ensures
        first_match(m, s) matches Some(i) ==> 0 <= i < s.len(),
    decreases s.len(),
{
    if s.len() > 0 && !m(s[0]) {
        lemma_first_match_in(m, s.drop_first());
    }
}

proof fn lemma_slot_in<T: View, R: Rank<T>>(r: R, s: Seq<T::V>, x: T::V)
    ensures
        0 <= slot(r, s, x) <= s.len(),
    decreases s.len(),
{
    if s.len() > 0 {
        lemma_slot_in(r, s.drop_first(), x);
    }
}

/// Every element after one step is an element from before, the changed
/// element, or the changed fresh one.
pub proof fn lemma_upserted_from<T: View, R: Rank<T>>(
    r: R,
    m: spec_fn(T::V) -> bool,
    fresh: T::V,
    f: spec_fn(T::V) -> T::V,
    s: Seq<T::V>,
    k: int,
)
    requires
        0 <= k < upserted(r, m, fresh, f, s).len(),
    ensures
        ({
            let x = upserted(r, m, fresh, f, s)[k];
            (exists|j: int| 0 <= j < s.len() && x == s[j]) || x == f(fresh) || (exists|j: int|
                0 <= j < s.len() && x == f(s[j]))
        }),
{
    lemma_first_match_in(m, s);
    let x = upserted(r, m, fresh, f, s)[k];
    match first_match(m, s) {
        Some(i) => {
            let rest = s.remove(i);
            let y = f(s[i]);
            s.remove_ensures(i);
            lemma_slot_in(r, rest, y);
            let q = slot(r, rest, y);
            rest.insert_ensures(q, y);
            if k < q {
                assert(x == rest[k]);
                if k < i {
                    assert(x == s[k]);
                } else {
                    assert(x == s[k + 1]);
                }
            } else if k == q {
                assert(x == f(s[i]));
            } else {
                assert(x == rest[k - 1]);
                if k - 1 < i {
                    assert(x == s[k - 1]);
                } else {
                    assert(x == s[k]);
                }
            }
        },
        None => {
            let y = f(fresh);
            lemma_slot_in(r, s, y);
            let q = slot(r, s, y);
            s.insert_ensures(q, y);
            if k < q {
                assert(x == s[k]);
            } else if k > q {
                assert(x == s[k - 1]);
            }
        },
    }
}

impl<T: View, R: Rank<T>> SortedVec<T, R> {
    /// The ranking this collection keeps.
    pub closed spec fn ranker(&self) -> R {
        self.cmp
    }

    /// The elements are in rank order.
    pub open spec fn wf(&self) -> bool {
        sorted_by(self.ranker(), self@)
    }

    /// An empty collection ranked by `cmp`.
    pub fn new(cmp: R) -> (r: Self)
        ensures
            r@ == Seq::<T::V>::empty(),
            r.ranker() == cmp,
            r.wf(),
    {
        let r = SortedVec { v: Vec::new(), cmp };
        assert(r@ =~= Seq::<T::V>::empty());
        r
    }

    /// Finds the first element that `op` is for, or appends `op`'s fresh
    /// one; applies `op` to it; and re-ranks.
    pub fn update<U: Upsert<T>>(&mut self, op: &U)
        ensures
            old(self).wf() ==> final(self).wf(),
            final(self).ranker() == old(self).ranker(),
            final(self)@ == upserted(
                old(self).ranker(),
                |t: T::V| op.matches_spec(t),
                op.fresh_spec(),
                |t: T::V| op.apply_spec(t),
                old(self)@,
            ),
    {
        let ghost s = self@;
        let ghost r = self.cmp;
        let n = self.v.len();
        let mut i: usize = 0;
        let mut found = false;
        assert(s.skip(0) =~= s);
        while i < n && !found
            invariant
                i <= n == self.v@.len(),
                s == self@,
                self@ == self.v@.map_values(|t: T| t@),
                !found ==> first_match(|t: T::V| op.matches_spec(t), s) == match first_match(|t: T::V| op.matches_spec(t), s.skip(i as int)) {
                    Some(k) => Some(k + i),
                    None => None,
                },
                found ==> i < n && first_match(|t: T::V| op.matches_spec(t), s) == Some(i as int),
            decreases n - i + (if found {
                0int
            } else {
                1int
            }),
        {
            assert(s.skip(i as int).drop_first() =~= s.skip(i + 1));
            assert(s[i as int] == self.v@[i as int]@);
            if op.matches(&self.v[i]) {
                found = true;
            } else {
                i = i + 1;
            }
        }
        proof {
            if !found {
                assert(s.skip(i as int).len() == 0);
                assert(first_match(|t: T::V| op.matches_spec(t), s) is None);
            }
        }
        let mut x = if found {
            self.v.remove(i)
        } else {
            op.fresh()
        };
        proof {
            if found {
                assert(self.v@.map_values(|t: T| t@) =~= s.remove(i as int));
                if sorted_by(r, s) {
                    lemma_remove_sorted(r, s, i as int);
                }
            }
        }
        op.apply(&mut x);
        let ghost rest = self.v@.map_values(|t: T| t@);
        let rk = self.cmp.rank(&x);
        let m = self.v.len();
        let mut j: usize = 0;
        assert(rest.skip(0) =~= rest);
        while j < m && self.cmp.rank(&self.v[j]) >= rk
            invariant
                j <= m == self.v@.len(),
                rest == self.v@.map_values(|t: T| t@),
                self.cmp == r,
                rk == r.rank_spec(x@),
                slot(r, rest, x@) == j + slot(r, rest.skip(j as int), x@),
            decreases m - j,
        {
            assert(rest.skip(j as int).drop_first() =~= rest.skip(j + 1));
            assert(rest.skip(j as int)[0] == self.v@[j as int]@);
            j = j + 1;
        }
        proof {
            if j < m {
                assert(rest.skip(j as int)[0] == self.v@[j as int]@);
            }
            assert(slot(r, rest, x@) == j);
        }
        let ghost xv = x@;
        self.v.insert(j, x);
        proof {
            assert(self.v@.map_values(|t: T| t@) =~= rest.insert(j as int, xv));
            if sorted_by(r, rest) {
                lemma_insert_sorted(r, rest, xv);
            }
            if !found {
                assert(rest == s);
            }
        }
    }

    /// The elements, highest rank first.
    pub fn iter(&self) -> (r: &[T])
        ensures
            r@.map_values(|t: T| t@) == self@,
    {
        self.v.as_slice()
    }

    /// The element at rank position `i`.
    pub fn get(&self, i: usize) -> (r: &T)
        requires
            i < self@.len(),
        ensures
            r@ == self@[i as int],
    {
        &self.v[i]
    }

    pub fn is_empty(&self) -> (r: bool)
        ensures
            r == (self@.len() == 0),
    {
        self.v.len() == 0
    }

    pub fn len(&self) -> (r: usize)
        ensures
            r == self@.len(),
    {
        self.v.len()
    }
}

} // verus!
