//! Character-level helpers shared by the log decoders: searching, trimming,
//! slicing between delimiters and decimal parsing.

use vstd::prelude::*;

verus! {

broadcast use vstd::string::group_string_axioms;

/// Index of the first `c` in `s`.
pub open spec fn find_spec(s: Seq<char>, c: char) -> Option<int>
    decreases s.len(),
{
    if s.len() == 0 {
        None
    } else if s[0] == c {
        Some(0)
    } else {
        match find_spec(s.drop_first(), c) {
            Some(k) => Some(k + 1),
            None => None,
        }
    }
}

/// Index of the last `c` in `s`.
pub open spec fn rfind_spec(s: Seq<char>, c: char) -> Option<int>
    decreases s.len(),
{
    if s.len() == 0 {
        None
    } else if s.last() == c {
        Some(s.len() - 1)
    } else {
        rfind_spec(s.drop_last(), c)
    }
}

/// The characters that `char::is_whitespace` accepts (Unicode `White_Space`).
pub open spec fn is_space(c: char) -> bool {
    let u = c as u32;
    (9 <= u && u <= 13) || u == 32 || u == 0x85 || u == 0xA0 || u == 0x1680 || (0x2000 <= u
        && u <= 0x200A) || u == 0x2028 || u == 0x2029 || u == 0x202F || u == 0x205F || u
        == 0x3000
}

pub open spec fn trim_start_spec(s: Seq<char>) -> Seq<char>
    decreases s.len(),
{
    if s.len() > 0 && is_space(s[0]) {
        trim_start_spec(s.drop_first())
    } else {
        s
    }
}

pub open spec fn trim_end_spec(s: Seq<char>) -> Seq<char>
    decreases s.len(),
{
    if s.len() > 0 && is_space(s.last()) {
        trim_end_spec(s.drop_last())
    } else {
        s
    }
}

/// `s` without leading and trailing white space.
pub open spec fn trim_spec(s: Seq<char>) -> Seq<char> {
    trim_end_spec(trim_start_spec(s))
}

pub open spec fn is_digit(c: char) -> bool {
    '0' <= c && c <= '9'
}

pub open spec fn all_digits(s: Seq<char>) -> bool {
    forall|i: int| 0 <= i < s.len() ==> is_digit(#[trigger] s[i])
}

/// The number written by the decimal digits `s`.
pub open spec fn digits_value(s: Seq<char>) -> nat
    decreases s.len(),
{
    if s.len() == 0 {
        0
    } else {
        digits_value(s.drop_last()) * 10 + ((s.last() as u32) - ('0' as u32)) as nat
    }
}

/// The digits of an unsigned number: one leading `+` is allowed before them.
pub open spec fn unsigned_digits(s: Seq<char>) -> Seq<char> {
    if s.len() > 1 && s[0] == '+' {
        s.drop_first()
    } else {
        s
    }
}

/// What `str::parse::<u64>` gives for `s`.
pub open spec fn parse_u64_spec(s: Seq<char>) -> Option<u64> {
    let d = unsigned_digits(s);
    if d.len() > 0 && all_digits(d) && digits_value(d) <= u64::MAX {
        Some(digits_value(d) as u64)
    } else {
        None
    }
}

/// The digits of a signed number, and whether a `-` came before them.
pub open spec fn signed_digits(s: Seq<char>) -> (Seq<char>, bool) {
    if s.len() > 1 && s[0] == '-' {
        (s.drop_first(), true)
    } else if s.len() > 1 && s[0] == '+' {
        (s.drop_first(), false)
    } else {
        (s, false)
    }
}

/// The value written by a signed decimal.
pub open spec fn signed_value(s: Seq<char>) -> int {
    let (d, neg) = signed_digits(s);
    if neg {
        -digits_value(d)
    } else {
        digits_value(d) as int
    }
}

/// What `str::parse::<i32>` gives for `s`.
pub open spec fn parse_i32_spec(s: Seq<char>) -> Option<i32> {
    let (d, neg) = signed_digits(s);
    if d.len() > 0 && all_digits(d) && i32::MIN <= signed_value(s) <= i32::MAX {
        Some(signed_value(s) as i32)
    } else {
        None
    }
}

/// A number parsed from `s`, or zero where `s` does not hold one.
pub open spec fn u64_or_zero(s: Seq<char>) -> u64 {
    match parse_u64_spec(s) {
        Some(v) => v,
        None => 0,
    }
}

/// A number parsed from `s`, or zero where `s` does not hold one.
pub open spec fn i32_or_zero(s: Seq<char>) -> i32 {
    match parse_i32_spec(s) {
        Some(v) => v,
        None => 0,
    }
}

/// The characters of `s`, in order.
pub fn chars_of(s: &str) -> (r: Vec<char>)
    ensures
        r@ == s@,
{
    let mut out: Vec<char> = Vec::new();
    for c in it: s.chars()
        invariant
            out@ == it.seq().take(it.index() as int),
            it.seq() == s@,
    {
        out.push(c);
    }
    out
}

/// Whether `c` is white space, as `char::is_whitespace` decides.
pub fn is_space_char(c: char) -> (r: bool)
    ensures
        r == is_space(c),
{
    let u = c as u32;
    (9 <= u && u <= 13) || u == 32 || u == 0x85 || u == 0xA0 || u == 0x1680 || (0x2000 <= u
        && u <= 0x200A) || u == 0x2028 || u == 0x2029 || u == 0x202F || u == 0x205F || u
        == 0x3000
}

/// Position of the first `c` in `s`.
pub fn find_char(s: &[char], c: char) -> (r: Option<usize>)
    ensures
        match r {
            Some(i) => i < s@.len() && find_spec(s@, c) == Some(i as int),
            None => find_spec(s@, c) is None,
        },
{
    let mut i: usize = 0;
    assert(s@.skip(0) =~= s@);
    while i < s.len()
        invariant
            i <= s@.len(),
            find_spec(s@, c) == match find_spec(s@.skip(i as int), c) {
                Some(k) => Some(k + i),
                None => None,
            },
        decreases s.len() - i,
    {
        assert(s@.skip(i as int).drop_first() =~= s@.skip(i + 1));
        if s[i] == c {
            return Some(i);
        }
        i = i + 1;
    }
    assert(s@.skip(i as int).len() == 0);
    None
}

/// Position of the last `c` in `s`.
pub fn rfind_char(s: &[char], c: char) -> (r: Option<usize>)
    ensures
        match r {
            Some(i) => i < s@.len() && rfind_spec(s@, c) == Some(i as int),
            None => rfind_spec(s@, c) is None,
        },
{
    let mut i: usize = s.len();
    assert(s@.take(i as int) =~= s@);
    while i > 0
        invariant
            i <= s@.len(),
            rfind_spec(s@, c) == rfind_spec(s@.take(i as int), c),
        decreases i,
    {
        assert(s@.take(i as int).drop_last() =~= s@.take(i - 1));
        if s[i - 1] == c {
            return Some(i - 1);
        }
        i = i - 1;
    }
    None
}

/// The characters of `s` from `from` up to `to`, as a string.
pub fn string_of(s: &str, from: usize, to: usize) -> (r: String)
    requires
        from <= to <= s@.len(),
    ensures
        r@ == s@.subrange(from as int, to as int),
{
    String::from_str(s.substring_char(from, to))
}

/// Relies on `String::push`: appends one character.
#[verifier::external_body]
fn push_char(s: &mut String, c: char)
    ensures
        final(s)@ == old(s)@.push(c),
{
    s.push(c)
}

/// A string of the characters `cs`.
pub fn string_from_chars(cs: &[char]) -> (r: String)
    ensures
        r@ == cs@,
{
    let mut out = String::new();
    let mut i: usize = 0;
    while i < cs.len()
        invariant
            i <= cs@.len(),
            out@ == cs@.take(i as int),
        decreases cs.len() - i,
    {
        push_char(&mut out, cs[i]);
        i = i + 1;
        assert(out@ =~= cs@.take(i as int));
    }
    assert(cs@.take(i as int) =~= cs@);
    out
}

/// `find_spec` meets the first occurrence of `c`, wherever it stands.
pub proof fn lemma_find_first(s: Seq<char>, c: char, k: int)
    requires
        0 <= k < s.len(),
        s[k] == c,
        forall|j: int| 0 <= j < k ==> s[j] != c,
    ensures
        find_spec(s, c) == Some(k),
    decreases k,
{
    if k > 0 {
        let t = s.drop_first();
        assert forall|j: int| 0 <= j < k - 1 implies t[j] != c by {
            assert(t[j] == s[j + 1]);
        }
        lemma_find_first(t, c, k - 1);
    }
}

/// `find_spec` finds nothing in a sequence without `c`.
pub proof fn lemma_find_none(s: Seq<char>, c: char)
    requires
        forall|j: int| 0 <= j < s.len() ==> s[j] != c,
    ensures
        find_spec(s, c) is None,
    decreases s.len(),
{
    if s.len() > 0 {
        let t = s.drop_first();
        assert forall|j: int| 0 <= j < t.len() implies t[j] != c by {
            assert(t[j] == s[j + 1]);
        }
        lemma_find_none(t, c);
    }
}

/// `s` cut to at most `n` characters, an ellipsis marking the cut.
pub open spec fn trim_to_n_spec(s: Seq<char>, n: nat) -> Seq<char> {
    if s.len() <= n {
        s
    } else {
        s.take(n - 3) + "..."@
    }
}

/// `s` cut to at most `n` characters: kept whole where it fits, else its
/// first `n - 3` characters followed by `...`.
pub fn trim_to_n(s: &str, n: usize) -> (r: String)
    requires
        n >= 3 || s@.len() <= n,
    ensures
        r@ == trim_to_n_spec(s@, n as nat),
{
    let len = s.unicode_len();
    if len <= n {
        String::from_str(s)
    } else {
        String::from_str(s.substring_char(0, n - 3)).concat("...")
    }
}

/// An owned copy of `s`.
pub fn string_of_str(s: &str) -> (r: String)
    ensures
        r@ == s@,
{
    String::from_str(s)
}

/// `s` without leading and trailing white space.
pub fn trim(s: &str) -> (r: &str)
    ensures
        r@ == trim_spec(s@),
{
    let cs = chars_of(s);
    let n = cs.len();
    let mut a: usize = 0;
    assert(s@.skip(0) =~= s@);
    while a < n && is_space_char(cs[a])
        invariant
            a <= n == s@.len(),
            cs@ == s@,
            trim_start_spec(s@) == trim_start_spec(s@.skip(a as int)),
        decreases n - a,
    {
        assert(s@.skip(a as int).drop_first() =~= s@.skip(a + 1));
        a = a + 1;
    }
    let ghost front = s@.skip(a as int);
    assert(trim_start_spec(front) == front);
    let mut b: usize = n;
    assert(front.take(b - a) =~= front);
    while b > a && is_space_char(cs[b - 1])
        invariant
            a <= b <= n == s@.len(),
            cs@ == s@,
            front == s@.skip(a as int),
            trim_end_spec(front) == trim_end_spec(front.take(b - a)),
        decreases b,
    {
        assert(front.take(b - a).drop_last() =~= front.take(b - 1 - a));
        b = b - 1;
    }
    assert(front.take(b - a) =~= s@.subrange(a as int, b as int));
    s.substring_char(a, b)
}

/// The value of the digits `d[from..to]`, or `None` where it exceeds `u64::MAX`.
fn digits_u64(d: &[char], from: usize, to: usize) -> (r: Option<u64>)
    requires
        from <= to <= d@.len(),
        all_digits(d@.subrange(from as int, to as int)),
    ensures
        match r {
            Some(v) => v as nat == digits_value(d@.subrange(from as int, to as int)),
            None => digits_value(d@.subrange(from as int, to as int)) > u64::MAX,
        },
{
    let mut acc: u64 = 0;
    let mut i: usize = from;
    assert(d@.subrange(from as int, from as int) =~= Seq::<char>::empty());
    while i < to
        invariant
            from <= i <= to <= d@.len(),
            all_digits(d@.subrange(from as int, to as int)),
            acc as nat == digits_value(d@.subrange(from as int, i as int)),
        decreases to - i,
    {
        let ghost pre = d@.subrange(from as int, i as int);
        let ghost next = d@.subrange(from as int, i + 1);
        assert(next.drop_last() =~= pre);
        assert(next.last() == d@[i as int]);
        assert(is_digit(d@.subrange(from as int, to as int)[i - from]));
        let dv = (d[i] as u32 - '0' as u32) as u64;
        if acc > (u64::MAX - dv) / 10 {
            assert(digits_value(next) > u64::MAX) by (nonlinear_arith)
                requires
                    digits_value(next) == acc * 10 + dv,
                    acc > (u64::MAX - dv) / 10,
                    dv <= 9,
            ;
            proof {
                lemma_digits_prefix_le(d@.subrange(from as int, to as int), i + 1 - from);
                assert(d@.subrange(from as int, to as int).take(i + 1 - from) =~= next);
            }
            return None;
        }
        acc = acc * 10 + dv;
        i = i + 1;
    }
    Some(acc)
}

/// A longer run of digits is worth at least as much as its prefix.
proof fn lemma_digits_prefix_le(s: Seq<char>, k: int)
    requires
        0 <= k <= s.len(),
        all_digits(s),
    ensures
        digits_value(s.take(k)) <= digits_value(s),
    decreases s.len() - k,
{
    if k < s.len() {
        let t = s.take(k + 1);
        assert(t.drop_last() =~= s.take(k));
        assert(is_digit(s[k]));
        lemma_digits_prefix_le(s, k + 1);
    } else {
        assert(s.take(k) =~= s);
    }
}

/// `str::parse::<u64>` on `s`.
pub fn parse_u64(s: &[char]) -> (r: Option<u64>)
    ensures
        r == parse_u64_spec(s@),
{
    let n = s.len();
    let from: usize = if n > 1 && s[0] == '+' {
        1
    } else {
        0
    };
    assert(unsigned_digits(s@) =~= s@.subrange(from as int, n as int));
    if from == n {
        return None;
    }
    let mut i = from;
    while i < n
        invariant
            from <= i <= n == s@.len(),
            forall|j: int| from <= j < i ==> is_digit(#[trigger] s@[j]),
            unsigned_digits(s@) == s@.subrange(from as int, n as int),
        decreases n - i,
    {
        if !('0' <= s[i] && s[i] <= '9') {
            assert(!is_digit(s@.subrange(from as int, n as int)[i - from]));
            assert(!all_digits(s@.subrange(from as int, n as int)));
            return None;
        }
        i = i + 1;
    }
    assert(all_digits(s@.subrange(from as int, n as int)));
    match digits_u64(s, from, n) {
        Some(v) => Some(v),
        None => None,
    }
}

/// `str::parse::<i32>` on `s`.
pub fn parse_i32(s: &[char]) -> (r: Option<i32>)
    ensures
        r == parse_i32_spec(s@),
{
    let n = s.len();
    let neg = n > 1 && s[0] == '-';
    let from: usize = if n > 1 && (s[0] == '-' || s[0] == '+') {
        1
    } else {
        0
    };
    assert(signed_digits(s@).0 =~= s@.subrange(from as int, n as int));
    assert(signed_digits(s@).1 == neg);
    if from == n {
        return None;
    }
    let mut i = from;
    while i < n
        invariant
            from <= i <= n == s@.len(),
            forall|j: int| from <= j < i ==> is_digit(#[trigger] s@[j]),
            signed_digits(s@).0 == s@.subrange(from as int, n as int),
        decreases n - i,
    {
        if !('0' <= s[i] && s[i] <= '9') {
            assert(!is_digit(s@.subrange(from as int, n as int)[i - from]));
            assert(!all_digits(s@.subrange(from as int, n as int)));
            return None;
        }
        i = i + 1;
    }
    assert(all_digits(s@.subrange(from as int, n as int)));
    match digits_u64(s, from, n) {
        Some(v) => {
            if neg {
                if v <= 2147483648 {
                    Some((0 - (v as i64)) as i32)
                } else {
                    None
                }
            } else {
                if v <= 2147483647 {
                    Some(v as i32)
                } else {
                    None
                }
            }
        },
        None => None,
    }
}

/// At most `n` pieces of `s` cut at `sep`; the last piece keeps the rest.
pub open spec fn splitn_spec(s: Seq<char>, sep: char, n: nat) -> Seq<Seq<char>>
    decreases n,
{
    if n <= 1 {
        seq![s]
    } else {
        match find_spec(s, sep) {
            Some(i) => seq![s.take(i)] + splitn_spec(s.skip(i + 1), sep, (n - 1) as nat),
            None => seq![s],
        }
    }
}

/// The pieces of `s` between the separators `sep`, as `str::split` gives them.
pub open spec fn split_spec(s: Seq<char>, sep: char) -> Seq<Seq<char>>
    decreases s.len(),
{
    match find_spec(s, sep) {
        Some(i) => if 0 <= i < s.len() {
            seq![s.take(i)] + split_spec(s.skip(i + 1), sep)
        } else {
            seq![s]
        },
        None => seq![s],
    }
}

/// The pieces of `s` that the ranges `r` mark.
pub open spec fn pieces(s: Seq<char>, r: Seq<(usize, usize)>) -> Seq<Seq<char>> {
    r.map_values(|p: (usize, usize)| s.subrange(p.0 as int, p.1 as int))
}

pub open spec fn ranges_within(r: Seq<(usize, usize)>, len: nat) -> bool {
    forall|k: int| 0 <= k < r.len() ==> #[trigger] r[k].0 <= r[k].1 <= len
}

/// Position of the first `c` in `s` at or after `from`.
pub fn find_char_from(s: &[char], c: char, from: usize) -> (r: Option<usize>)
    requires
        from <= s@.len(),
    ensures
        match r {
            Some(i) => from <= i < s@.len() && find_spec(s@.skip(from as int), c) == Some(
                i - from,
            ),
            None => find_spec(s@.skip(from as int), c) is None,
        },
{
    let mut i: usize = from;
    assert(s@.skip(from as int).skip(0) =~= s@.skip(from as int));
    while i < s.len()
        invariant
            from <= i <= s@.len(),
            find_spec(s@.skip(from as int), c) == match find_spec(s@.skip(i as int), c) {
                Some(k) => Some(k + i - from),
                None => None,
            },
        decreases s.len() - i,
    {
        assert(s@.skip(i as int).drop_first() =~= s@.skip(i + 1));
        if s[i] == c {
            return Some(i);
        }
        i = i + 1;
    }
    None
}

/// Ranges of at most `n` pieces of `s` cut at `sep`, as `str::splitn` cuts.
pub fn splitn_ranges(s: &[char], sep: char, n: usize) -> (r: Vec<(usize, usize)>)
    requires
        n >= 1,
    ensures
        pieces(s@, r@) == splitn_spec(s@, sep, n as nat),
        ranges_within(r@, s@.len()),
{
    let mut out: Vec<(usize, usize)> = Vec::new();
    let len = s.len();
    let mut start: usize = 0;
    let mut left: usize = n;
    assert(s@.skip(0) =~= s@);
    assert(pieces(s@, out@) =~= Seq::<Seq<char>>::empty());
    loop
        invariant
            start <= s@.len(),
            len == s@.len(),
            1 <= left <= n,
            pieces(s@, out@) + splitn_spec(s@.skip(start as int), sep, left as nat) == splitn_spec(
                s@,
                sep,
                n as nat,
            ),
            ranges_within(out@, s@.len()),
        decreases s@.len() - start, left,
    {
        let ghost rest = s@.skip(start as int);
        let ghost before = out@;
        if left == 1 {
            out.push((start, len));
            proof {
                assert forall|k: int| 0 <= k < out@.len() implies #[trigger] out@[k].0
                    <= out@[k].1 <= s@.len() by {
                    if k < before.len() {
                        assert(out@[k] == before[k]);
                    } else {
                        assert(out@[k] == (start, len));
                    }
                }
                assert(ranges_within(out@, s@.len()));
            }
            assert(s@.subrange(start as int, s@.len() as int) =~= rest);
            assert(pieces(s@, out@) =~= pieces(s@, before) + seq![rest]);
            assert(pieces(s@, out@) =~= pieces(s@, before) + splitn_spec(rest, sep, left as nat));
            return out;
        }
        match find_char_from(s, sep, start) {
            Some(i) => {
                out.push((start, i));
                proof {
                    assert forall|k: int| 0 <= k < out@.len() implies #[trigger] out@[k].0
                        <= out@[k].1 <= s@.len() by {
                        if k < before.len() {
                            assert(out@[k] == before[k]);
                        }
                    }
                    let k = (i - start) as int;
                    assert(rest.take(k) =~= s@.subrange(start as int, i as int));
                    assert(rest.skip(k + 1) =~= s@.skip(i + 1));
                    assert(pieces(s@, out@) =~= pieces(s@, before) + seq![rest.take(k)]);
                }
                start = i + 1;
                left = left - 1;
            },
            None => {
                out.push((start, len));
                proof {
                    assert forall|k: int| 0 <= k < out@.len() implies #[trigger] out@[k].0
                        <= out@[k].1 <= s@.len() by {
                        if k < before.len() {
                            assert(out@[k] == before[k]);
                        } else {
                            assert(out@[k] == (start, len));
                        }
                    }
                    assert(ranges_within(out@, s@.len()));
                }
                assert(s@.subrange(start as int, s@.len() as int) =~= rest);
                assert(pieces(s@, out@) =~= pieces(s@, before) + seq![rest]);
                return out;
            },
        }
    }
}

/// Ranges of the pieces of `s` cut at every `sep`, as `str::split` cuts.
pub fn split_ranges(s: &[char], sep: char) -> (r: Vec<(usize, usize)>)
    ensures
        pieces(s@, r@) == split_spec(s@, sep),
        ranges_within(r@, s@.len()),
{
    let mut out: Vec<(usize, usize)> = Vec::new();
    let len = s.len();
    let mut start: usize = 0;
    assert(s@.skip(0) =~= s@);
    assert(pieces(s@, out@) =~= Seq::<Seq<char>>::empty());
    loop
        invariant
            start <= s@.len(),
            len == s@.len(),
            pieces(s@, out@) + split_spec(s@.skip(start as int), sep) == split_spec(s@, sep),
            ranges_within(out@, s@.len()),
        decreases s@.len() - start,
    {
        let ghost rest = s@.skip(start as int);
        let ghost before = out@;
        match find_char_from(s, sep, start) {
            Some(i) => {
                out.push((start, i));
                proof {
                    assert forall|k: int| 0 <= k < out@.len() implies #[trigger] out@[k].0
                        <= out@[k].1 <= s@.len() by {
                        if k < before.len() {
                            assert(out@[k] == before[k]);
                        }
                    }
                    let k = (i - start) as int;
                    assert(rest.take(k) =~= s@.subrange(start as int, i as int));
                    assert(rest.skip(k + 1) =~= s@.skip(i + 1));
                    assert(pieces(s@, out@) =~= pieces(s@, before) + seq![rest.take(k)]);
                }
                start = i + 1;
            },
            None => {
                out.push((start, len));
                proof {
                    assert forall|k: int| 0 <= k < out@.len() implies #[trigger] out@[k].0
                        <= out@[k].1 <= s@.len() by {
                        if k < before.len() {
                            assert(out@[k] == before[k]);
                        } else {
                            assert(out@[k] == (start, len));
                        }
                    }
                    assert(ranges_within(out@, s@.len()));
                }
                assert(s@.subrange(start as int, s@.len() as int) =~= rest);
                assert(pieces(s@, out@) =~= pieces(s@, before) + seq![rest]);
                return out;
            },
        }
    }
}

/// Whether `c` is a parenthesis.
pub open spec fn is_paren(c: char) -> bool {
    c == '(' || c == ')'
}

pub open spec fn trim_parens_start(s: Seq<char>) -> Seq<char>
    decreases s.len(),
{
    if s.len() > 0 && is_paren(s[0]) {
        trim_parens_start(s.drop_first())
    } else {
        s
    }
}

pub open spec fn trim_parens_end(s: Seq<char>) -> Seq<char>
    decreases s.len(),
{
    if s.len() > 0 && is_paren(s.last()) {
        trim_parens_end(s.drop_last())
    } else {
        s
    }
}

/// `s` without the parentheses that enclose it at either end.
pub open spec fn trim_parens_spec(s: Seq<char>) -> Seq<char> {
    trim_parens_end(trim_parens_start(s))
}

/// `s` without the parentheses at either end.
pub fn trim_parens(s: &str) -> (r: &str)
    ensures
        r@ == trim_parens_spec(s@),
{
    let cs = chars_of(s);
    let n = cs.len();
    let mut a: usize = 0;
    assert(s@.skip(0) =~= s@);
    while a < n && (cs[a] == '(' || cs[a] == ')')
        invariant
            a <= n == s@.len(),
            cs@ == s@,
            trim_parens_start(s@) == trim_parens_start(s@.skip(a as int)),
        decreases n - a,
    {
        assert(s@.skip(a as int).drop_first() =~= s@.skip(a + 1));
        a = a + 1;
    }
    let ghost front = s@.skip(a as int);
    assert(trim_parens_start(front) == front);
    let mut b: usize = n;
    assert(front.take(b - a) =~= front);
    while b > a && (cs[b - 1] == '(' || cs[b - 1] == ')')
        invariant
            a <= b <= n == s@.len(),
            cs@ == s@,
            front == s@.skip(a as int),
            trim_parens_end(front) == trim_parens_end(front.take(b - a)),
        decreases b,
    {
        assert(front.take(b - a).drop_last() =~= front.take(b - 1 - a));
        b = b - 1;
    }
    assert(front.take(b - a) =~= s@.subrange(a as int, b as int));
    s.substring_char(a, b)
}

/// Whether `a` and `b` hold the same characters.
pub fn str_eq(a: &str, b: &str) -> (r: bool)
    ensures
        r == (a@ == b@),
{
    let x = chars_of(a);
    let y = chars_of(b);
    if x.len() != y.len() {
        return false;
    }
    let mut i: usize = 0;
    while i < x.len()
        invariant
            i <= x@.len() == y@.len(),
            x@ == a@,
            y@ == b@,
            forall|j: int| 0 <= j < i ==> x@[j] == y@[j],
        decreases x.len() - i,
    {
        if x[i] != y[i] {
            return false;
        }
        i = i + 1;
    }
    assert(x@ =~= y@);
    true
}

proof fn lemma_trim_start_shape(s: Seq<char>, c: char)
    ensures
        trim_start_spec(s).len() == 0 || !is_space(trim_start_spec(s)[0]),
        (forall|j: int| 0 <= j < s.len() ==> s[j] != c) ==> (forall|j: int|
            0 <= j < trim_start_spec(s).len() ==> trim_start_spec(s)[j] != c),
    decreases s.len(),
{
    if s.len() > 0 && is_space(s[0]) {
        let t = s.drop_first();
        lemma_trim_start_shape(t, c);
        if forall|j: int| 0 <= j < s.len() ==> s[j] != c {
            assert forall|j: int| 0 <= j < t.len() implies t[j] != c by {
                assert(t[j] == s[j + 1]);
            }
        }
    }
}

proof fn lemma_trim_end_shape(s: Seq<char>)
    ensures
        trim_end_spec(s).len() == 0 || !is_space(trim_end_spec(s).last()),
        trim_end_spec(s).len() <= s.len(),
        forall|j: int| 0 <= j < trim_end_spec(s).len() ==> trim_end_spec(s)[j] == s[j],
    decreases s.len(),
{
    if s.len() > 0 && is_space(s.last()) {
        let t = s.drop_last();
        lemma_trim_end_shape(t);
        assert forall|j: int| 0 <= j < trim_end_spec(s).len() implies trim_end_spec(s)[j]
            == s[j] by {
            assert(trim_end_spec(s) == trim_end_spec(t));
            assert(t[j] == s[j]);
        }
    }
}

/// A trimmed sequence neither starts nor ends with white space, and holds
/// no character that the input did not hold at all.
pub proof fn lemma_trim_shape(s: Seq<char>, c: char)
    ensures
        trim_spec(s).len() == 0 || (!is_space(trim_spec(s)[0]) && !is_space(
            trim_spec(s).last(),
        )),
        (forall|j: int| 0 <= j < s.len() ==> s[j] != c) ==> (forall|j: int|
            0 <= j < trim_spec(s).len() ==> trim_spec(s)[j] != c),
{
    lemma_trim_start_shape(s, c);
    let u = trim_start_spec(s);
    lemma_trim_end_shape(u);
    if forall|j: int| 0 <= j < s.len() ==> s[j] != c {
        assert forall|j: int| 0 <= j < trim_spec(s).len() implies trim_spec(s)[j] != c by {
            assert(trim_spec(s)[j] == u[j]);
        }
    }
}

/// Trimming a trimmed sequence with one space appended gives it back.
pub proof fn lemma_trim_space_appended(s: Seq<char>)
    requires
        s.len() == 0 || (!is_space(s[0]) && !is_space(s.last())),
    ensures
        trim_spec(s.push(' ')) == s,
{
    let t = s.push(' ');
    if s.len() == 0 {
        assert(t.drop_first() =~= Seq::<char>::empty());
        assert(trim_start_spec(t) == trim_start_spec(t.drop_first()));
    } else {
        assert(t[0] == s[0]);
        assert(trim_start_spec(t) == t);
        assert(t.drop_last() =~= s);
        assert(trim_end_spec(t) == trim_end_spec(s));
    }
}

} // verus!
