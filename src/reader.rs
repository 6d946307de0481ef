//! Tail-follow decoding: bytes as they arrive in a growing log file become
//! complete records; a partial last line waits for the rest of it.

use vstd::prelude::*;
use crate::text::{
    lemma_find_first, lemma_find_none, split_ranges, split_spec, string_from_chars, trim,
    trim_spec,
};

verus! {

/// The log's bytes read one for one as characters (Latin-1), never as
/// parts of multi-byte sequences.
pub open spec fn latin1(b: Seq<u8>) -> Seq<char> {
    b.map_values(|x: u8| x as char)
}

/// The newline-terminated records of `t`.
pub open spec fn complete_records(t: Seq<char>) -> Seq<Seq<char>> {
    split_spec(t, '\n').drop_last()
}

/// What follows the last newline of `t`.
pub open spec fn rest_of(t: Seq<char>) -> Seq<char> {
    split_spec(t, '\n').last()
}

/// The records trimmed, empty ones left out.
pub open spec fn kept(recs: Seq<Seq<char>>) -> Seq<Seq<char>>
    decreases recs.len(),
{
    if recs.len() == 0 {
        Seq::empty()
    } else if trim_spec(recs.last()).len() > 0 {
        kept(recs.drop_last()).push(trim_spec(recs.last()))
    } else {
        kept(recs.drop_last())
    }
}

/// Bytes received but not yet ended by a newline.
#[derive(Debug)]
pub struct TailBuffer {
    pending: Vec<char>,
}

impl View for TailBuffer {
    type V = Seq<char>;

    closed spec fn view(&self) -> Seq<char> {
        self.pending@
    }
}

fn latin1_char(b: u8) -> (c: char)
    ensures
        c == b as char,
{
    b as char
}

/// `s` holds no newline.
pub open spec fn no_newline(s: Seq<char>) -> bool {
    forall|j: int| 0 <= j < s.len() ==> s[j] != '\n'
}

proof fn lemma_no_find_no_char(s: Seq<char>, c: char)
    requires
        crate::text::find_spec(s, c) is None,
    ensures
        forall|j: int| 0 <= j < s.len() ==> s[j] != c,
    decreases s.len(),
{
    if s.len() > 0 {
        let t = s.drop_first();
        lemma_no_find_no_char(t, c);
        assert forall|j: int| 0 <= j < s.len() implies s[j] != c by {
            if j > 0 {
                assert(s[j] == t[j - 1]);
            }
        }
    }
}

/// What follows the last separator holds no separator.
proof fn lemma_split_last_clean(s: Seq<char>)
    ensures
        split_spec(s, '\n').len() >= 1,
        no_newline(split_spec(s, '\n').last()),
    decreases s.len(),
{
    lemma_split_nonempty(s, '\n');
    match crate::text::find_spec(s, '\n') {
        Some(i) => if 0 <= i < s.len() {
            lemma_split_last_clean(s.skip(i + 1));
        } else {
            assert(false) by {
                lemma_find_in_bounds(s, '\n');
            }
        },
        None => {
            lemma_no_find_no_char(s, '\n');
        },
    }
}

proof fn lemma_find_in_bounds(s: Seq<char>, c: char)
    ensures
        crate::text::find_spec(s, c) matches Some(i) ==> 0 <= i < s.len(),
    decreases s.len(),
{
    if s.len() > 0 && s[0] != c {
        lemma_find_in_bounds(s.drop_first(), c);
    }
}

impl TailBuffer {
    /// What waits in the buffer holds no newline.
    pub open spec fn wf(&self) -> bool {
        no_newline(self@)
    }

    pub fn new() -> (r: Self)
        ensures
            r@ == Seq::<char>::empty(),
            r.wf(),
    {
        TailBuffer { pending: Vec::new() }
    }

    /// Takes the next bytes of the file; hands back every record that a
    /// newline now completes, trimmed and without empty ones, and keeps
    /// what follows the last newline for the next call.
    pub fn feed(&mut self, chunk: &[u8]) -> (r: Vec<String>)
        ensures
            r@.map_values(|s: String| s@) == kept(complete_records(old(self)@ + latin1(chunk@))),
            final(self)@ == rest_of(old(self)@ + latin1(chunk@)),
            final(self).wf(),
    {
        let ghost t = self@ + latin1(chunk@);
        let mut all: Vec<char> = Vec::new();
        let mut i: usize = 0;
        while i < self.pending.len()
            invariant
                i <= self.pending@.len(),
                all@ == self.pending@.take(i as int),
            decreases self.pending.len() - i,
        {
            all.push(self.pending[i]);
            i = i + 1;
            assert(all@ =~= self.pending@.take(i as int));
        }
        assert(self.pending@.take(i as int) =~= self.pending@);
        let mut j: usize = 0;
        while j < chunk.len()
            invariant
                j <= chunk@.len(),
                all@ == self.pending@ + latin1(chunk@.take(j as int)),
            decreases chunk.len() - j,
        {
            all.push(latin1_char(chunk[j]));
            j = j + 1;
            assert(all@ =~= self.pending@ + latin1(chunk@.take(j as int)));
        }
        assert(chunk@.take(j as int) =~= chunk@);
        assert(all@ == t);
        let ranges = split_ranges(all.as_slice(), '\n');
        proof {
            lemma_split_nonempty(t, '\n');
        }
        let last = ranges.len() - 1;
        let ghost recs = complete_records(t);
        let mut out: Vec<String> = Vec::new();
        let mut k: usize = 0;
        while k < last
            invariant
                k <= last,
                last + 1 == ranges@.len(),
                all@ == t,
                recs == complete_records(t),
                crate::text::pieces(t, ranges@) == split_spec(t, '\n'),
                crate::text::ranges_within(ranges@, t.len()),
                out@.map_values(|s: String| s@) == kept(recs.take(k as int)),
            decreases last - k,
        {
            let (a, b) = ranges[k];
            assert(ranges@[k as int].0 <= ranges@[k as int].1 <= t.len());
            let piece = string_from_chars(vstd::slice::slice_subrange(all.as_slice(), a, b));
            let tr = trim(piece.as_str());
            let ghost before = out@;
            assert(recs.take(k + 1).drop_last() =~= recs.take(k as int));
            assert(recs.take(k + 1).last() == recs[k as int]);
            assert(recs[k as int] == piece@);
            if tr.unicode_len() > 0 {
                out.push(crate::text::string_of_str(tr));
                assert(out@.map_values(|s: String| s@) =~= before.map_values(|s: String| s@).push(
                    tr@,
                ));
            }
            k = k + 1;
        }
        assert(recs.take(k as int) =~= recs);
        let (a, b) = ranges[last];
        assert(ranges@[last as int].0 <= ranges@[last as int].1 <= t.len());
        self.pending = vstd::slice::slice_to_vec(vstd::slice::slice_subrange(all.as_slice(), a, b));
        proof {
            lemma_split_last_clean(t);
        }
        out
    }
}

proof fn lemma_split_nonempty(s: Seq<char>, sep: char)
    ensures
        split_spec(s, sep).len() >= 1,
    decreases s.len(),
{
    match crate::text::find_spec(s, sep) {
        Some(i) => if 0 <= i < s.len() {
            lemma_split_nonempty(s.skip(i + 1), sep);
        },
        None => {},
    }
}

/// A read that ends in the middle of a line emits nothing: the partial
/// bytes wait, whole, in the buffer.
pub proof fn lemma_partial_line_waits(pending: Seq<char>, chunk: Seq<u8>)
    requires
        no_newline(pending),
        forall|j: int| 0 <= j < chunk.len() ==> chunk[j] != 10u8,
    ensures
        kept(complete_records(pending + latin1(chunk))) == Seq::<Seq<char>>::empty(),
        rest_of(pending + latin1(chunk)) == pending + latin1(chunk),
{
    let t = pending + latin1(chunk);
    assert forall|j: int| 0 <= j < t.len() implies t[j] != '\n' by {
        if j >= pending.len() {
            assert(t[j] == chunk[j - pending.len()] as char);
        }
    }
    lemma_find_none(t, '\n');
    assert(complete_records(t) =~= Seq::<Seq<char>>::empty());
}

/// Where a later read holds a newline anywhere, the first record it
/// completes is the waiting bytes followed by everything the read brought
/// before that newline, as one record.
pub proof fn lemma_first_newline_completes(pending: Seq<char>, chunk: Seq<u8>, k: int)
    requires
        no_newline(pending),
        0 <= k < chunk.len(),
        chunk[k] == 10u8,
        forall|j: int| 0 <= j < k ==> chunk[j] != 10u8,
    ensures
        complete_records(pending + latin1(chunk)).len() >= 1,
        complete_records(pending + latin1(chunk))[0] == pending + latin1(chunk.take(k)),
{
    let t = pending + latin1(chunk);
    let p = pending.len() as int;
    assert(t[p + k] == '\n');
    assert forall|j: int| 0 <= j < p + k implies t[j] != '\n' by {
        if j >= p {
            assert(t[j] == chunk[j - p] as char);
        }
    }
    lemma_find_first(t, '\n', p + k);
    lemma_split_nonempty(t.skip(p + k + 1), '\n');
    assert(split_spec(t, '\n') == seq![t.take(p + k)] + split_spec(t.skip(p + k + 1), '\n'));
    assert(t.take(p + k) =~= pending + latin1(chunk.take(k)));
    assert(split_spec(t, '\n')[0] == t.take(p + k));
}

/// Once a later read brings the rest of the line and its newline, the whole
/// line comes out as one record and nothing is left waiting.
pub proof fn lemma_line_completes(pending: Seq<char>, rest: Seq<u8>)
    requires
        no_newline(pending),
        forall|j: int| 0 <= j < rest.len() ==> rest[j] != 10u8,
    ensures
        complete_records(pending + latin1(rest.push(10u8))) == seq![pending + latin1(rest)],
        rest_of(pending + latin1(rest.push(10u8))) == Seq::<char>::empty(),
{
    let line = pending + latin1(rest);
    let t = pending + latin1(rest.push(10u8));
    assert(t =~= line.push('\n'));
    assert forall|j: int| 0 <= j < line.len() implies t[j] != '\n' by {
        if j >= pending.len() {
            assert(t[j] == rest[j - pending.len()] as char);
        }
    }
    lemma_find_first(t, '\n', line.len() as int);
    assert(t.take(line.len() as int) =~= line);
    let tail = t.skip((line.len() + 1) as int);
    assert(tail =~= Seq::<char>::empty());
    lemma_find_none(tail, '\n');
    assert(split_spec(tail, '\n') == seq![tail]);
    assert(split_spec(t, '\n') == seq![t.take(line.len() as int)] + split_spec(tail, '\n'));
    assert(split_spec(t, '\n') =~= seq![line, Seq::<char>::empty()]);
}

} // verus!
