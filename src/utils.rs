//! Slicing of delimited fragments (`"Name {123}"`) and a small binary frame.

use vstd::prelude::*;
use crate::text::{
    chars_of, find_char, find_spec, parse_u64, rfind_char, rfind_spec, u64_or_zero,
};

verus! {

/// The characters strictly between positions `a` and `b`; empty where either
/// is missing or `b` does not come after `a`.
pub open spec fn between_spec(s: Seq<char>, a: Option<int>, b: Option<int>) -> Seq<char> {
    match (a, b) {
        (Some(x), Some(y)) => if x + 1 <= y {
            s.subrange(x + 1, y)
        } else {
            Seq::empty()
        },
        _ => Seq::empty(),
    }
}

/// What lies between the first `l` and the first `r` of `s`.
pub open spec fn lpart_spec(s: Seq<char>, l: char, r: char) -> Seq<char> {
    between_spec(s, find_spec(s, l), find_spec(s, r))
}

/// What lies between the last `l` and the last `r` of `s`.
pub open spec fn rpart_spec(s: Seq<char>, l: char, r: char) -> Seq<char> {
    between_spec(s, rfind_spec(s, l), rfind_spec(s, r))
}

/// `s` up to its first `r`, or all of `s` where it holds none.
pub open spec fn until_spec(s: Seq<char>, r: char) -> Seq<char> {
    match find_spec(s, r) {
        Some(i) => s.take(i),
        None => s,
    }
}

/// The number between the delimiters, zero where there is none.
pub open spec fn extract_num_spec(s: Seq<char>, l: char, r: char, right: bool) -> u64 {
    if right {
        u64_or_zero(rpart_spec(s, l, r))
    } else {
        u64_or_zero(lpart_spec(s, l, r))
    }
}

/// Characters between two positions of `s`, following `between_spec`.
fn slice_between(s: &str, a: Option<usize>, b: Option<usize>) -> (r: &str)
    requires
        a matches Some(x) ==> x < s@.len(),
        b matches Some(y) ==> y < s@.len(),
    ensures
        r@ == between_spec(
            s@,
            match a {
                Some(x) => Some(x as int),
                None => None,
            },
            match b {
                Some(y) => Some(y as int),
                None => None,
            },
        ),
{
    match (a, b) {
        (Some(x), Some(y)) => {
            if x < y {
                s.substring_char(x + 1, y)
            } else {
                s.substring_char(0, 0)
            }
        },
        _ => s.substring_char(0, 0),
    }
}

/// The fragment between the last `l` and the last `r` of `p`.
pub fn extract_rpart(p: &str, l: char, r: char) -> (res: &str)
    ensures
        res@ == rpart_spec(p@, l, r),
{
    let cs = chars_of(p);
    let a = rfind_char(cs.as_slice(), l);
    let b = rfind_char(cs.as_slice(), r);
    slice_between(p, a, b)
}

/// The fragment between the first `l` and the first `r` of `p`.
pub fn extract_lpart(p: &str, l: char, r: char) -> (res: &str)
    ensures
        res@ == lpart_spec(p@, l, r),
{
    let cs = chars_of(p);
    let a = find_char(cs.as_slice(), l);
    let b = find_char(cs.as_slice(), r);
    slice_between(p, a, b)
}

/// The number between `l` and `r` (their last occurrences where `right`,
/// else their first), or zero where no number stands there.
pub fn extract_num(p: &str, l: char, r: char, right: bool) -> (res: u64)
    ensures
        res == extract_num_spec(p@, l, r, right),
{
    let part = if right {
        extract_rpart(p, l, r)
    } else {
        extract_lpart(p, l, r)
    };
    let cs = chars_of(part);
    match parse_u64(cs.as_slice()) {
        Some(v) => v,
        None => 0,
    }
}

/// `p` up to its first `r`, or all of `p` where it holds none.
pub fn extract_until(p: &str, r: char) -> (res: &str)
    ensures
        res@ == until_spec(p@, r),
{
    let cs = chars_of(p);
    match find_char(cs.as_slice(), r) {
        Some(i) => p.substring_char(0, i),
        None => p,
    }
}

/// The id between the last braces of `p`, such as `123` in `"Name {123}"`.
pub fn extract_id(p: &str) -> (res: u64)
    ensures
        res == extract_num_spec(p@, '{', '}', true),
{
    extract_num(p, '{', '}', true)
}

/// Sum of two sizes; the caller keeps it within `usize`.
pub fn add(left: usize, right: usize) -> (r: usize)
    requires
        left + right <= usize::MAX,
    ensures
        r == left + right,
{
    left + right
}

/// The two bytes of `x`, most significant first.
pub open spec fn be16(x: u16) -> Seq<u8> {
    seq![(x / 256) as u8, (x % 256) as u8]
}

/// The four bytes of `x`, most significant first.
pub open spec fn be32(x: u32) -> Seq<u8> {
    seq![
        (x / 0x100_0000) as u8,
        ((x / 0x1_0000) % 256) as u8,
        ((x / 256) % 256) as u8,
        (x % 256) as u8,
    ]
}

/// A framed packet: a fixed 20-byte header and an optional body.
pub struct Packet<'a> {
    id: [u8; 4],
    code: u16,
    req: u16,
    sample: u32,
    size: u32,
    size_uncompressed: u32,
    body: Option<&'a [u8]>,
}

impl<'a> Packet<'a> {
    /// Length of the header in bytes.
    pub const SIZE: usize = 20;

    pub fn new(
        id: [u8; 4],
        code: u16,
        req: u16,
        sample: u32,
        size: u32,
        size_uncompressed: u32,
        body: Option<&'a [u8]>,
    ) -> (r: Self)
        ensures
            r.header() == id@ + be16(code) + be16(req) + be32(sample) + be32(size) + be32(
                size_uncompressed,
            ),
            r.body_bytes() == match body {
                Some(b) => b@,
                None => Seq::<u8>::empty(),
            },
    {
        Packet { id, code, req, sample, size, size_uncompressed, body }
    }

    /// The header bytes: id, code, request, sample, size, uncompressed size.
    pub closed spec fn header(&self) -> Seq<u8> {
        self.id@ + be16(self.code) + be16(self.req) + be32(self.sample) + be32(self.size) + be32(
            self.size_uncompressed,
        )
    }

    pub closed spec fn body_bytes(&self) -> Seq<u8> {
        match self.body {
            Some(b) => b@,
            None => Seq::empty(),
        }
    }

    /// The header, big-endian, followed by the body.
    pub fn to_bytes(&self) -> (r: Vec<u8>)
        ensures
            r@ == self.header() + self.body_bytes(),
    {
        let mut buf: Vec<u8> = Vec::new();
        buf.push(self.id[0]);
        buf.push(self.id[1]);
        buf.push(self.id[2]);
        buf.push(self.id[3]);
        push_u16(&mut buf, self.code);
        push_u16(&mut buf, self.req);
        push_u32(&mut buf, self.sample);
        push_u32(&mut buf, self.size);
        push_u32(&mut buf, self.size_uncompressed);
        assert(buf@ =~= self.header());
        match self.body {
            Some(b) => {
                let ghost before = buf@;
                let mut i: usize = 0;
                while i < b.len()
                    invariant
                        i <= b@.len(),
                        buf@ == before + b@.take(i as int),
                    decreases b.len() - i,
                {
                    buf.push(b[i]);
                    i = i + 1;
                    assert(buf@ =~= before + b@.take(i as int));
                }
                assert(b@.take(i as int) =~= b@);
            },
            None => {
                assert(buf@ =~= self.header() + self.body_bytes());
            },
        }
        buf
    }
}

fn push_u16(buf: &mut Vec<u8>, x: u16)
    ensures
        final(buf)@ == old(buf)@ + be16(x),
{
    buf.push((x / 256) as u8);
    buf.push((x % 256) as u8);
    assert(buf@ =~= old(buf)@ + be16(x));
}

fn push_u32(buf: &mut Vec<u8>, x: u32)
    ensures
        final(buf)@ == old(buf)@ + be32(x),
{
    buf.push((x / 0x100_0000) as u8);
    buf.push(((x / 0x1_0000) % 256) as u8);
    buf.push(((x / 256) % 256) as u8);
    buf.push((x % 256) as u8);
    assert(buf@ =~= old(buf)@ + be32(x));
}

} // verus!
