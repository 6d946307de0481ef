//! `NamedID`: a numeric id with the display name written before it.

use vstd::prelude::*;
use vstd::slice::slice_subrange;
use crate::text::{
    all_digits, chars_of, digits_value, lemma_trim_shape, lemma_trim_space_appended, find_char, find_char_from, find_spec, lemma_find_first,
    parse_u64, string_of_str, trim, trim_spec, u64_or_zero,
};
use crate::utils::{extract_until, until_spec};

verus! {

/// A game entity (ability, effect, area, class, ...) named by id and label.
#[derive(Debug, Eq, Hash)]
pub struct NamedID {
    pub id: u64,
    pub name: String,
}

impl View for NamedID {
    type V = (u64, Seq<char>);

    open spec fn view(&self) -> (u64, Seq<char>) {
        (self.id, self.name@)
    }
}

/// What stands between the first `{` and the first `}` after it; empty
/// where either is missing.
pub open spec fn brace_body(p: Seq<char>) -> Seq<char> {
    match find_spec(p, '{') {
        Some(i) => match find_spec(p.skip(i + 1), '}') {
            Some(j) => p.skip(i + 1).take(j),
            None => Seq::empty(),
        },
        None => Seq::empty(),
    }
}

/// The id that `NamedID::new` reads from a fragment `"<name> {<id>}..."`.
pub open spec fn named_id_of(p: Seq<char>) -> u64 {
    u64_or_zero(brace_body(p))
}

/// The name that `NamedID::new` reads from a fragment: all before the first
/// `{`, trimmed.
pub open spec fn named_name_of(p: Seq<char>) -> Seq<char> {
    trim_spec(until_spec(p, '{'))
}

impl NamedID {
    /// Decodes `"<name> {<id>}<tail>"`; a missing or malformed id reads as 0.
    pub fn new(p: &str) -> (r: Self)
        ensures
            r.id == named_id_of(p@),
            r.name@ == named_name_of(p@),
    {
        let cs = chars_of(p);
        let id = match find_char(cs.as_slice(), '{') {
            Some(i) => match find_char_from(cs.as_slice(), '}', i + 1) {
                Some(j) => {
                    let body = slice_subrange(cs.as_slice(), i + 1, j);
                    assert(body@ =~= p@.skip(i + 1).take(j - (i + 1)));
                    match parse_u64(body) {
                        Some(v) => v,
                        None => 0,
                    }
                },
                None => 0,
            },
            None => 0,
        };
        let name = trim(extract_until(p, '{'));
        NamedID { id, name: string_of_str(name) }
    }

    /// The id 0 with an empty name: what stands for "nobody".
    pub fn zero() -> (r: Self)
        ensures
            r.id == 0,
            r.name@ == Seq::<char>::empty(),
    {
        NamedID { id: 0, name: String::new() }
    }

    /// Equal ids and equal names.
    pub open spec fn same(&self, o: &NamedID) -> bool {
        self.id == o.id && self.name@ == o.name@
    }

    /// A copy with the same id and name.
    pub fn copy(&self) -> (r: Self)
        ensures
            r.id == self.id,
            r.name@ == self.name@,
            r@ == self@,
    {
        NamedID { id: self.id, name: self.name.clone() }
    }
}

impl Clone for NamedID {
    fn clone(&self) -> (r: Self)
        ensures
            r.id == self.id,
            r.name@ == self.name@,
    {
        self.copy()
    }
}

impl Default for NamedID {
    fn default() -> (r: Self)
        ensures
            r.id == 0,
            r.name@ == Seq::<char>::empty(),
    {
        NamedID::zero()
    }
}

impl PartialEq for NamedID {
    fn eq(&self, o: &NamedID) -> (r: bool) {
        self.id == o.id && self.name == o.name
    }
}

impl vstd::std_specs::cmp::PartialEqSpecImpl for NamedID {
    open spec fn obeys_eq_spec() -> bool {
        true
    }

    open spec fn eq_spec(&self, o: &NamedID) -> bool {
        self.same(o)
    }
}

/// For a fragment `text {digits}tail`, where `text` holds no `{` and
/// `digits` is a decimal number that fits in `u64`, decoding gives back the
/// number as the id and the trimmed `text` as the name.
pub proof fn lemma_named_id_round_trip(text: Seq<char>, digits: Seq<char>, tail: Seq<char>)
    requires
        forall|i: int| 0 <= i < text.len() ==> text[i] != '{',
        digits.len() > 0,
        all_digits(digits),
        digits_value(digits) <= u64::MAX,
    ensures
        named_id_of(text + seq!['{'] + digits + seq!['}'] + tail) == digits_value(digits),
        named_name_of(text + seq!['{'] + digits + seq!['}'] + tail) == trim_spec(text),
{
    let p = text + seq!['{'] + digits + seq!['}'] + tail;
    let a = text.len() as int;
    assert(p[a] == '{');
    assert forall|j: int| 0 <= j < a implies p[j] != '{' by {
        assert(p[j] == text[j]);
    }
    lemma_find_first(p, '{', a);
    let rest = p.skip(a + 1);
    let b = digits.len() as int;
    assert(rest[b] == '}');
    assert forall|j: int| 0 <= j < b implies rest[j] != '}' by {
        assert(rest[j] == digits[j]);
        assert(crate::text::is_digit(digits[j]));
    }
    lemma_find_first(rest, '}', b);
    assert(rest.take(b) =~= digits);
    assert(p.take(a) =~= text);
    assert(crate::text::is_digit(digits[0]));
    assert(crate::text::unsigned_digits(digits) == digits);
}

/// Writing a decoded pair back as `"<name> {<id>}"`, with the id in any
/// decimal digits `d` that denote it, and decoding that gives the same pair.
pub proof fn lemma_named_id_reencode(
    text: Seq<char>,
    digits: Seq<char>,
    tail: Seq<char>,
    d: Seq<char>,
)
    requires
        forall|i: int| 0 <= i < text.len() ==> text[i] != '{',
        digits.len() > 0,
        all_digits(digits),
        digits_value(digits) <= u64::MAX,
        d.len() > 0,
        all_digits(d),
        digits_value(d) == digits_value(digits),
    ensures
        ({
            let p = text + seq!['{'] + digits + seq!['}'] + tail;
            let q = named_name_of(p) + seq![' ', '{'] + d + seq!['}'];
            named_id_of(q) == named_id_of(p) && named_name_of(q) == named_name_of(p)
        }),
{
    let p = text + seq!['{'] + digits + seq!['}'] + tail;
    lemma_named_id_round_trip(text, digits, tail);
    let name = trim_spec(text);
    lemma_trim_shape(text, '{');
    let front = name.push(' ');
    assert forall|i: int| 0 <= i < front.len() implies front[i] != '{' by {
        if i < name.len() {
            assert(front[i] == name[i]);
        }
    }
    lemma_named_id_round_trip(front, d, Seq::<char>::empty());
    let q = name + seq![' ', '{'] + d + seq!['}'];
    assert(q =~= front + seq!['{'] + d + seq!['}'] + Seq::<char>::empty());
    lemma_trim_space_appended(name);
}

} // verus!
