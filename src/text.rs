//! Mathematical model of literal search over text, and the executable
//! search that meets it.

use vstd::prelude::*;
use vstd::string::StringSliceAdditionalSpecFns;
use vstd::utf8::{decode_utf8, encode_utf8, is_char_boundary, is_continuation_byte};

verus! {

broadcast use vstd::string::group_string_axioms, vstd::utf8::group_utf8_lib;

/// `d` occurs in `t` starting at character position `i`.
pub open spec fn occurs_at(t: Seq<char>, d: Seq<char>, i: int) -> bool {
    &&& 0 <= i
    &&& i + d.len() <= t.len()
    &&& t.subrange(i, i + d.len()) == d
}

/// `i` is the first position at or after `from` where `d` occurs in `t`.
pub open spec fn is_first_from(t: Seq<char>, d: Seq<char>, from: int, i: int) -> bool {
    &&& from <= i
    &&& occurs_at(t, d, i)
    &&& forall|k: int| from <= k < i ==> !occurs_at(t, d, k)
}

/// The first position at or after `from` where `d` occurs in `t`, if any.
pub open spec fn first_from(t: Seq<char>, d: Seq<char>, from: int) -> Option<int> {
    if exists|i: int| is_first_from(t, d, from, i) {
        Some(choose|i: int| is_first_from(t, d, from, i))
    } else {
        None
    }
}

/// At most one position is the first one.
pub proof fn lemma_first_unique(t: Seq<char>, d: Seq<char>, from: int, i: int, j: int)
    requires
        is_first_from(t, d, from, i),
        is_first_from(t, d, from, j),
    ensures
        i == j,
{
}

/// Where `i` is the first occurrence, `first_from` names it.
pub proof fn lemma_first_from_is(t: Seq<char>, d: Seq<char>, from: int, i: int)
    requires
        is_first_from(t, d, from, i),
    ensures
        first_from(t, d, from) == Some(i),
{
    let j = choose|j: int| is_first_from(t, d, from, j);
    lemma_first_unique(t, d, from, i, j);
}

/// Where `d` occurs nowhere at or after `from`, `first_from` is empty.
pub proof fn lemma_first_from_none(t: Seq<char>, d: Seq<char>, from: int)
    requires
        forall|k: int| from <= k ==> !occurs_at(t, d, k),
    ensures
        first_from(t, d, from) is None,
{
}

/// The text strictly between the end of the first occurrence of `s` in `t`
/// and the start of the first occurrence of `e` at or after that point; none
/// where either is missing, or where the occurrence of `e` does not start
/// after that of `s` (both delimiters empty, or `s` empty and `e` found at
/// the start).
pub open spec fn between(t: Seq<char>, s: Seq<char>, e: Seq<char>) -> Option<Seq<char>> {
    match first_from(t, s, 0) {
        None => None,
        Some(i) => match first_from(t, e, i + s.len()) {
            None => None,
            Some(j) => if i < j {
                Some(t.subrange(i + s.len(), j))
            } else {
                None
            },
        },
    }
}

/// A value with a textual rendering, usable as a literal delimiter.
pub trait Delimiter {
    /// The characters this value renders to.
    spec fn rendered(&self) -> Seq<char>;

    /// Renders the value to its characters.
    fn render(&self) -> (r: Vec<char>)
        ensures
            r@ == self.rendered(),
    ;
}

impl Delimiter for char {
    open spec fn rendered(&self) -> Seq<char> {
        seq![*self]
    }

    fn render(&self) -> (r: Vec<char>) {
        let r: Vec<char> = vec![*self];
        assert(r@ =~= seq![*self]);
        r
    }
}

impl<'a> Delimiter for &'a str {
    open spec fn rendered(&self) -> Seq<char> {
        (*self)@
    }

    fn render(&self) -> (r: Vec<char>) {
        chars_of(*self)
    }
}

impl Delimiter for String {
    open spec fn rendered(&self) -> Seq<char> {
        self@
    }

    fn render(&self) -> (r: Vec<char>) {
        chars_of(self.as_str())
    }
}

/// The characters of `s`, in order.
pub fn chars_of(s: &str) -> (r: Vec<char>)
    ensures
        r@ == s@,
{
    let mut r: Vec<char> = Vec::new();
    for c in it: s.chars()
        invariant
            r@ == it.seq().take(it.index() as int),
    {
        r.push(c);
    }
    r
}

/// Whether `d` occurs in `t` at position `i`.
fn matches_at(t: &Vec<char>, d: &Vec<char>, i: usize) -> (r: bool)
    requires
        i + d.len() <= t.len(),
    ensures
        r == occurs_at(t@, d@, i as int),
{
    let mut k: usize = 0;
    while k < d.len()
        invariant
            k <= d.len(),
            i + d.len() <= t.len(),
            forall|m: int| 0 <= m < k ==> t@[i + m] == d@[m],
        decreases d.len() - k,
    {
        if t[i + k] != d[k] {
            assert(t@.subrange(i as int, i + d.len())[k as int] != d@[k as int]);
            return false;
        }
        k = k + 1;
    }
    assert(t@.subrange(i as int, i + d.len()) =~= d@);
    true
}

/// The first position at or after `from` where `d` occurs in `t`.
pub fn find_from(t: &Vec<char>, d: &Vec<char>, from: usize) -> (r: Option<usize>)
    ensures
        r matches Some(i) ==> is_first_from(t@, d@, from as int, i as int),
        r is None ==> forall|k: int| from <= k ==> !occurs_at(t@, d@, k),
        first_from(t@, d@, from as int) == (match r {
            Some(i) => Some(i as int),
            None => None,
        }),
{
    if d.len() > t.len() || from > t.len() - d.len() {
        proof {
            lemma_first_from_none(t@, d@, from as int);
        }
        return None;
    }
    let last = t.len() - d.len();
    let mut i: usize = from;
    loop
        invariant
            from <= i <= last,
            last + d.len() == t.len(),
            forall|k: int| from <= k < i ==> !occurs_at(t@, d@, k),
        decreases last - i,
    {
        if matches_at(t, d, i) {
            proof {
                lemma_first_from_is(t@, d@, from as int, i as int);
            }
            return Some(i);
        }
        if i == last {
            proof {
                lemma_first_from_none(t@, d@, from as int);
            }
            return None;
        }
        i = i + 1;
    }
}

/// The characters whose UTF-8 encoding fills bytes `a..b` of the encoding of
/// `t`.
pub open spec fn byte_range_text(t: Seq<char>, a: int, b: int) -> Seq<char> {
    decode_utf8(encode_utf8(t).subrange(a, b))
}

/// Both ends of `a..b` fall on character boundaries of the UTF-8 encoding of
/// `t`, in order and within it.
pub open spec fn is_char_range(t: Seq<char>, a: int, b: int) -> bool {
    &&& 0 <= a <= b <= encode_utf8(t).len()
    &&& is_char_boundary(encode_utf8(t), a)
    &&& is_char_boundary(encode_utf8(t), b)
}

/// The text at bytes `a..b` of `t`, where that range is non-empty, lies
/// within `t`, and is cut at character boundaries; none otherwise.
pub open spec fn range_text(t: Seq<char>, a: int, b: int) -> Option<Seq<char>> {
    if a < b && is_char_range(t, a, b) {
        Some(byte_range_text(t, a, b))
    } else {
        None
    }
}

/// The part of `s` that fills bytes `a..b`.
pub fn byte_slice(s: &str, a: usize, b: usize) -> (r: &str)
    requires
        is_char_range(s@, a as int, b as int),
    ensures
        r@ == byte_range_text(s@, a as int, b as int),
{
    let ghost bytes = s.spec_bytes();
    let (head, _) = s.split_at(b);
    let ghost hb = head.spec_bytes();
    proof {
        assert(hb =~= bytes.subrange(0, b as int));
        if a < b {
            assert(hb[a as int] == bytes[a as int]);
            assert(is_char_boundary(hb, a as int) <==> !is_continuation_byte(hb[a as int]));
            assert(is_char_boundary(bytes, a as int) <==> !is_continuation_byte(bytes[a as int]));
        } else {
            assert(is_char_boundary(hb, hb.len() as int));
        }
    }
    let (_, mid) = head.split_at(a);
    proof {
        assert(mid.spec_bytes() =~= bytes.subrange(a as int, b as int));
        assert(decode_utf8(encode_utf8(mid@)) == mid@);
    }
    mid
}

} // verus!
