//! Regular-expression search, through the `regex` crate.

use vstd::prelude::*;
use vstd::utf8::encode_utf8;
use regex::Regex;
use crate::text::{byte_range_text, byte_slice, is_char_range};

verus! {

broadcast use vstd::string::group_string_axioms, vstd::utf8::group_utf8_lib;

#[verifier::external_type_specification]
#[verifier::external_body]
pub struct ExRegex(Regex);

/// Whether `p` compiles as a regular expression, under the default limits.
pub uninterp spec fn pattern_compiles(p: Seq<char>) -> bool;

/// Byte offsets of the leftmost-first match of pattern `p` in `t` that starts
/// at or after byte `start`, if there is one.
pub uninterp spec fn pattern_match_from(p: Seq<char>, t: Seq<char>, start: int) -> Option<(int, int)>;

/// A compiled pattern, together with the text it was compiled from.
pub struct Pattern {
    re: Regex,
    source: Ghost<Seq<char>>,
}

impl Pattern {
    /// The text the pattern was compiled from.
    pub closed spec fn source(&self) -> Seq<char> {
        self.source@
    }
}

/// Relies on `regex::Regex::new`: it fails exactly on patterns that do not
/// compile; the compiled value keeps its source.
#[verifier::external_body]
pub(crate) fn compile(p: &str) -> (r: Option<Pattern>)
    ensures
        r is Some <==> pattern_compiles(p@),
        r matches Some(c) ==> c.source() == p@,
{
    match Regex::new(p) {
        Ok(re) => Some(Pattern { re, source: Ghost(p@) }),
        Err(_) => None,
    }
}

/// Relies on `regex::Regex::find_at`: the first match that starts at or after
/// byte `start`, as the byte offsets of its start and end, which lie on
/// character boundaries. It panics where `start` exceeds the length.
#[verifier::external_body]
pub(crate) fn find_at(pat: &Pattern, t: &str, start: usize) -> (r: Option<(usize, usize)>)
    requires
        start <= encode_utf8(t@).len(),
    ensures
        pattern_match_from(pat.source(), t@, start as int) == (match r {
            Some((a, b)) => Some((a as int, b as int)),
            None => None,
        }),
        r matches Some((a, b)) ==> start <= a && is_char_range(t@, a as int, b as int),
{
    pat.re.find_at(t, start).map(|m| (m.start(), m.end()))
}

/// The text between a match of the start pattern at bytes
/// `start_begin..start_end` and a match of the end pattern that begins at
/// byte `end_begin`: present where the start match begins before the end
/// match and `start_end..end_begin` is a range of whole characters of `t`.
pub open spec fn gap_text(t: Seq<char>, start_begin: int, start_end: int, end_begin: int) -> Option<
    Seq<char>,
> {
    if start_begin < end_begin && is_char_range(t, start_end, end_begin) {
        Some(byte_range_text(t, start_end, end_begin))
    } else {
        None
    }
}

/// The text of `t` between the first match of pattern `sp` and the first
/// match of pattern `ep` that starts at or after the end of it; none where
/// either pattern does not compile or does not match there, or where the end
/// match does not begin after the start match begins.
pub open spec fn pattern_between(t: Seq<char>, sp: Seq<char>, ep: Seq<char>) -> Option<Seq<char>> {
    if pattern_compiles(sp) && pattern_compiles(ep) {
        match pattern_match_from(sp, t, 0) {
            Some((start_begin, start_end)) => match pattern_match_from(ep, t, start_end) {
                Some((end_begin, _)) => gap_text(t, start_begin, start_end, end_begin),
                None => None,
            },
            None => None,
        }
    } else {
        None
    }
}

/// The text of `strval` between a start match at bytes
/// `start_begin..start_end` and an end match that begins at `end_begin`.
#[must_use]
pub fn text_between_matches(strval: &str, start_begin: usize, start_end: usize, end_begin: usize) -> (r:
    Option<String>)
    ensures
        r.deep_view() == gap_text(strval@, start_begin as int, start_end as int, end_begin as int),
{
    // A boundary lies within the text, so this also bounds both offsets.
    if start_begin < end_begin && start_end <= end_begin && strval.is_char_boundary(start_end)
        && strval.is_char_boundary(end_begin) {
        Some(byte_slice(strval, start_end, end_begin).to_owned())
    } else {
        None
    }
}

} // verus!
