//! Extraction of the text that lies between two delimiters: literal
//! delimiters, regular-expression patterns, or a pair of byte offsets.

pub mod laws;
pub mod pattern;
pub mod text;

use vstd::prelude::*;
use vstd::string::StrSliceExecFns;
use vstd::utf8::encode_utf8;
use crate::pattern::{compile, find_at, pattern_between, text_between_matches};
use crate::text::{between, byte_slice, chars_of, find_from, occurs_at, range_text, Delimiter};

verus! {

broadcast use vstd::string::group_string_axioms, vstd::utf8::group_utf8_lib;

/// Namespace of the extractors. Each is a pure function of its arguments.
pub struct Substring;

impl Substring {
    /// The text of `strval` strictly between the first occurrence of the
    /// rendered `start` and the first occurrence of the rendered `end` at or
    /// after the end of it; `None` where either is missing, or where the end
    /// occurrence does not begin after the start occurrence begins.
    #[must_use]
    pub fn from<T: Delimiter>(strval: &str, start: T, end: T) -> (r: Option<String>)
        ensures
            r.deep_view() == between(strval@, start.rendered(), end.rendered()),
    {
        let conv_start = start.render();
        let conv_end = end.render();
        let text = chars_of(strval);
        let start_pos = match find_from(&text, &conv_start, 0) {
            Some(i) => i,
            None => return None,
        };
        assert(occurs_at(text@, conv_start@, start_pos as int));
        assert(start_pos + conv_start.len() <= text.len());
        let after_start = start_pos + conv_start.len();
        let end_pos = match find_from(&text, &conv_end, after_start) {
            Some(j) => j,
            None => return None,
        };
        if start_pos < end_pos {
            Some(strval.substring_char(after_start, end_pos).to_owned())
        } else {
            None
        }
    }

    /// The text of `strval` between the first match of the pattern `start`
    /// and the first match of the pattern `end` that starts at or after the
    /// end of it; `None` where a pattern does not compile or does not match
    /// there, or where the end match does not begin after the start match.
    #[must_use]
    pub fn from_regex(strval: &str, start: &str, end: &str) -> (r: Option<String>)
        ensures
            r.deep_view() == pattern_between(strval@, start@, end@),
    {
        let start_re = match compile(start) {
            Some(p) => p,
            None => return None,
        };
        let end_re = match compile(end) {
            Some(p) => p,
            None => return None,
        };
        let (start_begin, start_end) = match find_at(&start_re, strval, 0) {
            Some(m) => m,
            None => return None,
        };
        let (end_begin, _) = match find_at(&end_re, strval, start_end) {
            Some(m) => m,
            None => return None,
        };
        text_between_matches(strval, start_begin, start_end, end_begin)
    }

    /// The text of `strval` at bytes `start..end`; `None` unless
    /// `start < end <= strval.len()` and both fall on character boundaries.
    #[must_use]
    pub fn from_index(strval: &str, start: usize, end: usize) -> (r: Option<String>)
        ensures
            r.deep_view() == range_text(strval@, start as int, end as int),
            start >= end || end > encode_utf8(strval@).len() ==> r is None,
    {
        // A boundary lies within the text, so this also bounds `end`.
        if start < end && strval.is_char_boundary(start) && strval.is_char_boundary(end) {
            Some(byte_slice(strval, start, end).to_owned())
        } else {
            None
        }
    }
}

} // verus!
