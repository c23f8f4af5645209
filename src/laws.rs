//! Laws of literal extraction, proved over the model that `Substring::from`
//! meets.

use vstd::prelude::*;
use crate::text::{
    between, is_first_from, lemma_first_from_is, lemma_first_from_none, occurs_at,
};

verus! {

/// Where the first `s` in `t` starts at `i`, and the first `e` at or after
/// the end of that `s` starts at `j`, later than `i`, extraction yields
/// exactly the text strictly between the two.
pub proof fn lemma_between_first_pair(t: Seq<char>, s: Seq<char>, e: Seq<char>, i: int, j: int)
    requires
        is_first_from(t, s, 0, i),
        is_first_from(t, e, i + s.len(), j),
        i < j,
    ensures
        between(t, s, e) == Some(t.subrange(i + s.len(), j)),
{
    lemma_first_from_is(t, s, 0, i);
    lemma_first_from_is(t, e, i + s.len(), j);
}

/// Extraction yields nothing where `s` does not occur in `t`, or where `e`
/// does not occur at or after the end of the first `s`.
pub proof fn lemma_between_missing(t: Seq<char>, s: Seq<char>, e: Seq<char>)
    requires
        (forall|k: int| !occurs_at(t, s, k)) || (exists|i: int|
            is_first_from(t, s, 0, i) && forall|k: int| i + s.len() <= k ==> !occurs_at(t, e, k)),
    ensures
        between(t, s, e) is None,
{
    if forall|k: int| !occurs_at(t, s, k) {
        lemma_first_from_none(t, s, 0);
    } else {
        let i = choose|i: int|
            is_first_from(t, s, 0, i) && forall|k: int| i + s.len() <= k ==> !occurs_at(t, e, k);
        lemma_first_from_is(t, s, 0, i);
        lemma_first_from_none(t, e, i + s.len());
    }
}

/// With one non-empty delimiter `d` at both ends, extraction yields the text
/// strictly between its first occurrence and the next one that does not
/// overlap it, which starts after the first ends.
pub proof fn lemma_between_same_delimiter(t: Seq<char>, d: Seq<char>, i: int, j: int)
    requires
        d.len() > 0,
        is_first_from(t, d, 0, i),
        is_first_from(t, d, i + d.len(), j),
    ensures
        i + d.len() <= j,
        between(t, d, d) == Some(t.subrange(i + d.len(), j)),
{
    lemma_between_first_pair(t, d, d, i, j);
}

} // verus!
