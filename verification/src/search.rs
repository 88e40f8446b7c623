//! The first member of a list with a property.

use vstd::prelude::*;

verus! {

/// The first index at or after `from` whose member has the property `p`.
pub open spec fn first_at<T>(s: Seq<T>, p: spec_fn(T) -> bool, from: int) -> Option<int>
    decreases s.len() - from,
{
    if from < 0 || from >= s.len() {
        None
    } else if p(s[from]) {
        Some(from)
    } else {
        first_at(s, p, from + 1)
    }
}

/// The first member with the property `p`.
pub open spec fn first<T>(s: Seq<T>, p: spec_fn(T) -> bool) -> Option<T> {
    match first_at(s, p, 0) {
        Some(i) => Some(s[i]),
        None => None,
    }
}

/// The number of members with the property `p`.
pub open spec fn tally<T>(s: Seq<T>, p: spec_fn(T) -> bool) -> nat
    decreases s.len(),
{
    if s.len() == 0 {
        0
    } else {
        tally(s.drop_last(), p) + (if p(s.last()) {
            1nat
        } else {
            0nat
        })
    }
}

/// A found index is the first one, and nothing is found only where no member has the property.
pub proof fn lemma_first_at<T>(s: Seq<T>, p: spec_fn(T) -> bool, from: int)
    requires
        0 <= from,
    ensures
        match first_at(s, p, from) {
            Some(i) => {
                &&& from <= i < s.len()
                &&& p(s[i])
                &&& forall|j: int| from <= j < i ==> !p(#[trigger] s[j])
            },
            None => forall|j: int| from <= j < s.len() ==> !p(#[trigger] s[j]),
        },
    decreases s.len() - from,
{
    if from < s.len() && !p(s[from]) {
        lemma_first_at(s, p, from + 1);
    }
}

} // verus!
