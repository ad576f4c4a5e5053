//! The first element of a sequence that has a property.
use vstd::prelude::*;

verus! {

/// The index of the first element of `s` for which `p` holds.
pub open spec fn first_match<A>(s: Seq<A>, p: spec_fn(A) -> bool) -> Option<int>
    decreases s.len(),
{
    if s.len() == 0 {
        None
    } else {
        match first_match(s.drop_last(), p) {
            Some(i) => Some(i),
            None => if p(s.last()) {
                Some(s.len() - 1)
            } else {
                None
            },
        }
    }
}

/// The first match is within the sequence, has the property, and no element
/// before it has; without a match no element has the property.
pub proof fn lemma_first_match<A>(s: Seq<A>, p: spec_fn(A) -> bool)
    ensures
        match first_match(s, p) {
            Some(j) => 0 <= j < s.len() && p(s[j]) && forall|k: int| 0 <= k < j ==> !p(#[trigger] s[k]),
            None => forall|k: int| 0 <= k < s.len() ==> !p(#[trigger] s[k]),
        },
    decreases s.len(),
{
    if s.len() > 0 {
        let init = s.drop_last();
        lemma_first_match(init, p);
        match first_match(init, p) {
            Some(j) => {
                assert(init[j] == s[j]);
                assert forall|k: int| 0 <= k < j implies !p(#[trigger] s[k]) by {
                    assert(init[k] == s[k]);
                }
            },
            None => {
                assert forall|k: int| 0 <= k < init.len() implies !p(#[trigger] s[k]) by {
                    assert(init[k] == s[k]);
                }
                assert(s.last() == s[s.len() - 1]);
            },
        }
    }
}

/// When no element before `i` has the property and element `i` has it, the
/// first match is `i`.
pub proof fn lemma_first_match_at<A>(s: Seq<A>, p: spec_fn(A) -> bool, i: int)
    requires
        0 <= i < s.len(),
        forall|k: int| 0 <= k < i ==> !p(#[trigger] s[k]),
        p(s[i]),
    ensures
        first_match(s, p) == Some(i),
{
    lemma_first_match(s, p);
    match first_match(s, p) {
        Some(j) => {
            if j < i {
                assert(!p(s[j]));
            }
            if j > i {
                assert(!p(s[i]));
            }
        },
        None => {
            assert(!p(s[i]));
        },
    }
}

} // verus!
