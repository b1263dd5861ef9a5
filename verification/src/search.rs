//! The first element of a sequence with a property: the search that the
//! server makes whenever it looks a name or an id up in a list.
use vstd::prelude::*;

verus! {

/// The position of the first element that satisfies `p`, if any.
pub open spec fn first_satisfying<T>(s: Seq<T>, p: spec_fn(T) -> bool) -> Option<int>
    decreases s.len(),
{
    if s.len() == 0 {
        None
    } else if p(s[0]) {
        Some(0)
    } else {
        match first_satisfying(s.drop_first(), p) {
            Some(i) => Some(i + 1),
            None => None,
        }
    }
}

/// What the first satisfying position is: it satisfies `p` and no earlier
/// element does; without one, no element does.
pub proof fn lemma_first_satisfying<T>(s: Seq<T>, p: spec_fn(T) -> bool)
    ensures
        match first_satisfying(s, p) {
            Some(i) => 0 <= i < s.len() && p(s[i]) && forall|j: int|
                #![trigger s[j]]
                0 <= j < i ==> !p(s[j]),
            None => forall|j: int| #![trigger s[j]] 0 <= j < s.len() ==> !p(s[j]),
        },
    decreases s.len(),
{
    if s.len() > 0 {
        let t = s.drop_first();
        lemma_first_satisfying(t, p);
        assert(forall|j: int| 0 <= j < t.len() ==> t[j] == s[j + 1]);
        if !p(s[0]) {
            match first_satisfying(t, p) {
                Some(i) => {
                    assert forall|j: int| 0 <= j < i + 1 implies !p(#[trigger] s[j]) by {
                        if j > 0 {
                            assert(t[j - 1] == s[j]);
                        }
                    }
                },
                None => {
                    assert forall|j: int| 0 <= j < s.len() implies !p(#[trigger] s[j]) by {
                        if j > 0 {
                            assert(t[j - 1] == s[j]);
                        }
                    }
                },
            }
        }
    }
}

/// A satisfying position with no satisfying one before it is the first.
pub proof fn lemma_first_satisfying_at<T>(s: Seq<T>, p: spec_fn(T) -> bool, i: int)
    requires
        0 <= i < s.len(),
        p(s[i]),
        forall|j: int| #![trigger s[j]] 0 <= j < i ==> !p(s[j]),
    ensures
        first_satisfying(s, p) == Some(i),
{
    lemma_first_satisfying(s, p);
    match first_satisfying(s, p) {
        Some(k) => {
            if k < i {
                assert(!p(s[k]));
            } else if k > i {
                assert(!p(s[i]));
            }
        },
        None => {
            assert(!p(s[i]));
        },
    }
}

} // verus!
