//! Searching a sequence for the first element of a kind.

use vstd::prelude::*;

verus! {

/// The position of the first element that satisfies `p`, if there is one.
pub open spec fn first_where<A>(s: Seq<A>, p: spec_fn(A) -> bool) -> Option<int>
    decreases s.len(),
{
    if s.len() == 0 {
        None
    } else {
        match first_where(s.drop_last(), p) {
            Some(i) => Some(i),
            None => if p(s.last()) {
                Some(s.len() - 1)
            } else {
                None
            },
        }
    }
}

/// Where no element satisfies `p`, the search finds nothing.
pub proof fn lemma_first_where_none<A>(s: Seq<A>, p: spec_fn(A) -> bool)
    requires
        forall|i: int| 0 <= i < s.len() ==> !p(#[trigger] s[i]),
    ensures
        first_where(s, p) is None,
    decreases s.len(),
{
    if s.len() > 0 {
        let rest = s.drop_last();
        assert forall|i: int| 0 <= i < rest.len() implies !p(#[trigger] rest[i]) by {
            assert(rest[i] == s[i]);
        }
        lemma_first_where_none(rest, p);
        assert(s.last() == s[s.len() - 1]);
    }
}

/// An element that satisfies `p`, with none before it that does, is what the search finds.
pub proof fn lemma_first_where_at<A>(s: Seq<A>, p: spec_fn(A) -> bool, at: int)
    requires
        0 <= at < s.len(),
        p(s[at]),
        forall|i: int| 0 <= i < at ==> !p(#[trigger] s[i]),
    ensures
        first_where(s, p) == Some(at),
    decreases s.len(),
{
    let rest = s.drop_last();
    if at == s.len() - 1 {
        assert forall|i: int| 0 <= i < rest.len() implies !p(#[trigger] rest[i]) by {
            assert(rest[i] == s[i]);
        }
        lemma_first_where_none(rest, p);
    } else {
        assert(rest[at] == s[at]);
        assert forall|i: int| 0 <= i < at implies !p(#[trigger] rest[i]) by {
            assert(rest[i] == s[i]);
        }
        lemma_first_where_at(rest, p, at);
    }
}

/// What the search finds satisfies `p`, and nothing before it does; where it finds nothing, nothing
/// does.
pub proof fn lemma_first_where<A>(s: Seq<A>, p: spec_fn(A) -> bool)
    ensures
        match first_where(s, p) {
            Some(at) => {
                &&& 0 <= at < s.len()
                &&& p(s[at])
                &&& forall|i: int| 0 <= i < at ==> !p(#[trigger] s[i])
            },
            None => forall|i: int| 0 <= i < s.len() ==> !p(#[trigger] s[i]),
        },
    decreases s.len(),
{
    if s.len() > 0 {
        let rest = s.drop_last();
        lemma_first_where(rest, p);
        assert(forall|i: int| 0 <= i < rest.len() ==> #[trigger] s[i] == rest[i]);
        assert(s.last() == s[s.len() - 1]);
    }
}

} // verus!
