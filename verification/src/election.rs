//! Quorums and election safety.
//!
//! A lane's decisions — vote majorities and commit advancement — are taken
//! by strict majorities ("quorums") of its voting membership. Any two
//! quorums of one membership intersect, and because a voter records at most
//! one binding vote per term (see [`crate::voter::Voter::request_vote`]),
//! two different candidates can never both collect a vote quorum for the
//! same term.

use vstd::prelude::*;
use vstd::set_lib::lemma_len_subset;

verus! {

/// `q` is a strict majority of the finite membership `members`.
pub open spec fn is_quorum(members: Set<Seq<char>>, q: Set<Seq<char>>) -> bool {
    &&& members.finite()
    &&& q.finite()
    &&& q.subset_of(members)
    &&& 2 * q.len() > members.len()
}

/// Every member of `q` cast its binding vote in this term for `candidate`,
/// according to the term's vote record `votes` (each voter appears there at
/// most once, which is what the ballot discipline guarantees).
pub open spec fn quorum_voted_for(
    votes: Map<Seq<char>, Seq<char>>,
    q: Set<Seq<char>>,
    candidate: Seq<char>,
) -> bool {
    forall|v: Seq<char>|
        q.contains(v) ==> votes.contains_key(v) && #[trigger] votes[v] == candidate
}

/// Two disjoint subsets of a finite set together hold no more elements than
/// the whole.
proof fn lemma_disjoint_subsets_len(members: Set<Seq<char>>, a: Set<Seq<char>>, b: Set<Seq<char>>)
    requires
        members.finite(),
        a.subset_of(members),
        b.subset_of(members),
        a.intersect(b) =~= Set::<Seq<char>>::empty(),
    ensures
        a.len() + b.len() <= members.len(),
    decreases a.len(),
{
    lemma_len_subset(a, members);
    lemma_len_subset(b, members);
    if a.len() == 0 {
        assert(a =~= Set::<Seq<char>>::empty());
    } else {
        let x = a.choose();
        assert(a.contains(x));
        assert(!b.contains(x)) by {
            if b.contains(x) {
                assert(a.intersect(b).contains(x));
            }
        }
        assert(a.remove(x).subset_of(members.remove(x)));
        assert(b.subset_of(members.remove(x)));
        assert(a.remove(x).intersect(b) =~= Set::<Seq<char>>::empty());
        lemma_disjoint_subsets_len(members.remove(x), a.remove(x), b);
    }
}

/// Any two quorums of one membership share a member.
pub proof fn lemma_quorum_intersection(
    members: Set<Seq<char>>,
    q1: Set<Seq<char>>,
    q2: Set<Seq<char>>,
) -> (witness: Seq<char>)
    requires
        is_quorum(members, q1),
        is_quorum(members, q2),
    ensures
        q1.contains(witness),
        q2.contains(witness),
{
    if q1.intersect(q2) =~= Set::<Seq<char>>::empty() {
        lemma_disjoint_subsets_len(members, q1, q2);
        assert(false);
    }
    assert(exists|v: Seq<char>| q1.intersect(q2).contains(v)) by {
        assert(!(q1.intersect(q2) =~= Set::<Seq<char>>::empty()));
    }
    let v = choose|v: Seq<char>| q1.intersect(q2).contains(v);
    v
}

/// Election safety: within one term, two candidates that each collected a
/// binding-vote quorum of the same membership are the same candidate — a
/// lane has at most one leader per term. The vote record maps each voter to
/// the single candidate it voted for in this term, which is exactly what
/// the ballot discipline of [`crate::voter::Voter::request_vote`] persists.
pub proof fn lemma_election_safety(
    members: Set<Seq<char>>,
    votes: Map<Seq<char>, Seq<char>>,
    q1: Set<Seq<char>>,
    q2: Set<Seq<char>>,
    candidate1: Seq<char>,
    candidate2: Seq<char>,
)
    requires
        is_quorum(members, q1),
        is_quorum(members, q2),
        quorum_voted_for(votes, q1, candidate1),
        quorum_voted_for(votes, q2, candidate2),
    ensures
        candidate1 == candidate2,
{
    let witness = lemma_quorum_intersection(members, q1, q2);
    assert(votes[witness] == candidate1);
    assert(votes[witness] == candidate2);
}

} // verus!
