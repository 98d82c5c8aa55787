//! Per-lane voting membership and single-server reconfiguration.
//!
//! A lane's voting set decides elections and commit majorities. Changes
//! happen one at a time — no two overlapping changes per lane — which is
//! what preserves the overlapping-majority property of single-server
//! reconfiguration. A server joins as a non-voting learner, receives the
//! log (by replication or snapshot), and is promoted into the voting set
//! once caught up; a removed server leaves quorum computation at once.

use vstd::prelude::*;
use vstd::seq_lib::seq_to_set_is_finite;

use crate::election::is_quorum;
use crate::election::lemma_election_safety;
use crate::election::quorum_voted_for;

verus! {

/// Whether `id` names one of the servers in `s`.
pub open spec fn has_id(s: Seq<String>, id: Seq<char>) -> bool
    decreases s.len(),
{
    s.len() > 0 && (s.last()@ == id || has_id(s.drop_last(), id))
}

/// No server appears twice.
pub open spec fn distinct_ids(s: Seq<String>) -> bool
    decreases s.len(),
{
    s.len() == 0 || (!has_id(s.drop_last(), s.last()@) && distinct_ids(s.drop_last()))
}

/// No server of `b` appears in `a`.
pub open spec fn no_shared_id(a: Seq<String>, b: Seq<String>) -> bool
    decreases b.len(),
{
    b.len() == 0 || (!has_id(a, b.last()@) && no_shared_id(a, b.drop_last()))
}

/// A shorter prefix of a duplicate-free roster is duplicate-free.
proof fn lemma_distinct_take(s: Seq<String>, k: int)
    requires
        0 <= k <= s.len(),
        distinct_ids(s),
    ensures
        distinct_ids(s.take(k)),
    decreases s.len() - k,
{
    if k == s.len() {
        assert(s.take(k) =~= s);
    } else {
        lemma_distinct_take(s, k + 1);
        assert(s.take(k + 1).drop_last() =~= s.take(k));
    }
}

/// Sharing no ids means: whatever is in `b` is not in `a`.
proof fn lemma_no_shared_id_elim(a: Seq<String>, b: Seq<String>, id: Seq<char>)
    requires
        no_shared_id(a, b),
        has_id(b, id),
    ensures
        !has_id(a, id),
    decreases b.len(),
{
    if b.last()@ != id {
        lemma_no_shared_id_elim(a, b.drop_last(), id);
    }
}

/// Build `no_shared_id` from a per-element guarantee.
proof fn lemma_no_shared_id_intro(a: Seq<String>, b: Seq<String>)
    requires
        forall|id: Seq<char>| #[trigger] has_id(b, id) ==> !has_id(a, id),
    ensures
        no_shared_id(a, b),
    decreases b.len(),
{
    if b.len() > 0 {
        assert(has_id(b, b.last()@));
        assert forall|id: Seq<char>| #[trigger] has_id(b.drop_last(), id) implies !has_id(
            a,
            id,
        ) by {
            assert(has_id(b, id));
        }
        lemma_no_shared_id_intro(a, b.drop_last());
    }
}

/// Why a membership change was refused.
#[derive(Clone, Copy, PartialEq, Eq, Structural, Debug)]
pub enum MembershipError {
    /// Another membership change for this lane is still in flight; only
    /// one change may be applied at a time.
    ChangeInProgress,
    /// The server is already a voter or learner of this lane.
    AlreadyMember,
    /// The server is not known to this lane.
    NotMember,
}

/// One lane's membership: the voting servers, the learners still catching
/// up, and whether a change is in flight.
pub struct Membership {
    voters: Vec<String>,
    learners: Vec<String>,
    pending: bool,
}

impl Membership {
    /// The voting servers, as character sequences.
    pub closed spec fn spec_voters(self) -> Seq<String> {
        self.voters@
    }

    /// The learners, as character sequences.
    pub closed spec fn spec_learners(self) -> Seq<String> {
        self.learners@
    }

    /// Whether a change is in flight.
    pub closed spec fn spec_pending(self) -> bool {
        self.pending
    }

    /// Rosters never repeat or share a server.
    pub open spec fn wf(self) -> bool {
        &&& distinct_ids(self.spec_voters())
        &&& distinct_ids(self.spec_learners())
        &&& no_shared_id(self.spec_voters(), self.spec_learners())
    }

    /// An empty lane membership.
    pub fn new() -> (r: Membership)
        ensures
            r.wf(),
            r.spec_voters().len() == 0,
            r.spec_learners().len() == 0,
            !r.spec_pending(),
    {
        Membership { voters: Vec::new(), learners: Vec::new(), pending: false }
    }

    /// How many servers vote in this lane.
    pub fn n_voters(&self) -> (r: usize)
        ensures
            r == self.spec_voters().len(),
    {
        self.voters.len()
    }

    /// Whether a change is in flight.
    pub fn change_in_progress(&self) -> (r: bool)
        ensures
            r == self.spec_pending(),
    {
        self.pending
    }

    /// Whether `count` servers are a strict majority of the voting set.
    pub fn majority_reached(&self, count: usize) -> (r: bool)
        ensures
            r == (2 * count > self.spec_voters().len()),
    {
        count > self.voters.len() / 2
    }

    /// The voting server at a roster position.
    pub fn voter_at(&self, i: usize) -> (r: &String)
        requires
            i < self.spec_voters().len(),
        ensures
            r == self.spec_voters()[i as int],
    {
        &self.voters[i]
    }

    /// Whether `id` votes in this lane.
    pub fn is_voter(&self, id: &String) -> (r: bool)
        ensures
            r == has_id(self.spec_voters(), id@),
    {
        roster_contains(&self.voters, id)
    }

    /// Whether `id` is still catching up in this lane.
    pub fn is_learner(&self, id: &String) -> (r: bool)
        ensures
            r == has_id(self.spec_learners(), id@),
    {
        roster_contains(&self.learners, id)
    }

    /// Begin adding a server: it joins as a learner, shipped the log until
    /// caught up, and the lane accepts no other change meanwhile. Refused
    /// when a change is already in flight or the server is already known.
    pub fn add_server(&mut self, id: String) -> (r: Result<(), MembershipError>)
        requires
            old(self).wf(),
        ensures
            final(self).wf(),
            r == Ok::<(), MembershipError>(()) <==> (!old(self).spec_pending() && !has_id(
                old(self).spec_voters(),
                id@,
            ) && !has_id(old(self).spec_learners(), id@)),
            r is Err ==> *final(self) == *old(self),
            r == Ok::<(), MembershipError>(()) ==> {
                &&& final(self).spec_learners() == old(self).spec_learners().push(id)
                &&& final(self).spec_voters() == old(self).spec_voters()
                &&& final(self).spec_pending()
            },
            old(self).spec_pending() ==> r == Err::<(), _>(MembershipError::ChangeInProgress),
            !old(self).spec_pending() && (has_id(old(self).spec_voters(), id@) || has_id(
                old(self).spec_learners(),
                id@,
            )) ==> r == Err::<(), _>(MembershipError::AlreadyMember),
    {
        if self.pending {
            return Err(MembershipError::ChangeInProgress);
        }
        if roster_contains(&self.voters, &id) || roster_contains(&self.learners, &id) {
            return Err(MembershipError::AlreadyMember);
        }
        let ghost old_learners = self.learners@;
        let ghost idv = id@;
        self.learners.push(id);
        self.pending = true;
        proof {
            assert(self.learners@.drop_last() =~= old_learners);
            assert(no_shared_id(self.voters@, self.learners@));
        }
        Ok(())
    }

    /// Promote a caught-up learner into the voting set, completing the
    /// change begun by [`Membership::add_server`].
    pub fn promote_server(&mut self, id: &String) -> (r: Result<(), MembershipError>)
        requires
            old(self).wf(),
        ensures
            final(self).wf(),
            r == Ok::<(), MembershipError>(()) <==> has_id(old(self).spec_learners(), id@),
            r is Err ==> *final(self) == *old(self) && r == Err::<(), _>(
                MembershipError::NotMember,
            ),
            r == Ok::<(), MembershipError>(()) ==> {
                &&& has_id(final(self).spec_voters(), id@)
                &&& !has_id(final(self).spec_learners(), id@)
                &&& final(self).spec_voters().len() == old(self).spec_voters().len() + 1
                &&& !final(self).spec_pending()
                &&& (forall|x: Seq<char>|
                    x != id@ ==> (has_id(final(self).spec_voters(), x) == has_id(
                        old(self).spec_voters(),
                        x,
                    ) && has_id(final(self).spec_learners(), x) == has_id(
                        old(self).spec_learners(),
                        x,
                    )))
            },
    {
        if !roster_contains(&self.learners, id) {
            return Err(MembershipError::NotMember);
        }
        let kept = roster_remove(&self.learners, id);
        proof {
            lemma_no_shared_id_elim(self.voters@, self.learners@, id@);
        }
        let ghost old_voters = self.voters@;
        let ghost old_learners = self.learners@;
        self.learners = kept;
        self.voters.push(id.clone());
        self.pending = false;
        proof {
            assert(self.voters@.drop_last() =~= old_voters);
            assert(self.voters@.last()@ == id@);
            assert(has_id(self.voters@, id@));
            assert forall|x: Seq<char>| #[trigger] has_id(self.learners@, x) implies !has_id(
                self.voters@,
                x,
            ) by {
                assert(x != id@ && has_id(old_learners, x));
                lemma_no_shared_id_elim(old_voters, old_learners, x);
            }
            lemma_no_shared_id_intro(self.voters@, self.learners@);
        }
        Ok(())
    }

    /// Remove a server from the lane. A voter leaves the voting set — and
    /// all future quorum computation — at once; removing a learner aborts
    /// the change that was adding it. Refused while an add is still in
    /// flight, unless it removes that very learner.
    pub fn remove_server(&mut self, id: &String) -> (r: Result<(), MembershipError>)
        requires
            old(self).wf(),
        ensures
            final(self).wf(),
            r is Err ==> *final(self) == *old(self),
            r == Ok::<(), MembershipError>(()) ==> !final(self).spec_pending(),
            r == Ok::<(), MembershipError>(()) <==> ((has_id(old(self).spec_voters(), id@)
                || has_id(old(self).spec_learners(), id@)) && (!old(self).spec_pending()
                || has_id(old(self).spec_learners(), id@))),
            !has_id(old(self).spec_voters(), id@) && !has_id(old(self).spec_learners(), id@)
                ==> r == Err::<(), _>(MembershipError::NotMember),
            has_id(old(self).spec_voters(), id@) && !has_id(old(self).spec_learners(), id@)
                && old(self).spec_pending() ==> r == Err::<(), _>(
                MembershipError::ChangeInProgress,
            ),
            r == Ok::<(), MembershipError>(()) ==> {
                &&& !has_id(final(self).spec_voters(), id@)
                &&& !has_id(final(self).spec_learners(), id@)
                &&& (forall|x: Seq<char>|
                    x != id@ ==> (has_id(final(self).spec_voters(), x) == has_id(
                        old(self).spec_voters(),
                        x,
                    ) && has_id(final(self).spec_learners(), x) == has_id(
                        old(self).spec_learners(),
                        x,
                    )))
            },
    {
        let in_voters = roster_contains(&self.voters, id);
        let in_learners = roster_contains(&self.learners, id);
        if !in_voters && !in_learners {
            return Err(MembershipError::NotMember);
        }
        if self.pending && !in_learners {
            return Err(MembershipError::ChangeInProgress);
        }
        let ghost old_voters = self.voters@;
        let ghost old_learners = self.learners@;
        if in_voters {
            let kept = roster_remove(&self.voters, id);
            self.voters = kept;
        }
        if in_learners {
            let kept = roster_remove(&self.learners, id);
            self.learners = kept;
        }
        self.pending = false;
        proof {
            assert forall|x: Seq<char>| #[trigger] has_id(self.learners@, x) implies !has_id(
                self.voters@,
                x,
            ) by {
                assert(x != id@ && has_id(old_learners, x));
                lemma_no_shared_id_elim(old_voters, old_learners, x);
            }
            lemma_no_shared_id_intro(self.voters@, self.learners@);
        }
        Ok(())
    }
}

/// Whether a roster holds `id`.
fn roster_contains(v: &Vec<String>, id: &String) -> (r: bool)
    ensures
        r == has_id(v@, id@),
{
    let n = v.len();
    proof {
        assert(v@.take(n as int) =~= v@);
    }
    let mut t: usize = n;
    while t > 0
        invariant
            0 <= t <= n,
            n == v@.len(),
            has_id(v@, id@) == has_id(v@.take(t as int), id@),
        decreases t,
    {
        proof {
            assert(v@.take(t as int).drop_last() =~= v@.take(t as int - 1));
            assert(v@.take(t as int).last() == v@[t as int - 1]);
        }
        if v[t - 1].eq(id) {
            return true;
        }
        t = t - 1;
    }
    false
}

/// A copy of the roster without `id`, preserving order and distinctness.
fn roster_remove(v: &Vec<String>, id: &String) -> (r: Vec<String>)
    requires
        distinct_ids(v@),
    ensures
        distinct_ids(r@),
        !has_id(r@, id@),
        forall|x: Seq<char>| x != id@ ==> has_id(r@, x) == has_id(v@, x),
        has_id(v@, id@) ==> r@.len() == v@.len() - 1,
        !has_id(v@, id@) ==> r@.len() == v@.len(),
{
    let n = v.len();
    let mut kept: Vec<String> = Vec::new();
    let mut t: usize = 0;
    while t < n
        invariant
            0 <= t <= n,
            n == v@.len(),
            distinct_ids(v@),
            distinct_ids(kept@),
            !has_id(kept@, id@),
            forall|x: Seq<char>|
                x != id@ ==> #[trigger] has_id(kept@, x) == has_id(v@.take(t as int), x),
            has_id(v@.take(t as int), id@) ==> kept@.len() == t - 1,
            !has_id(v@.take(t as int), id@) ==> kept@.len() == t,
        decreases n - t,
    {
        proof {
            assert(v@.take(t as int + 1).drop_last() =~= v@.take(t as int));
            assert(v@.take(t as int + 1).last() == v@[t as int]);
            lemma_distinct_take(v@, t as int + 1);
        }
        if !v[t].eq(id) {
            let ghost kept_before = kept@;
            kept.push(v[t].clone());
            proof {
                assert(kept@.drop_last() =~= kept_before);
                assert(kept@.last()@ == v@[t as int]@);
                assert(!has_id(v@.take(t as int), v@[t as int]@));
                assert(!has_id(kept_before, v@[t as int]@));
                assert(distinct_ids(kept@));
                assert forall|x: Seq<char>| x != id@ implies #[trigger] has_id(kept@, x)
                    == has_id(v@.take(t as int + 1), x) by {
                    assert(has_id(kept@, x) == (kept@.last()@ == x || has_id(kept_before, x)));
                    assert(has_id(v@.take(t as int + 1), x) == (v@[t as int]@ == x || has_id(
                        v@.take(t as int),
                        x,
                    )));
                }
            }
        } else {
            proof {
                assert(v@[t as int]@ == id@);
                assert(!has_id(v@.take(t as int), id@));
                assert forall|x: Seq<char>| x != id@ implies #[trigger] has_id(kept@, x)
                    == has_id(v@.take(t as int + 1), x) by {
                    assert(has_id(v@.take(t as int + 1), x) == (v@[t as int]@ == x || has_id(
                        v@.take(t as int),
                        x,
                    )));
                }
            }
        }
        t = t + 1;
    }
    proof {
        assert(v@.take(n as int) =~= v@);
    }
    kept
}

/// The roster's server names, as character sequences.
pub open spec fn id_seq(s: Seq<String>) -> Seq<Seq<char>> {
    s.map_values(|x: String| x@)
}

/// `has_id` agrees with positional membership in the roster.
proof fn lemma_has_id_iff_index(s: Seq<String>, id: Seq<char>)
    ensures
        has_id(s, id) <==> (exists|k: int| 0 <= k < s.len() && (#[trigger] s[k])@ == id),
    decreases s.len(),
{
    if s.len() > 0 {
        lemma_has_id_iff_index(s.drop_last(), id);
        if s.last()@ == id {
            assert(s[s.len() - 1]@ == id);
        } else if has_id(s.drop_last(), id) {
            let k = choose|k: int| 0 <= k < s.drop_last().len() && (#[trigger] s.drop_last()[k])@
                == id;
            assert(s[k]@ == id);
        } else {
            if exists|k: int| 0 <= k < s.len() && (#[trigger] s[k])@ == id {
                let k = choose|k: int| 0 <= k < s.len() && (#[trigger] s[k])@ == id;
                assert(k < s.len() - 1);
                assert(s.drop_last()[k]@ == id);
            }
        }
    }
}

/// A duplicate-free roster has duplicate-free names.
proof fn lemma_distinct_ids_no_duplicates(s: Seq<String>)
    requires
        distinct_ids(s),
    ensures
        id_seq(s).no_duplicates(),
    decreases s.len(),
{
    if s.len() > 0 {
        lemma_distinct_ids_no_duplicates(s.drop_last());
        assert(id_seq(s.drop_last()) =~= id_seq(s).drop_last());
        lemma_has_id_iff_index(s.drop_last(), s.last()@);
        assert forall|i: int, j: int|
            0 <= i < j < id_seq(s).len() implies id_seq(s)[i] != id_seq(s)[j] by {
            if j < s.len() - 1 {
                assert(id_seq(s).drop_last()[i] != id_seq(s).drop_last()[j]);
            } else {
                assert(!has_id(s.drop_last(), s.last()@));
                assert(s.drop_last()[i]@ != s.last()@);
            }
        }
    }
}

impl Membership {
    /// The voting servers as a set of names — the membership the lane's
    /// quorums are taken of.
    pub open spec fn spec_voter_set(self) -> Set<Seq<char>> {
        id_seq(self.spec_voters()).to_set()
    }
}

/// The voter set is finite and exactly as large as the roster, so the
/// strict-majority count [`Membership::majority_reached`] checks against
/// the roster length is a strict majority of the voter set.
pub proof fn lemma_voter_set_cardinality(m: Membership)
    requires
        m.wf(),
    ensures
        m.spec_voter_set().finite(),
        m.spec_voter_set().len() == m.spec_voters().len(),
{
    lemma_distinct_ids_no_duplicates(m.spec_voters());
    id_seq(m.spec_voters()).unique_seq_to_set();
    seq_to_set_is_finite(id_seq(m.spec_voters()));
}

/// Any set of granting voters that [`Membership::majority_reached`]
/// accepts is a quorum of the lane's voter set, which is what feeds
/// election safety ([`crate::election::lemma_election_safety`]) and the
/// majority-durability of the commit index.
pub proof fn lemma_majority_is_quorum(m: Membership, granted: Set<Seq<char>>)
    requires
        m.wf(),
        granted.finite(),
        granted.subset_of(m.spec_voter_set()),
        2 * granted.len() > m.spec_voters().len(),
    ensures
        is_quorum(m.spec_voter_set(), granted),
{
    lemma_voter_set_cardinality(m);
}

/// Election safety at the lane level: within one term, if two candidates
/// each collected binding votes from enough of this lane's voters to pass
/// [`Membership::majority_reached`], they are the same candidate — the
/// lane has at most one leader per term. `votes` is the term's vote
/// record, one binding vote per voter, which is what the ballot
/// discipline of [`crate::voter::Voter::request_vote`] persists.
pub proof fn lemma_one_leader_per_term(
    m: Membership,
    votes: Map<Seq<char>, Seq<char>>,
    q1: Set<Seq<char>>,
    q2: Set<Seq<char>>,
    candidate1: Seq<char>,
    candidate2: Seq<char>,
)
    requires
        m.wf(),
        q1.finite() && q1.subset_of(m.spec_voter_set()) && 2 * q1.len() > m.spec_voters().len(),
        q2.finite() && q2.subset_of(m.spec_voter_set()) && 2 * q2.len() > m.spec_voters().len(),
        quorum_voted_for(votes, q1, candidate1),
        quorum_voted_for(votes, q2, candidate2),
    ensures
        candidate1 == candidate2,
{
    lemma_majority_is_quorum(m, q1);
    lemma_majority_is_quorum(m, q2);
    lemma_election_safety(m.spec_voter_set(), votes, q1, q2, candidate1, candidate2);
}

} // verus!
