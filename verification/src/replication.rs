//! Log shipping between a leader and its followers.
//!
//! A replication stream opens with a header naming the continuity point
//! (the clock just before the first shipped entry) and then carries entry
//! frames in index order. The follower validates the continuity point
//! against its own log, ingests each frame — skipping what it already
//! holds, truncating and overwriting on term conflicts — and answers with
//! how much it inserted and where its log now ends, which is what the
//! leader uses to track per-follower match indices and compute the lane's
//! commit index.

use vstd::prelude::*;

use crate::command_log::CommandLog;
use crate::log::LaneLog;
use crate::types::Clock;
use crate::types::Entry;

verus! {

/// The opening frame of a replication stream: which lane, who sends, and
/// the position just before the first entry frame.
#[derive(Debug)]
pub struct ReplicationStreamHeader {
    pub lane_id: u32,
    pub sender_id: String,
    pub prev_clock: Clock,
}

/// The follower's answer to a replication stream.
#[derive(Clone, Copy, PartialEq, Eq, Structural, Debug)]
pub struct ReplicationStreamResponse {
    /// How many frames the follower newly stored.
    pub n_inserted: u64,
    /// The index up to which the follower's log matches the stream's
    /// history, as far as the follower can tell: its last index after an
    /// ingestion or when the stream started past its log, or the position
    /// just below a conflicting continuity point — the conflicting suffix
    /// itself is truncated only when the leader resends those positions as
    /// entry frames. The leader rewinds to resume just after this index.
    pub log_last_index: u64,
}

/// What the follower makes of a stream header.
#[derive(Clone, Copy, PartialEq, Eq, Structural, Debug)]
pub enum HeaderCheck {
    /// The continuity point matches this log; frames may be ingested.
    Continue,
    /// The stream does not fit this log (missing entries, an already
    /// compacted range, or a term conflict at the continuity point). The
    /// carried index is how far this log matches the stream's history —
    /// the follower's last index, or the position just below the conflict;
    /// the leader should resume with entries from just after it.
    Mismatch(u64),
    /// The stream contradicts an already committed entry; a correct leader
    /// never does this, so the stream is refused outright.
    Rejected,
}

/// What ingesting one entry frame did.
#[derive(Clone, Copy, PartialEq, Eq, Structural, Debug)]
pub enum AcceptOutcome {
    /// The entry was stored (after truncating a conflicting suffix, if one
    /// was in the way) and is now the newest entry of the log.
    Inserted,
    /// An entry with this index and term is already stored; nothing changed.
    AlreadyStored,
    /// The frame conflicts with a committed entry; nothing changed.
    Rejected,
}

/// Why a stream was not ingested.
#[derive(Clone, Copy, PartialEq, Eq, Structural, Debug)]
pub enum IngestError {
    /// The frames do not form the contiguous run the header announced.
    MalformedStream,
    /// The stream contradicts an already committed entry.
    ConflictsCommitted,
}

/// The term this log records for position `i`, where `i` is the sentinel
/// position 0 (term 0), the position just below the head (remembered by the
/// head entry's `prev_clock`), or a stored position.
pub open spec fn spec_term_at(log: LaneLog, i: u64) -> u64 {
    if i == 0 {
        0
    } else if i + 1 == log.spec_head_index() {
        log.spec_get(log.spec_head_index()).unwrap().prev_clock.term
    } else {
        log.spec_get(i).unwrap().this_clock.term
    }
}

/// Whether this log can check a continuity point at position `i`: the
/// position is the sentinel, just below the head, or stored.
pub open spec fn spec_knows_term_at(log: LaneLog, i: u64) -> bool {
    (i == 0 && log.spec_head_index() <= 1) || (log.spec_len() > 0 && log.spec_head_index() <= i + 1
        && i <= log.spec_last_index())
}

/// The follower's decision on a stream header, over the log's model: a
/// continuity point beyond the log or below its remembered range asks the
/// leader to rewind to the follower's last index; a term conflict at the
/// continuity point asks it to rewind to just below the conflict — the
/// conflicting suffix is truncated when the resent frames arrive (see
/// [`CommandLog::accept_entry`]), completing the truncate-and-resync —
/// unless the conflict touches committed state, which refuses the stream.
pub open spec fn spec_begin_stream(cl: CommandLog, prev: Clock) -> HeaderCheck {
    if prev.index > cl.log.spec_last_index() {
        HeaderCheck::Mismatch(cl.log.spec_last_index())
    } else if !spec_knows_term_at(cl.log, prev.index) {
        HeaderCheck::Mismatch(cl.log.spec_last_index())
    } else if spec_term_at(cl.log, prev.index) == prev.term {
        HeaderCheck::Continue
    } else if prev.index <= cl.commit_index {
        HeaderCheck::Rejected
    } else {
        HeaderCheck::Mismatch((prev.index - 1) as u64)
    }
}

/// Follower side: validate a stream header's continuity point against this
/// lane's log. Read-only: a conflicting suffix is only truncated when the
/// leader actually resends the conflicting position as an entry frame.
pub fn begin_stream(cl: &CommandLog, prev: Clock) -> (r: HeaderCheck)
    requires
        cl.wf(),
    ensures
        r == spec_begin_stream(*cl, prev),
{
    let last = cl.log.get_last_index();
    let head = cl.log.get_head_index();
    if prev.index > last {
        HeaderCheck::Mismatch(last)
    } else if !((prev.index == 0 && head <= 1) || (head >= 1 && prev.index >= head - 1)) {
        HeaderCheck::Mismatch(last)
    } else {
        let term_here = term_at(&cl.log, prev.index);
        if term_here == prev.term {
            HeaderCheck::Continue
        } else if prev.index <= cl.commit_index {
            HeaderCheck::Rejected
        } else {
            HeaderCheck::Mismatch(prev.index - 1)
        }
    }
}

impl CommandLog {
    /// Follower side: ingest one entry frame. An entry already stored with
    /// the same term is skipped; a term conflict with an uncommitted entry
    /// truncates the suffix from that position and stores the frame (the
    /// only entry deletion outside compaction); a conflict with a committed
    /// entry is refused. The commit and kernel cursors never move here.
    pub fn accept_entry(&mut self, e: Entry) -> (r: AcceptOutcome)
        requires
            old(self).wf(),
            e@.this_clock.index == e@.prev_clock.index + 1,
            old(self).log.spec_len() == 0 ==> e@.this_clock.index == 1,
            old(self).log.spec_len() > 0 ==> old(self).log.spec_head_index()
                <= e@.this_clock.index && e@.this_clock.index <= old(
                self,
            ).log.spec_last_index() + 1,
        ensures
            final(self).wf(),
            final(self).commit_index == old(self).commit_index,
            final(self).kern_index == old(self).kern_index,
            final(self).snapshot_base == old(self).snapshot_base,
            r == spec_accept_outcome(*old(self), e@.this_clock),
            r == AcceptOutcome::Inserted ==> {
                &&& final(self).log.spec_get(e@.this_clock.index) == Some(e@)
                &&& final(self).log.spec_last_index() == e@.this_clock.index
                &&& (forall|j: u64|
                    j < e@.this_clock.index ==> final(self).log.spec_get(j) == old(
                        self,
                    ).log.spec_get(j))
                &&& (forall|j: u64|
                    j > e@.this_clock.index ==> final(self).log.spec_get(j) is None)
            },
            r != AcceptOutcome::Inserted ==> *final(self) == *old(self),
    {
        let i = e.this_clock.index;
        let existing_term: Option<u64> = match self.log.get_entry(i) {
            Some(se) => Some(se.this_clock.term),
            None => None,
        };
        match existing_term {
            Some(t) => {
                if t == e.this_clock.term {
                    AcceptOutcome::AlreadyStored
                } else if i <= self.commit_index {
                    AcceptOutcome::Rejected
                } else {
                    self.log.truncate_from(i);
                    self.log.insert_entry(i, e);
                    AcceptOutcome::Inserted
                }
            },
            None => {
                self.log.insert_entry(i, e);
                AcceptOutcome::Inserted
            },
        }
    }
}

/// The outcome [`CommandLog::accept_entry`] owes for a frame whose entry
/// occupies `clock`, given the log it meets.
pub open spec fn spec_accept_outcome(cl: CommandLog, clock: Clock) -> AcceptOutcome {
    match cl.log.spec_get(clock.index) {
        Some(se) => if se.this_clock.term == clock.term {
            AcceptOutcome::AlreadyStored
        } else if clock.index <= cl.commit_index {
            AcceptOutcome::Rejected
        } else {
            AcceptOutcome::Inserted
        },
        None => AcceptOutcome::Inserted,
    }
}

/// The first `upto` frames of a stream that continued just after `prev`
/// are reflected in the log: each announced position is stored and carries
/// the frame's clock.
pub open spec fn frames_stored(cl: CommandLog, prev: Clock, frames: Seq<Entry>, upto: int) -> bool
    decreases upto,
{
    upto <= 0 || {
        let j = (prev.index + upto) as u64;
        &&& frames_stored(cl, prev, frames, upto - 1)
        &&& cl.log.spec_get(j) is Some
        &&& cl.log.spec_get(j).unwrap().this_clock == frames[upto - 1]@.this_clock
    }
}

/// Read one position out of [`frames_stored`]: the `m`-th shipped frame's
/// clock stands in the log at its announced position.
pub proof fn lemma_frames_stored_at(
    cl: CommandLog,
    prev: Clock,
    frames: Seq<Entry>,
    upto: int,
    m: int,
)
    requires
        frames_stored(cl, prev, frames, upto),
        0 <= m < upto,
    ensures
        cl.log.spec_get((prev.index + 1 + m) as u64) is Some,
        cl.log.spec_get((prev.index + 1 + m) as u64).unwrap().this_clock == frames[m]@.this_clock,
    decreases upto,
{
    if m + 1 < upto {
        lemma_frames_stored_at(cl, prev, frames, upto - 1, m);
    }
}

/// A log change that leaves every position below `bound` untouched keeps
/// every shipped frame whose positions all lie below `bound`.
proof fn frames_stored_preserved(
    pre: CommandLog,
    post: CommandLog,
    prev: Clock,
    frames: Seq<Entry>,
    upto: int,
    bound: u64,
)
    requires
        0 <= upto,
        prev.index + upto < bound,
        frames_stored(pre, prev, frames, upto),
        forall|j: u64| j < bound ==> #[trigger] post.log.spec_get(j) == pre.log.spec_get(j),
    ensures
        frames_stored(post, prev, frames, upto),
    decreases upto,
{
    if upto > 0 {
        frames_stored_preserved(pre, post, prev, frames, upto - 1, bound);
        let j: u64 = (prev.index + upto) as u64;
        assert(j < bound);
        assert(post.log.spec_get(j) == pre.log.spec_get(j));
    }
}

/// The frames of a stream form the contiguous run the header announced:
/// frame `k` occupies the position `k + 1` past the continuity point and
/// chains to the position before it.
pub open spec fn frames_chain_ok(prev: Clock, frames: Seq<Entry>, upto: int) -> bool
    decreases upto,
{
    upto <= 0 || {
        &&& frames_chain_ok(prev, frames, upto - 1)
        &&& frames[upto - 1]@.this_clock.index == prev.index + upto
        &&& frames[upto - 1]@.prev_clock.index == prev.index + upto - 1
    }
}

/// Read one frame's positions out of [`frames_chain_ok`].
pub proof fn lemma_frames_chain_at(prev: Clock, frames: Seq<Entry>, upto: int, k: int)
    requires
        frames_chain_ok(prev, frames, upto),
        0 <= k < upto,
        upto <= frames.len(),
    ensures
        frames[k]@.this_clock.index == prev.index + 1 + k,
        frames[k]@.prev_clock.index == prev.index + k,
    decreases upto,
{
    if k + 1 < upto {
        lemma_frames_chain_at(prev, frames, upto - 1, k);
    }
}

/// How many leading frames, from position `k` on, the log `cl` already
/// stores with their announced term, so that ingesting them changes
/// nothing. The result is the position of the first frame that would not
/// merely be skipped — `frames.len()` when every frame is already stored.
pub open spec fn spec_already_prefix(cl: CommandLog, frames: Seq<Entry>, k: int) -> int
    decreases frames.len() - k
        when k <= frames.len()
{
    if k < 0 || k >= frames.len() {
        k
    } else if spec_accept_outcome(cl, frames[k]@.this_clock) == AcceptOutcome::AlreadyStored {
        spec_already_prefix(cl, frames, k + 1)
    } else {
        k
    }
}

/// The already-stored prefix scan lands between its start and the end of
/// the frames.
pub proof fn lemma_already_prefix_bounds(cl: CommandLog, frames: Seq<Entry>, k: int)
    requires
        0 <= k <= frames.len(),
    ensures
        k <= spec_already_prefix(cl, frames, k) <= frames.len(),
    decreases frames.len() - k,
{
    if k < frames.len() && spec_accept_outcome(cl, frames[k]@.this_clock)
        == AcceptOutcome::AlreadyStored {
        lemma_already_prefix_bounds(cl, frames, k + 1);
    }
}

/// What a clean ingestion reports: every frame past the already-stored
/// prefix was newly stored, and the log now ends exactly at the last
/// shipped position.
pub open spec fn spec_clean_ingest(
    cl_old: CommandLog,
    cl_new: CommandLog,
    prev: Clock,
    frames: Seq<Entry>,
    r: Result<ReplicationStreamResponse, IngestError>,
) -> bool {
    match r {
        Ok(resp) => {
            &&& resp.n_inserted == frames.len() - spec_already_prefix(cl_old, frames, 0)
            &&& cl_new.log.spec_last_index() == prev.index + frames.len()
            &&& resp.log_last_index == prev.index + frames.len()
        },
        Err(_) => false,
    }
}

/// Follower side: validate a stream header and ingest its entry frames in
/// order. The response reports how many frames were newly stored and the
/// index up to which this log now matches the stream, which is what the
/// leader uses to track the follower's match index. For a stream whose
/// header continues and whose frames form the announced contiguous run,
/// the outcome is pinned exactly: an already-stored prefix is skipped;
/// then either a frame contradicts a committed entry and the whole stream
/// is refused, or every remaining frame is stored (truncating a
/// conflicting uncommitted suffix on the way) and the response counts
/// precisely the frames newly stored — this is what drives a diverged or
/// restarted follower back into convergence.
#[verifier::rlimit(100)]
pub fn ingest_frames(cl: &mut CommandLog, prev: Clock, frames: Vec<Entry>) -> (r: Result<
    ReplicationStreamResponse,
    IngestError,
>)
    requires
        old(cl).wf(),
    ensures
        final(cl).wf(),
        final(cl).commit_index == old(cl).commit_index,
        final(cl).kern_index == old(cl).kern_index,
        final(cl).snapshot_base == old(cl).snapshot_base,
        (match spec_begin_stream(*old(cl), prev) {
            HeaderCheck::Mismatch(hint) => r == Ok::<_, IngestError>(
                ReplicationStreamResponse { n_inserted: 0, log_last_index: hint },
            ) && *final(cl) == *old(cl),
            HeaderCheck::Rejected => r == Err::<ReplicationStreamResponse, _>(
                IngestError::ConflictsCommitted,
            ) && *final(cl) == *old(cl),
            HeaderCheck::Continue => (match r {
                Ok(resp) => {
                    &&& frames_stored(*final(cl), prev, frames@, frames@.len() as int)
                    &&& resp.log_last_index == final(cl).log.spec_last_index()
                    &&& (frames@.len() > 0 ==> final(cl).log.spec_last_index() >= prev.index
                        + frames@.len())
                    &&& resp.n_inserted <= frames@.len()
                },
                Err(e) => e == IngestError::MalformedStream || e
                    == IngestError::ConflictsCommitted,
            }),
        }),
        // a chained stream's fate is pinned: skipped prefix, then refusal
        // on a committed conflict or clean storage of all that remains
        spec_begin_stream(*old(cl), prev) == HeaderCheck::Continue && frames_chain_ok(
            prev,
            frames@,
            frames@.len() as int,
        ) ==> (spec_already_prefix(*old(cl), frames@, 0) >= frames@.len() ==> r == Ok::<
            _,
            IngestError,
        >(
            ReplicationStreamResponse {
                n_inserted: 0,
                log_last_index: old(cl).log.spec_last_index(),
            },
        ) && *final(cl) == *old(cl)),
        spec_begin_stream(*old(cl), prev) == HeaderCheck::Continue && frames_chain_ok(
            prev,
            frames@,
            frames@.len() as int,
        ) && spec_already_prefix(*old(cl), frames@, 0) < frames@.len() && spec_accept_outcome(
            *old(cl),
            frames@[spec_already_prefix(*old(cl), frames@, 0)]@.this_clock,
        ) == AcceptOutcome::Rejected ==> r == Err::<ReplicationStreamResponse, _>(
            IngestError::ConflictsCommitted,
        ),
        spec_begin_stream(*old(cl), prev) == HeaderCheck::Continue && frames_chain_ok(
            prev,
            frames@,
            frames@.len() as int,
        ) && spec_already_prefix(*old(cl), frames@, 0) < frames@.len() && spec_accept_outcome(
            *old(cl),
            frames@[spec_already_prefix(*old(cl), frames@, 0)]@.this_clock,
        ) == AcceptOutcome::Inserted ==> spec_clean_ingest(*old(cl), *final(cl), prev, frames@, r),
{
    let ghost n_spec = frames@.len() as int;
    let ghost chain = frames_chain_ok(prev, frames@, n_spec);
    let ghost p_all = spec_already_prefix(*old(cl), frames@, 0);
    let check = begin_stream(cl, prev);
    match check {
        HeaderCheck::Rejected => Err(IngestError::ConflictsCommitted),
        HeaderCheck::Mismatch(hint) => Ok(
            ReplicationStreamResponse { n_inserted: 0, log_last_index: hint },
        ),
        HeaderCheck::Continue => {
            let n = frames.len();
            proof {
                lemma_already_prefix_bounds(*old(cl), frames@, 0);
            }
            let mut inserted: u64 = 0;
            let mut k: usize = 0;
            if n > 0 && prev.index == u64::MAX {
                proof {
                    if chain {
                        lemma_frames_chain_at(prev, frames@, n_spec, 0);
                    }
                }
                return Err(IngestError::MalformedStream);
            }
            let mut expected: u64 = if prev.index == u64::MAX {
                u64::MAX
            } else {
                prev.index + 1
            };
            while k < n
                invariant
                    cl.wf(),
                    cl.commit_index == old(cl).commit_index,
                    cl.kern_index == old(cl).kern_index,
                    cl.snapshot_base == old(cl).snapshot_base,
                    n == frames@.len(),
                    n_spec == n as int,
                    chain == frames_chain_ok(prev, frames@, n_spec),
                    p_all == spec_already_prefix(*old(cl), frames@, 0),
                    0 <= k <= n,
                    inserted <= k,
                    k < n ==> expected == prev.index + 1 + k,
                    spec_begin_stream(*old(cl), prev) == HeaderCheck::Continue,
                    k > 0 ==> cl.log.spec_len() > 0 && cl.log.spec_last_index() >= prev.index + k
                        && cl.log.spec_head_index() <= prev.index + k,
                    k == 0 ==> *cl == *old(cl),
                    frames_stored(*cl, prev, frames@, k as int),
                    chain && k <= p_all ==> *cl == *old(cl) && inserted == 0
                        && spec_already_prefix(*old(cl), frames@, k as int) == p_all && p_all
                        <= n,
                    chain && k > p_all ==> 0 <= p_all < n && inserted == k - p_all
                        && cl.log.spec_last_index() == prev.index + k && spec_accept_outcome(
                        *old(cl),
                        frames@[p_all]@.this_clock,
                    ) == AcceptOutcome::Inserted,
                decreases n - k,
            {
                let e = frames[k].duplicate();
                if e.this_clock.index != expected || expected == 0 || e.prev_clock.index
                    != expected - 1 {
                    proof {
                        if chain {
                            lemma_frames_chain_at(prev, frames@, n_spec, k as int);
                        }
                    }
                    return Err(IngestError::MalformedStream);
                }
                proof {
                    if k == 0 {
                        lane_continue_fits(*cl, prev);
                    }
                }
                let ghost frame_model = e@;
                let ghost cl_before = *cl;
                let outcome = cl.accept_entry(e);
                proof {
                    if chain && k < p_all {
                        // within the already-stored prefix the state is
                        // untouched, so the recorded outcome applies
                        assert(spec_already_prefix(*old(cl), frames@, k as int) == p_all);
                        assert(spec_accept_outcome(*old(cl), frames@[k as int]@.this_clock)
                            == AcceptOutcome::AlreadyStored);
                    }
                    if chain && k > p_all {
                        // past the first insertion the log ends right
                        // before this frame, so it can only be appended
                        assert(cl_before.log.spec_get(expected) is None);
                        assert(spec_accept_outcome(cl_before, frame_model.this_clock)
                            == AcceptOutcome::Inserted);
                    }
                }
                match outcome {
                    AcceptOutcome::Inserted => {
                        inserted = inserted + 1;
                    },
                    AcceptOutcome::AlreadyStored => {
                    },
                    AcceptOutcome::Rejected => {
                        proof {
                            if chain {
                                assert(k == p_all);
                            }
                        }
                        return Err(IngestError::ConflictsCommitted);
                    },
                }
                proof {
                    assert(frame_model == frames@[k as int]@);
                    if outcome == AcceptOutcome::AlreadyStored {
                        let se = cl.log.spec_get(expected).unwrap();
                        assert(se.this_clock.index == expected);
                        assert(se.this_clock == frame_model.this_clock);
                        if chain {
                            assert(k <= p_all);
                            lemma_already_prefix_bounds(*old(cl), frames@, k as int + 1);
                            assert(spec_already_prefix(*old(cl), frames@, k as int + 1) == p_all);
                        }
                    }
                    if outcome == AcceptOutcome::Inserted && chain {
                        assert(k >= p_all);
                    }
                    assert(cl.log.spec_get(expected) is Some);
                    assert(cl.log.spec_get(expected).unwrap().this_clock
                        == frame_model.this_clock);
                    assert(forall|j: u64|
                        j < expected ==> #[trigger] cl.log.spec_get(j) == cl_before.log.spec_get(
                            j,
                        ));
                    frames_stored_step(cl_before, *cl, prev, frames@, k as int, expected);
                }
                k = k + 1;
                if k < n {
                    if expected == u64::MAX {
                        proof {
                            if chain {
                                lemma_frames_chain_at(prev, frames@, n_spec, k as int);
                            }
                        }
                        return Err(IngestError::MalformedStream);
                    }
                    expected = expected + 1;
                }
            }
            let last = cl.log.get_last_index();
            Ok(ReplicationStreamResponse { n_inserted: inserted, log_last_index: last })
        },
    }
}

/// One ingested frame extends the stored prefix of a stream by one: what
/// stood below it is untouched, and the frame's own position now carries
/// its clock.
proof fn frames_stored_step(
    pre: CommandLog,
    post: CommandLog,
    prev: Clock,
    frames: Seq<Entry>,
    k: int,
    expected: u64,
)
    requires
        0 <= k < frames.len(),
        expected == prev.index + 1 + k,
        frames_stored(pre, prev, frames, k),
        post.log.spec_get(expected) is Some,
        post.log.spec_get(expected).unwrap().this_clock == frames[k]@.this_clock,
        forall|j: u64| j < expected ==> #[trigger] post.log.spec_get(j) == pre.log.spec_get(j),
    ensures
        frames_stored(post, prev, frames, k + 1),
{
    frames_stored_preserved(pre, post, prev, frames, k, expected);
    assert((prev.index + (k + 1)) as u64 == expected);
}

/// A `Continue` header decision places the continuity point within the
/// log's remembered range, so the first frame's position may be stored.
proof fn lane_continue_fits(cl: CommandLog, prev: Clock)
    requires
        cl.wf(),
        spec_begin_stream(cl, prev) == HeaderCheck::Continue,
        prev.index < u64::MAX,
    ensures
        cl.log.spec_len() == 0 ==> prev.index + 1 == 1,
        cl.log.spec_len() > 0 ==> cl.log.spec_head_index() <= prev.index + 1 && prev.index + 1
            <= cl.log.spec_last_index() + 1,
{
}

/// How many of the reported match indices are at least `x` — how many
/// members are known to have durably stored position `x`.
pub open spec fn count_at_least(s: Seq<u64>, x: u64) -> nat
    decreases s.len(),
{
    if s.len() == 0 {
        0
    } else {
        count_at_least(s.drop_last(), x) + (if s.last() >= x {
            1nat
        } else {
            0nat
        })
    }
}

/// Count the match indices at or above `x`.
pub fn count_match_at_least(v: &Vec<u64>, x: u64) -> (c: usize)
    ensures
        c == count_at_least(v@, x),
{
    let mut c: usize = 0;
    let mut t: usize = 0;
    while t < v.len()
        invariant
            0 <= t <= v@.len(),
            c == count_at_least(v@.take(t as int), x),
            c <= t,
        decreases v@.len() - t,
    {
        proof {
            assert(v@.take(t as int + 1).drop_last() =~= v@.take(t as int));
            assert(v@.take(t as int + 1).last() == v@[t as int]);
        }
        if v[t] >= x {
            c = c + 1;
        }
        t = t + 1;
    }
    proof {
        assert(v@.take(v@.len() as int) =~= v@);
    }
    c
}

/// Leader side: the lane's new commit index, from the match indices of all
/// voting members (the leader's own last index included). The result is
/// the highest reported index that a strict majority of the members has
/// durably stored, and it never falls below the current commit index — an
/// entry only ever commits once majority-stored, and commitment is
/// permanent.
pub fn compute_commit_index(match_indices: &Vec<u64>, current_commit: u64) -> (r: u64)
    ensures
        r >= current_commit,
        r == current_commit || (exists|t: int|
            0 <= t < match_indices@.len() && match_indices@[t] == r),
        r > current_commit ==> 2 * count_at_least(match_indices@, r) > match_indices@.len(),
        forall|t: int|
            0 <= t < match_indices@.len() && #[trigger] match_indices@[t] > r ==> !(2
                * count_at_least(match_indices@, match_indices@[t]) > match_indices@.len()),
{
    let n = match_indices.len();
    let mut best: u64 = current_commit;
    let mut t: usize = 0;
    while t < n
        invariant
            0 <= t <= n,
            n == match_indices@.len(),
            best >= current_commit,
            best == current_commit || (exists|u: int|
                0 <= u < match_indices@.len() && match_indices@[u] == best),
            best > current_commit ==> 2 * count_at_least(match_indices@, best)
                > match_indices@.len(),
            forall|u: int|
                0 <= u < t && #[trigger] match_indices@[u] > best ==> !(2 * count_at_least(
                    match_indices@,
                    match_indices@[u],
                ) > match_indices@.len()),
        decreases n - t,
    {
        let candidate = match_indices[t];
        if candidate > best {
            let stored = count_match_at_least(match_indices, candidate);
            if stored > n / 2 {
                best = candidate;
            }
        }
        t = t + 1;
    }
    best
}

/// What the leader does for a follower whose log ends at `follower_last`:
/// resume shipping entries from the next position, or, when the needed
/// continuity point has already been compacted away here, send a snapshot
/// instead.
#[derive(Clone, Copy, PartialEq, Eq, Structural, Debug)]
pub enum ResumePlan {
    /// Open a stream whose first entry frame has this index.
    SendFrom(u64),
    /// The follower needs a snapshot before replication can continue.
    Snapshot,
}

/// Leader side: decide how to resume replication toward a follower whose
/// log ends at `follower_last`. The stream can resume exactly when this
/// log still remembers the continuity point at `follower_last` and every
/// position to be shipped lies above this node's snapshot base — a
/// position at or below the base may only exist here as an installed
/// marker, and is served by snapshot transfer, never as a frame.
pub fn plan_resume(cl: &CommandLog, follower_last: u64) -> (r: ResumePlan)
    requires
        cl.wf(),
        follower_last < u64::MAX,
    ensures
        spec_knows_term_at(cl.log, follower_last) && follower_last >= cl.snapshot_base ==> r
            == ResumePlan::SendFrom((follower_last + 1) as u64),
        !(spec_knows_term_at(cl.log, follower_last) && follower_last >= cl.snapshot_base) ==> r
            == ResumePlan::Snapshot,
{
    let head = cl.log.get_head_index();
    let last = cl.log.get_last_index();
    let known = (follower_last == 0 && head <= 1) || (head >= 1 && follower_last >= head - 1
        && follower_last <= last && last >= 1);
    proof {
        if head >= 1 && follower_last >= head - 1 && follower_last <= last {
            assert(cl.log.spec_len() > 0);
        }
    }
    if known && follower_last >= cl.snapshot_base {
        ResumePlan::SendFrom(follower_last + 1)
    } else {
        ResumePlan::Snapshot
    }
}

/// The term this log remembers for position `i`.
pub fn term_at(log: &LaneLog, i: u64) -> (t: u64)
    requires
        log.wf(),
        spec_knows_term_at(*log, i),
    ensures
        t == spec_term_at(*log, i),
{
    let head = log.get_head_index();
    if i == 0 {
        0
    } else if head >= 1 && i == head - 1 {
        log.entry_at(head).prev_clock.term
    } else {
        log.entry_at(i).this_clock.term
    }
}

/// The first `built` collected frames are copies of the stored entries
/// beginning at `from`.
pub open spec fn frames_collected(cl: CommandLog, from: u64, frames: Seq<Entry>, built: int) -> bool
    decreases built,
{
    built <= 0 || {
        &&& frames_collected(cl, from, frames, built - 1)
        &&& cl.log.spec_get((from + built - 1) as u64) == Some(frames[built - 1]@)
    }
}

/// Leader side: assemble a resumed stream for a follower — the continuity
/// clock for the position just before `from`, and up to `max` entry frames
/// copied from this log starting at `from`. A stream built here passes the
/// follower's continuity check whenever the follower's log agrees with
/// this one up to `from - 1`. The stream must start above this node's
/// snapshot base, so an installed marker is never shipped as a frame; the
/// marker's clock may still serve as the continuity point.
pub fn collect_frames(cl: &CommandLog, from: u64, max: usize) -> (r: (Clock, Vec<Entry>))
    requires
        cl.wf(),
        from >= 1,
        from > cl.snapshot_base,
        spec_knows_term_at(cl.log, (from - 1) as u64),
    ensures
        r.0.index == from - 1,
        r.0.term == spec_term_at(cl.log, (from - 1) as u64),
        frames_collected(*cl, from, r.1@, r.1@.len() as int),
        r.1@.len() <= max,
        from + r.1@.len() - 1 <= cl.log.spec_last_index(),
        cl.log.spec_last_index() >= from ==> r.1@.len() == if cl.log.spec_last_index() - from + 1
            <= max {
            cl.log.spec_last_index() - from + 1
        } else {
            max as int
        },
        cl.log.spec_last_index() < from ==> r.1@.len() == 0,
{
    let prev = Clock { term: term_at(&cl.log, from - 1), index: from - 1 };
    let last = cl.log.get_last_index();
    let total: u64 = if last >= from {
        last - from + 1
    } else {
        0
    };
    let take_n: u64 = if total <= max as u64 {
        total
    } else {
        max as u64
    };
    let mut frames: Vec<Entry> = Vec::new();
    let mut c: u64 = 0;
    proof {
        assert(cl.log.spec_head_index() <= from);
    }
    while c < take_n
        invariant
            cl.wf(),
            from >= 1,
            cl.log.spec_head_index() <= from,
            last == cl.log.spec_last_index(),
            take_n <= max,
            take_n > 0 ==> from + take_n - 1 <= last,
            0 <= c <= take_n,
            frames@.len() == c,
            frames_collected(*cl, from, frames@, c as int),
        decreases take_n - c,
    {
        proof {
            assert(cl.log.spec_len() > 0);
        }
        let ghost fs = frames@;
        let e = cl.log.entry_at(from + c).duplicate();
        frames.push(e);
        proof {
            frames_collected_push(*cl, from, fs, frames@[c as int], c as int);
            assert(frames@.drop_last() =~= fs);
        }
        c = c + 1;
    }
    (prev, frames)
}

/// Appending another frame to a collected batch leaves its earlier frames
/// collected.
proof fn frames_collected_push(cl: CommandLog, from: u64, s: Seq<Entry>, e: Entry, n: int)
    requires
        0 <= n <= s.len(),
        frames_collected(cl, from, s, n),
    ensures
        frames_collected(cl, from, s.push(e), n),
    decreases n,
{
    if n > 0 {
        frames_collected_push(cl, from, s, e, n - 1);
        assert(s.push(e)[n - 1] == s[n - 1]);
    }
}

/// A higher cut keeps at most as many members above it.
proof fn lemma_count_at_least_monotone(s: Seq<u64>, x: u64, y: u64)
    requires
        x <= y,
    ensures
        count_at_least(s, y) <= count_at_least(s, x),
    decreases s.len(),
{
    if s.len() > 0 {
        lemma_count_at_least_monotone(s.drop_last(), x, y);
    }
}

/// Leader side: recompute and advance a lane's commit index from the
/// followers' acknowledged match indices, the leader's own stored entries
/// included. The commit index lands on the highest position a strict
/// majority of the reporting members has durably stored, clamped to this
/// log, and never moves backwards — an entry becomes committed only once
/// majority-stored, commitment is permanent, and no majority-stored
/// position within the log is left uncommitted.
pub fn leader_advance_commit(cl: &mut CommandLog, follower_matches: &Vec<u64>) -> (r: u64)
    requires
        old(cl).wf(),
    ensures
        final(cl).wf(),
        final(cl).log == old(cl).log,
        final(cl).kern_index == old(cl).kern_index,
        final(cl).snapshot_base == old(cl).snapshot_base,
        r == final(cl).commit_index,
        final(cl).commit_index >= old(cl).commit_index,
        final(cl).commit_index > old(cl).commit_index ==> 2 * count_at_least(
            follower_matches@.push(old(cl).log.spec_last_index()),
            final(cl).commit_index,
        ) > follower_matches@.len() + 1,
        final(cl).commit_index > old(cl).commit_index ==> (exists|t: int|
            0 <= t < follower_matches@.len() + 1 && follower_matches@.push(
                old(cl).log.spec_last_index(),
            )[t] == final(cl).commit_index),
        forall|t: int|
            0 <= t < follower_matches@.len() + 1 && #[trigger] follower_matches@.push(
                old(cl).log.spec_last_index(),
            )[t] > final(cl).commit_index && follower_matches@.push(
                old(cl).log.spec_last_index(),
            )[t] <= old(cl).log.spec_last_index() ==> !(2 * count_at_least(
                follower_matches@.push(old(cl).log.spec_last_index()),
                follower_matches@.push(old(cl).log.spec_last_index())[t],
            ) > follower_matches@.len() + 1),
{
    let own_last = cl.log.get_last_index();
    let mut all: Vec<u64> = Vec::new();
    let mut t: usize = 0;
    while t < follower_matches.len()
        invariant
            0 <= t <= follower_matches@.len(),
            all@ == follower_matches@.take(t as int),
        decreases follower_matches@.len() - t,
    {
        all.push(follower_matches[t]);
        proof {
            assert(all@ =~= follower_matches@.take(t as int + 1));
        }
        t = t + 1;
    }
    proof {
        assert(follower_matches@.take(follower_matches@.len() as int) =~= follower_matches@);
    }
    all.push(own_last);
    let candidate = compute_commit_index(&all, cl.commit_index);
    let ghost all_view = all@;
    let ghost before = cl.commit_index;
    let ghost last = cl.log.spec_last_index();
    cl.advance_commit(candidate);
    proof {
        assert(all_view == follower_matches@.push(last));
        assert(all_view[all_view.len() - 1] == last);
        if cl.commit_index > before {
            lemma_count_at_least_monotone(all_view, cl.commit_index, candidate);
            if candidate > last {
                assert(cl.commit_index == last);
            }
        }
    }
    cl.commit_index
}

} // verus!
