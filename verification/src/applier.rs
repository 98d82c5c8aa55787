//! The kernel-apply pipeline's deduplication table.
//!
//! Every client write carries a request id. Before a committed entry's
//! command is executed against application state, the applier consults
//! this table: a request id that already produced a response is answered
//! from the table, and the command is not executed again. This is what
//! turns client retries into at-most-once execution per request id.

use vstd::prelude::*;

verus! {

/// The response already produced for a request id, if any; a newer record
/// for the same id wins.
pub open spec fn spec_recorded(
    keys: Seq<Seq<char>>,
    vals: Seq<Seq<u8>>,
    request_id: Seq<char>,
) -> Option<Seq<u8>>
    decreases keys.len(),
{
    if keys.len() == 0 || keys.len() != vals.len() {
        None
    } else if keys.last() == request_id {
        Some(vals.last())
    } else {
        spec_recorded(keys.drop_last(), vals.drop_last(), request_id)
    }
}

/// The recorded request ids of a key column, as character sequences.
pub open spec fn keys_view(keys: Seq<String>) -> Seq<Seq<char>> {
    keys.map_values(|s: String| s@)
}

/// The recorded responses of a value column, as byte sequences.
pub open spec fn vals_view(vals: Seq<Vec<u8>>) -> Seq<Seq<u8>> {
    vals.map_values(|v: Vec<u8>| v@)
}

/// The response a key/value column pair records for a request id.
pub open spec fn recorded_of(keys: Seq<String>, vals: Seq<Vec<u8>>, request_id: Seq<char>) -> Option<
    Seq<u8>,
> {
    spec_recorded(keys_view(keys), vals_view(vals), request_id)
}

/// One lane's request-id → response table.
pub struct DedupMap {
    keys: Vec<String>,
    vals: Vec<Vec<u8>>,
}

impl DedupMap {
    /// The recorded request ids, as character sequences, oldest first.
    pub closed spec fn spec_keys(self) -> Seq<Seq<char>> {
        keys_view(self.keys@)
    }

    /// The recorded responses, oldest first.
    pub closed spec fn spec_vals(self) -> Seq<Seq<u8>> {
        vals_view(self.vals@)
    }

    /// The table records one response per key slot.
    pub open spec fn wf(self) -> bool {
        self.spec_keys().len() == self.spec_vals().len()
    }

    /// The response this table holds for a request id, if any.
    pub open spec fn spec_lookup(self, request_id: Seq<char>) -> Option<Seq<u8>> {
        spec_recorded(self.spec_keys(), self.spec_vals(), request_id)
    }

    /// An empty table: no request has been applied yet.
    pub fn new() -> (r: DedupMap)
        ensures
            r.wf(),
            forall|rid: Seq<char>| r.spec_lookup(rid) is None,
    {
        DedupMap { keys: Vec::new(), vals: Vec::new() }
    }

    /// The response already produced for this request id, if any. A `Some`
    /// answer means the command must not be executed again; the caller
    /// returns the stored response instead.
    pub fn lookup(&self, request_id: &String) -> (r: Option<&Vec<u8>>)
        requires
            self.wf(),
        ensures
            match r {
                Some(v) => self.spec_lookup(request_id@) == Some(v@),
                None => self.spec_lookup(request_id@) is None,
            },
    {
        let n = self.keys.len();
        proof {
            assert(self.spec_keys().take(n as int) =~= self.spec_keys());
            assert(self.spec_vals().take(n as int) =~= self.spec_vals());
        }
        let mut t: usize = n;
        while t > 0
            invariant
                self.wf(),
                0 <= t <= n,
                n == self.keys@.len(),
                n == self.vals@.len(),
                self.spec_lookup(request_id@) == spec_recorded(
                    self.spec_keys().take(t as int),
                    self.spec_vals().take(t as int),
                    request_id@,
                ),
            decreases t,
        {
            proof {
                assert(self.spec_keys().take(t as int).drop_last() =~= self.spec_keys().take(
                    t as int - 1,
                ));
                assert(self.spec_vals().take(t as int).drop_last() =~= self.spec_vals().take(
                    t as int - 1,
                ));
                assert(self.spec_keys().take(t as int).last() == self.keys@[t as int - 1]@);
                assert(self.spec_vals().take(t as int).last() == self.vals@[t as int - 1]@);
            }
            if self.keys[t - 1].eq(request_id) {
                return Some(&self.vals[t - 1]);
            }
            t = t - 1;
        }
        proof {
            assert(self.spec_keys().take(0) =~= Seq::<Seq<char>>::empty());
        }
        None
    }

    /// Record the response a freshly executed command produced, so any
    /// retry of the same request id is answered from the table.
    pub fn record(&mut self, request_id: String, response: Vec<u8>)
        requires
            old(self).wf(),
        ensures
            final(self).wf(),
            final(self).spec_lookup(request_id@) == Some(response@),
            forall|rid: Seq<char>|
                rid != request_id@ ==> final(self).spec_lookup(rid) == old(self).spec_lookup(rid),
    {
        let ghost old_keys = self.spec_keys();
        let ghost old_vals = self.spec_vals();
        self.keys.push(request_id);
        self.vals.push(response);
        proof {
            assert(self.spec_keys().drop_last() =~= old_keys);
            assert(self.spec_vals().drop_last() =~= old_vals);
        }
    }

    /// Drop every record. Retention is bounded by log compaction: when a
    /// snapshot has made the entries that carried these requests
    /// collectable, their responses have been delivered and the records
    /// may be pruned with the entries.
    pub fn clear(&mut self)
        ensures
            final(self).wf(),
            forall|rid: Seq<char>| final(self).spec_lookup(rid) is None,
    {
        self.keys = Vec::new();
        self.vals = Vec::new();
    }
}

/// What applying a request does, given the table it meets: a request id
/// with a recorded response reuses it without executing; a fresh one
/// executes and answers with the fresh result.
pub open spec fn spec_apply_outcome(m: DedupMap, request_id: Seq<char>, fresh: Seq<u8>) -> (
    Seq<u8>,
    bool,
) {
    match m.spec_lookup(request_id) {
        Some(prior) => (prior, false),
        None => (fresh, true),
    }
}

/// Apply one committed request against the dedup table. `fresh_response`
/// is what executing the command would produce (and did produce, if the
/// second component of the result says the execution counts): an already
/// recorded request id is answered from the table instead, and nothing is
/// recorded twice.
pub fn apply_request(dedup: &mut DedupMap, request_id: &String, fresh_response: Vec<u8>) -> (r: (
    Vec<u8>,
    bool,
))
    requires
        old(dedup).wf(),
    ensures
        final(dedup).wf(),
        (r.0@, r.1) == spec_apply_outcome(*old(dedup), request_id@, fresh_response@),
        r.1 == (old(dedup).spec_lookup(request_id@) is None),
        !r.1 ==> *final(dedup) == *old(dedup),
        r.1 ==> final(dedup).spec_lookup(request_id@) == Some(fresh_response@),
        forall|rid: Seq<char>|
            rid != request_id@ ==> final(dedup).spec_lookup(rid) == old(dedup).spec_lookup(rid),
{
    let prior: Option<Vec<u8>> = match dedup.lookup(request_id) {
        Some(v) => Some(v.clone()),
        None => None,
    };
    match prior {
        Some(v) => (v, false),
        None => {
            let response = fresh_response.clone();
            dedup.record(request_id.clone(), fresh_response);
            (response, true)
        },
    }
}

/// Deduplication law: once a first submission of a request id has been
/// applied and its response recorded, any further submission of the same
/// request id does not execute the command again and is answered with the
/// first submission's response — at-most-once execution, equal responses.
pub proof fn lemma_second_submission_reuses(
    m: DedupMap,
    request_id: Seq<char>,
    first: Seq<u8>,
    fresh: Seq<u8>,
)
    requires
        m.wf(),
        m.spec_lookup(request_id) == Some(first),
    ensures
        spec_apply_outcome(m, request_id, fresh) == (first, false),
{
}

} // verus!
