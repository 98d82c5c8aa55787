//! Snapshot transfer framing.
//!
//! A follower whose required log prefix has been compacted away receives
//! the application state as of a snapshot index instead, shipped as a
//! stream of byte chunks. The state itself is opaque to the core; what is
//! verified here is the framing — cutting the bytes into bounded chunks
//! and reassembling exactly the original bytes on the other side. After
//! the follower installs the snapshot
//! ([`crate::command_log::CommandLog::install_snapshot`]), replication
//! resumes just after the snapshot index.

use vstd::prelude::*;

verus! {

/// A request for a snapshot of one lane's state as of an index.
#[derive(Clone, Copy, PartialEq, Eq, Structural, Debug)]
pub struct GetSnapshotRequest {
    pub lane_id: u32,
    pub index: u64,
}

/// The chunk column as byte sequences.
pub open spec fn chunks_view(chunks: Seq<Vec<u8>>) -> Seq<Seq<u8>> {
    chunks.map_values(|c: Vec<u8>| c@)
}

/// Cut snapshot bytes into chunks of at most `chunk_size` bytes each.
/// Nothing is lost, reordered or invented: the chunks concatenate back to
/// exactly the input, and no chunk is empty.
pub fn chunk_bytes(data: &Vec<u8>, chunk_size: usize) -> (r: Vec<Vec<u8>>)
    requires
        chunk_size >= 1,
    ensures
        chunks_view(r@).flatten() == data@,
        forall|k: int|
            0 <= k < r@.len() ==> 1 <= (#[trigger] r@[k])@.len() <= chunk_size,
{
    let mut out: Vec<Vec<u8>> = Vec::new();
    let mut pos: usize = 0;
    proof {
        assert(chunks_view(out@) =~= Seq::<Seq<u8>>::empty());
        assert(chunks_view(out@).flatten() =~= data@.take(0));
    }
    while pos < data.len()
        invariant
            chunk_size >= 1,
            0 <= pos <= data@.len(),
            chunks_view(out@).flatten() == data@.take(pos as int),
            forall|k: int|
                0 <= k < out@.len() ==> 1 <= (#[trigger] out@[k])@.len() <= chunk_size,
        decreases data@.len() - pos,
    {
        let end: usize = if data.len() - pos >= chunk_size {
            pos + chunk_size
        } else {
            data.len()
        };
        let mut chunk: Vec<u8> = Vec::new();
        let mut i: usize = pos;
        while i < end
            invariant
                pos <= i <= end,
                end <= data@.len(),
                chunk@ == data@.subrange(pos as int, i as int),
            decreases end - i,
        {
            chunk.push(data[i]);
            proof {
                assert(chunk@ =~= data@.subrange(pos as int, i as int + 1));
            }
            i = i + 1;
        }
        let ghost out_before = chunks_view(out@);
        let ghost chunk_view = chunk@;
        out.push(chunk);
        proof {
            assert(chunks_view(out@) =~= out_before.push(chunk_view));
            out_before.lemma_flatten_push(chunk_view);
            assert(data@.take(pos as int) + data@.subrange(pos as int, end as int) =~= data@.take(
                end as int,
            ));
            assert(chunks_view(out@).flatten() =~= data@.take(end as int));
        }
        pos = end;
    }
    proof {
        assert(data@.take(data@.len() as int) =~= data@);
    }
    out
}

/// Reassemble a chunk stream: the result is exactly the concatenation of
/// the chunks, in order.
pub fn assemble_chunks(chunks: &Vec<Vec<u8>>) -> (r: Vec<u8>)
    ensures
        r@ == chunks_view(chunks@).flatten(),
{
    let mut out: Vec<u8> = Vec::new();
    let mut t: usize = 0;
    proof {
        assert(chunks_view(chunks@.take(0)) =~= Seq::<Seq<u8>>::empty());
        assert(out@ =~= chunks_view(chunks@.take(0)).flatten());
    }
    while t < chunks.len()
        invariant
            0 <= t <= chunks@.len(),
            out@ == chunks_view(chunks@.take(t as int)).flatten(),
        decreases chunks@.len() - t,
    {
        let ghost before = chunks_view(chunks@.take(t as int));
        let ghost out_before = out@;
        let n = chunks[t].len();
        let mut i: usize = 0;
        while i < n
            invariant
                0 <= i <= n,
                t < chunks@.len(),
                n == chunks@[t as int]@.len(),
                out@ == out_before + chunks@[t as int]@.take(i as int),
            decreases n - i,
        {
            out.push(chunks[t][i]);
            proof {
                assert(out@ =~= out_before + chunks@[t as int]@.take(i as int + 1));
            }
            i = i + 1;
        }
        proof {
            assert(chunks@[t as int]@.take(n as int) =~= chunks@[t as int]@);
            assert(chunks_view(chunks@.take(t as int + 1)) =~= before.push(chunks@[t as int]@));
            before.lemma_flatten_push(chunks@[t as int]@);
            assert(out@ =~= chunks_view(chunks@.take(t as int + 1)).flatten());
        }
        t = t + 1;
    }
    proof {
        assert(chunks@.take(chunks@.len() as int) =~= chunks@);
    }
    out
}

} // verus!
