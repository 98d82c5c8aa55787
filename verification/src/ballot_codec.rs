//! The on-disk encoding of a lane's ballot.
//!
//! A stored record carries the current term and the vote, if any. The byte
//! format is bincode's fixed-width encoding of that record, named here by
//! [`ballot_encoding`]; encoding and decoding call bincode and are
//! verified against that name.

use vstd::prelude::*;

use crate::types::Ballot;
use crate::types::voted_for_view;

verus! {

/// A vote record as a character sequence, `None` when no vote is held.
pub open spec fn opt_str_view(o: Option<String>) -> Option<Seq<char>> {
    match o {
        Some(s) => Some(s@),
        None => None,
    }
}

/// The bytes bincode produces for a ballot record `(term, voted_for)`: a
/// pure function of the two fields.
pub uninterp spec fn ballot_encoding(term: u64, voted_for: Option<Seq<char>>) -> Seq<u8>;

/// Relies on bincode::serialize: the bytes are a function of the record's
/// fields alone, deserialize inverts them (see `decode_ballot_record`),
/// and serializing this record shape — a fixed-width integer and a
/// length-prefixed optional string into a growable buffer — has no failure
/// path, so the call cannot return an error.
#[verifier::external_body]
fn encode_ballot_record(term: u64, voted_for: &Option<String>) -> (r: Vec<u8>)
    ensures
        r@ == ballot_encoding(term, opt_str_view(*voted_for)),
{
    bincode::serialize(&(term, voted_for)).unwrap()
}

/// Relies on bincode::deserialize: bytes that bincode::serialize produced
/// for a record decode back to exactly that record.
#[verifier::external_body]
fn decode_ballot_record(bin: &[u8]) -> (r: Option<(u64, Option<String>)>)
    ensures
        forall|t: u64, vf: Option<Seq<char>>|
            bin@ == #[trigger] ballot_encoding(t, vf) ==> (match r {
                Some(p) => p.0 == t && opt_str_view(p.1) == vf,
                None => false,
            }),
{
    bincode::deserialize::<(u64, Option<String>)>(bin).ok()
}

/// Encode a ballot for the ballot store; this record shape always encodes.
pub fn ser(x: Ballot) -> (r: Vec<u8>)
    ensures
        r@ == ballot_encoding(x.cur_term, voted_for_view(x)),
{
    encode_ballot_record(x.cur_term, &x.voted_for)
}

/// Decode a stored ballot record: bytes that [`ser`] produced for a ballot
/// decode back to that ballot.
pub fn desr(bin: &[u8]) -> (r: Option<Ballot>)
    ensures
        forall|t: u64, vf: Option<Seq<char>>|
            bin@ == #[trigger] ballot_encoding(t, vf) ==> (match r {
                Some(b) => b.cur_term == t && voted_for_view(b) == vf,
                None => false,
            }),
{
    match decode_ballot_record(bin) {
        Some(p) => Some(Ballot { cur_term: p.0, voted_for: p.1 }),
        None => None,
    }
}

} // verus!
