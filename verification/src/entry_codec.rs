//! The on-disk encoding of a log entry.
//!
//! A stored record carries the previous position's term, the entry's own
//! index and term, and the command bytes; the previous index is not
//! stored, since a well-formed entry sits directly after its predecessor.
//! The byte format is bincode's fixed-width little-endian encoding of that
//! record — three 8-byte words, an 8-byte length, then the command bytes —
//! stated exactly by [`entry_encoding`]; encoding and decoding call
//! bincode and are verified against that statement.

use vstd::prelude::*;

use crate::types::Clock;
use crate::types::Entry;

verus! {

/// A 64-bit word as its eight little-endian bytes.
pub open spec fn u64_le_bytes(x: u64) -> Seq<u8> {
    seq![
        (x & 0xff) as u8,
        ((x >> 8) & 0xff) as u8,
        ((x >> 16) & 0xff) as u8,
        ((x >> 24) & 0xff) as u8,
        ((x >> 32) & 0xff) as u8,
        ((x >> 40) & 0xff) as u8,
        ((x >> 48) & 0xff) as u8,
        ((x >> 56) & 0xff) as u8,
    ]
}

/// The bytes bincode's fixed-width little-endian configuration produces
/// for an entry record `(prev_term, cur_index, cur_term, command)`: the
/// three words, the command length as a word, then the command bytes.
pub open spec fn entry_encoding(
    prev_term: u64,
    cur_index: u64,
    cur_term: u64,
    command: Seq<u8>,
) -> Seq<u8> {
    u64_le_bytes(prev_term) + u64_le_bytes(cur_index) + u64_le_bytes(cur_term) + u64_le_bytes(
        command.len() as u64,
    ) + command
}

/// Relies on bincode::serialize with its default configuration: a tuple
/// serializes as its fields in order, a `u64` as eight little-endian
/// bytes, a byte vector as a `u64` length followed by the raw bytes; and
/// serializing this record shape into a growable buffer has no failure
/// path, so the call cannot return an error.
#[verifier::external_body]
fn encode_entry_record(prev_term: u64, cur_index: u64, cur_term: u64, command: &Vec<u8>) -> (r: Vec<
    u8,
>)
    ensures
        r@ == entry_encoding(prev_term, cur_index, cur_term, command@),
{
    bincode::serialize(&(prev_term, cur_index, cur_term, command)).unwrap()
}

/// Relies on bincode::deserialize: bytes laid out as [`entry_encoding`]
/// describes decode back to exactly that record.
#[verifier::external_body]
fn decode_entry_record(bin: &[u8]) -> (r: Option<(u64, u64, u64, Vec<u8>)>)
    ensures
        forall|a: u64, b: u64, c: u64, d: Seq<u8>|
            d.len() <= u64::MAX && bin@ == #[trigger] entry_encoding(a, b, c, d) ==> (match r {
                Some(t) => t.0 == a && t.1 == b && t.2 == c && t.3@ == d,
                None => false,
            }),
{
    bincode::deserialize::<(u64, u64, u64, Vec<u8>)>(bin).ok()
}

/// Encode an entry for the log store; this record shape always encodes.
pub fn ser(x: Entry) -> (r: Vec<u8>)
    ensures
        r@ == entry_encoding(x.prev_clock.term, x.this_clock.index, x.this_clock.term, x.command@),
{
    encode_entry_record(x.prev_clock.term, x.this_clock.index, x.this_clock.term, &x.command)
}

/// Decode a stored entry record. Bytes that [`ser`] produced for an entry
/// with index at least 1 decode back to that entry, its previous index
/// reconstructed from the structural invariant; a stored index of 0 names
/// no valid entry and is refused.
pub fn desr(bin: &[u8]) -> (r: Option<Entry>)
    ensures
        forall|a: u64, b: u64, c: u64, d: Seq<u8>|
            d.len() <= u64::MAX && bin@ == #[trigger] entry_encoding(a, b, c, d) && b >= 1 ==> (
            match r {
                Some(e) => e.prev_clock == (Clock { term: a, index: (b - 1) as u64 })
                    && e.this_clock == (Clock { term: c, index: b }) && e.command@ == d,
                None => false,
            }),
        forall|a: u64, c: u64, d: Seq<u8>|
            d.len() <= u64::MAX && bin@ == #[trigger] entry_encoding(a, 0, c, d) ==> r is None,
{
    match decode_entry_record(bin) {
        Some(t) => {
            if t.1 >= 1 {
                Some(
                    Entry {
                        prev_clock: Clock { term: t.0, index: t.1 - 1 },
                        this_clock: Clock { term: t.2, index: t.1 },
                        command: t.3,
                    },
                )
            } else {
                None
            }
        },
        None => None,
    }
}

} // verus!
