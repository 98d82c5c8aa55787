use lolraft::types::{Ballot, Clock, Entry};
use lolraft::{ballot_codec, entry_codec};

#[test]
fn entry_round_trip() {
    let e = Entry {
        prev_clock: Clock { term: 2, index: 9 },
        this_clock: Clock { term: 3, index: 10 },
        command: vec![1, 2, 3, 250],
    };
    let bytes = entry_codec::ser(e);
    assert!(!bytes.is_empty());
    let back = entry_codec::desr(&bytes).expect("entry decodes");
    assert_eq!(back.prev_clock, Clock { term: 2, index: 9 });
    assert_eq!(back.this_clock, Clock { term: 3, index: 10 });
    assert_eq!(back.command, vec![1, 2, 3, 250]);
}

#[test]
fn entry_with_empty_command_round_trips() {
    let e = Entry {
        prev_clock: Clock { term: 0, index: 0 },
        this_clock: Clock { term: 1, index: 1 },
        command: vec![],
    };
    let bytes = entry_codec::ser(e);
    let back = entry_codec::desr(&bytes).expect("entry decodes");
    assert_eq!(back.this_clock, Clock { term: 1, index: 1 });
    assert!(back.command.is_empty());
}

#[test]
fn garbage_bytes_do_not_decode_to_an_entry() {
    // far too short for the three fixed-width fields
    assert!(entry_codec::desr(&[1, 2, 3]).is_none());
}

#[test]
fn ballot_round_trip_with_vote() {
    let b = Ballot { cur_term: 4, voted_for: Some("node-17".to_string()) };
    let bytes = ballot_codec::ser(b);
    let back = ballot_codec::desr(&bytes).expect("ballot decodes");
    assert_eq!(back.cur_term, 4);
    assert_eq!(back.voted_for.as_deref(), Some("node-17"));
}

#[test]
fn ballot_round_trip_without_vote() {
    let b = Ballot { cur_term: 0, voted_for: None };
    let bytes = ballot_codec::ser(b);
    let back = ballot_codec::desr(&bytes).expect("ballot decodes");
    assert_eq!(back.cur_term, 0);
    assert!(back.voted_for.is_none());
}

#[test]
fn entry_bytes_are_fixed_width_little_endian() {
    let e = Entry {
        prev_clock: Clock { term: 2, index: 9 },
        this_clock: Clock { term: 0x0102030405060708, index: 10 },
        command: vec![7, 8],
    };
    let bytes = entry_codec::ser(e);
    let mut expected: Vec<u8> = Vec::new();
    expected.extend_from_slice(&2u64.to_le_bytes());
    expected.extend_from_slice(&10u64.to_le_bytes());
    expected.extend_from_slice(&0x0102030405060708u64.to_le_bytes());
    expected.extend_from_slice(&2u64.to_le_bytes());
    expected.extend_from_slice(&[7, 8]);
    assert_eq!(bytes, expected);
}
