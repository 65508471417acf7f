use ledger_migration::error::MigrationError;
use ledger_migration::ledger::{
    encode_chunk, is_acceptance, judge, service_address, transmission_outcome, CallStatus, Outcome,
    MAX_REPLY_LEN, REPLACE_BLOCKS,
};

/// A message without a type table that carries `count` values of type null.
fn nulls(count: usize) -> Vec<u8> {
    let mut message = b"DIDL\x00".to_vec();
    let mut rest = count;
    loop {
        let low = (rest & 0x7f) as u8;
        rest >>= 7;
        if rest == 0 {
            message.push(low);
            break;
        }
        message.push(low | 0x80);
    }
    message.extend(std::iter::repeat(0x7fu8).take(count));
    message
}

#[test]
fn method_name_is_replace_blocks() {
    assert_eq!(REPLACE_BLOCKS, "replace_blocks");
}

#[test]
fn chunk_is_encoded_as_a_list_of_byte_lists() {
    let chunk = vec![vec![1u8, 2], vec![3u8]];
    let message = encode_chunk(&chunk).unwrap();
    let expected: Vec<u8> = vec![
        b'D', b'I', b'D', b'L', 2, 0x6d, 1, 0x6d, 0x7b, 1, 0, 2, 2, 1, 2, 1, 3,
    ];
    assert_eq!(message, expected);
    assert_ne!(message, chunk.concat());
}

#[test]
fn encoded_chunk_decodes_to_the_same_blocks() {
    let chunk = vec![vec![0u8; 3], Vec::new(), vec![255u8, 7, 9, 11]];
    let message = encode_chunk(&chunk).unwrap();
    let back: Vec<Vec<u8>> = candid::decode_one(&message).unwrap();
    assert_eq!(back, chunk);
}

#[test]
fn empty_chunk_is_encoded_as_an_empty_list() {
    let chunk: Vec<Vec<u8>> = Vec::new();
    let message = encode_chunk(&chunk).unwrap();
    let back: Vec<Vec<u8>> = candid::decode_one(&message).unwrap();
    assert!(back.is_empty());
}

#[test]
fn equal_chunks_have_equal_encodings() {
    let chunk = vec![vec![9u8, 8, 7], vec![6u8]];
    let again = chunk.clone();
    assert_eq!(encode_chunk(&chunk), encode_chunk(&again));
}

#[test]
fn empty_message_is_the_success_marker() {
    assert!(is_acceptance(b"DIDL\x00\x00"));
    assert!(is_acceptance(&candid::encode_args(()).unwrap()));
    assert!(is_acceptance(&candid::encode_one(()).unwrap()));
}

#[test]
fn other_replies_are_not_the_success_marker() {
    assert!(!is_acceptance(b""));
    assert!(!is_acceptance(b"not candid"));
    assert!(!is_acceptance(&candid::encode_one("refused").unwrap()));
    assert!(!is_acceptance(&candid::encode_one(false).unwrap()));
    assert!(!is_acceptance(b"DIDL\x00\x00\x01"));
}

#[test]
fn reply_with_a_type_table_is_not_decoded() {
    let reply = b"DIDL\x01\x6d\x7b\x00";
    assert!(candid::decode_one::<()>(reply).is_ok());
    assert!(!is_acceptance(reply));
    let status = CallStatus::Replied(reply.to_vec());
    assert_eq!(transmission_outcome(&status), Outcome::Rejected);
}

#[test]
fn reply_with_a_self_referring_type_is_not_decoded() {
    let mut reply = b"DIDL\x01\x6e\x00\x02\x7f\x00".to_vec();
    reply.extend(std::iter::repeat(1u8).take(64));
    assert!(!is_acceptance(&reply));
}

#[test]
fn reply_with_a_vast_list_of_nothing_is_not_decoded() {
    let mut reply = b"DIDL\x01\x6d\x7f\x02\x7f\x00".to_vec();
    reply.extend_from_slice(&[0xff, 0xff, 0xff, 0xff, 0xff, 0xff, 0xff, 0xff, 0x7f]);
    assert!(!is_acceptance(&reply));
}

#[test]
fn reply_of_primitive_values_after_the_unit_is_decoded() {
    assert!(is_acceptance(&nulls(1)));
    assert!(is_acceptance(&nulls(3)));
    assert!(is_acceptance(&candid::encode_args(((), 7u8, "seen")).unwrap()));
}

#[test]
fn reply_up_to_the_length_bound_is_decoded() {
    let longest = nulls(MAX_REPLY_LEN - 8);
    assert_eq!(longest.len(), MAX_REPLY_LEN);
    assert_eq!(MAX_REPLY_LEN, 65_535);
    assert!(is_acceptance(&longest));
}

#[test]
fn reply_over_the_length_bound_is_not_decoded() {
    let too_long = nulls(MAX_REPLY_LEN - 7);
    assert_eq!(too_long.len(), MAX_REPLY_LEN + 1);
    assert!(candid::decode_one::<()>(&too_long).is_ok());
    assert!(!is_acceptance(&too_long));
    assert!(!is_acceptance(&nulls(70_000)));
}

#[test]
fn reply_shorter_than_its_header_is_not_decoded() {
    assert!(!is_acceptance(b"DIDL"));
    assert!(!is_acceptance(b"DID"));
    assert!(!is_acceptance(b"DIDL\x00"));
}

#[test]
fn timeout_and_rejection_are_told_apart() {
    let timed_out = transmission_outcome(&CallStatus::TimedOut);
    let rejected = transmission_outcome(&CallStatus::Replied(
        candid::encode_one("refused").unwrap(),
    ));
    assert_eq!(timed_out, Outcome::TimedOut);
    assert_eq!(rejected, Outcome::Rejected);
    assert_ne!(timed_out, rejected);
    assert_eq!(timed_out.error(), Some(MigrationError::TransmissionTimeout));
    assert_eq!(rejected.error(), Some(MigrationError::TransmissionRejected));
}

#[test]
fn accepted_reply_gives_accepted_outcome() {
    let status = CallStatus::Replied(b"DIDL\x00\x00".to_vec());
    assert_eq!(transmission_outcome(&status), Outcome::Accepted);
    assert_eq!(Outcome::Accepted.error(), None);
}

#[test]
fn refused_call_is_a_rejection() {
    assert_eq!(transmission_outcome(&CallStatus::Refused), Outcome::Rejected);
}

#[test]
fn undecodable_reply_is_a_rejection() {
    let status = CallStatus::Replied(vec![1, 2, 3]);
    assert_eq!(transmission_outcome(&status), Outcome::Rejected);
    let empty = CallStatus::Replied(Vec::new());
    assert_eq!(transmission_outcome(&empty), Outcome::Rejected);
}

#[test]
fn judge_goes_by_status_and_decoded_reply() {
    let replied = CallStatus::Replied(vec![1]);
    assert_eq!(judge(&replied, true), Outcome::Accepted);
    assert_eq!(judge(&replied, false), Outcome::Rejected);
    assert_eq!(judge(&CallStatus::TimedOut, true), Outcome::TimedOut);
    assert_eq!(judge(&CallStatus::TimedOut, false), Outcome::TimedOut);
    assert_eq!(judge(&CallStatus::Refused, true), Outcome::Rejected);
    assert_eq!(judge(&CallStatus::Refused, false), Outcome::Rejected);
}

#[test]
fn principal_text_is_read_into_bytes() {
    assert_eq!(service_address("aaaaa-aa"), Ok(Vec::new()));
    assert_eq!(service_address("2vxsx-fae"), Ok(vec![4u8]));
    assert_eq!(
        service_address("ryjl3-tyaaa-aaaaa-aaaba-cai"),
        Ok(vec![0u8, 0, 0, 0, 0, 0, 0, 2, 1, 1])
    );
}

#[test]
fn malformed_principal_is_a_client_setup_failure() {
    assert_eq!(service_address("not a principal"), Err(MigrationError::ClientSetup));
    assert_eq!(service_address(""), Err(MigrationError::ClientSetup));
    assert_eq!(service_address("ryjl3-tyaaa-aaaaa-aaaba-caj"), Err(MigrationError::ClientSetup));
    assert_eq!(service_address("ryjl3tyaaaaaaaaaaabacai"), Err(MigrationError::ClientSetup));
}
