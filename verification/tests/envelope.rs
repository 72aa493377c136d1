use proof_gateway::envelope::{decode, encode, DecodeError};

#[test]
fn encode_lays_out_prefixes_and_fields() {
    let envelope = encode(&[0xaa, 0xbb, 0xcc], &[0x01, 0x02]);
    assert_eq!(
        envelope,
        vec![3, 0, 0, 0, 0xaa, 0xbb, 0xcc, 2, 0, 0, 0, 0x01, 0x02]
    );
}

#[test]
fn encode_of_empty_fields_is_two_zero_prefixes() {
    assert_eq!(encode(&[], &[]), vec![0u8; 8]);
}

#[test]
fn length_prefix_is_little_endian() {
    let proof = vec![7u8; 0x0102_03];
    let envelope = encode(&proof, &[9]);
    assert_eq!(&envelope[0..4], &[0x03, 0x02, 0x01, 0x00]);
    assert_eq!(envelope.len(), 4 + 0x0102_03 + 4 + 1);
    assert_eq!(&envelope[4 + 0x0102_03..4 + 0x0102_03 + 4], &[1, 0, 0, 0]);
}

#[test]
fn decode_gives_back_what_was_encoded() {
    let proof: Vec<u8> = (0..=255u8).collect();
    let inputs: Vec<u8> = vec![1, 2, 3, 4, 5];
    assert_eq!(decode(&encode(&proof, &inputs)), Ok((proof, inputs)));
}

#[test]
fn decode_gives_back_empty_fields() {
    assert_eq!(decode(&encode(&[], &[])), Ok((vec![], vec![])));
    assert_eq!(decode(&encode(&[5], &[])), Ok((vec![5], vec![])));
    assert_eq!(decode(&encode(&[], &[6])), Ok((vec![], vec![6])));
}

#[test]
fn every_proper_prefix_is_truncated() {
    let envelope = encode(&[1, 2, 3], &[4, 5]);
    for cut in 0..envelope.len() {
        assert_eq!(decode(&envelope[..cut]), Err(DecodeError::Truncated));
    }
}

#[test]
fn trailing_bytes_are_malformed() {
    let mut envelope = encode(&[1, 2, 3], &[4, 5]);
    envelope.push(0);
    assert_eq!(decode(&envelope), Err(DecodeError::Malformed));
}

#[test]
fn oversized_declared_length_is_truncated() {
    assert_eq!(
        decode(&[0xff, 0xff, 0xff, 0xff, 1, 2, 3, 4, 0, 0, 0, 0]),
        Err(DecodeError::Truncated)
    );
    assert_eq!(
        decode(&[1, 0, 0, 0, 9, 0xff, 0xff, 0xff, 0x7f]),
        Err(DecodeError::Truncated)
    );
}

#[test]
fn high_prefix_byte_counts() {
    // 0x0100_0000 bytes announced, none present
    assert_eq!(decode(&[0, 0, 0, 1, 0, 0, 0, 0]), Err(DecodeError::Truncated));
}
