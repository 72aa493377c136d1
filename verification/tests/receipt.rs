use proof_gateway::receipt::{decode_image_id, perform_verification, HyleOutput, ReceiptError};

const IMAGE_ID: &str = "0123456789abcdefFEDCBA98765432100000000000000001ffffffff000000ff";

const IMAGE_WORDS: [u32; 8] = [
    0x0123_4567,
    0x89ab_cdef,
    0xfedc_ba98,
    0x7654_3210,
    0,
    1,
    0xffff_ffff,
    0xff,
];

fn output() -> HyleOutput {
    HyleOutput {
        initial_state: vec![1, 2, 3],
        next_state: vec![4, 5],
    }
}

#[test]
fn image_id_is_read_word_by_word() {
    assert_eq!(decode_image_id(IMAGE_ID), Some(IMAGE_WORDS));
}

#[test]
fn image_id_is_what_the_standard_parser_reads() {
    let mut expected = [0u32; 8];
    for i in 0..8 {
        expected[i] = u32::from_str_radix(&IMAGE_ID[8 * i..8 * i + 8], 16).unwrap();
    }
    assert_eq!(decode_image_id(IMAGE_ID), Some(expected));
}

#[test]
fn image_id_word_may_start_with_plus() {
    let id = "+0000001+fffffff+ABCDEF0+000000000000000000000000000000000000000";
    assert_eq!(id.len(), 64);
    assert_eq!(
        decode_image_id(id),
        Some([1, 0x0fff_ffff, 0x0abc_def0, 0, 0, 0, 0, 0])
    );
}

#[test]
fn image_id_rest_is_not_looked_at() {
    let id = format!("{}zz\u{e9}", IMAGE_ID);
    assert_eq!(decode_image_id(&id), Some(IMAGE_WORDS));
}

#[test]
fn short_image_id_is_refused() {
    assert_eq!(decode_image_id(""), None);
    assert_eq!(decode_image_id(&IMAGE_ID[..63]), None);
}

#[test]
fn image_id_with_other_characters_is_refused() {
    for bad in ["g", "-", " ", "_", "x", "\u{e9}"] {
        for at in [0usize, 7, 8, 40, 62] {
            let mut id = String::from(&IMAGE_ID[..at]);
            id.push_str(bad);
            id.push_str(&IMAGE_ID[at + 1..]);
            assert_eq!(decode_image_id(&id), None, "{:?} at {}", bad, at);
        }
    }
}

#[test]
fn plus_is_a_sign_only_at_the_start_of_a_word() {
    let id = "0+0000000000000000000000000000000000000000000000000000000000000000";
    assert_eq!(decode_image_id(&id[..64]), None);
    let id = "++000000000000000000000000000000000000000000000000000000000000000";
    assert_eq!(decode_image_id(&id[..64]), None);
}

#[test]
fn matching_states_give_the_image_words() {
    assert_eq!(
        perform_verification(IMAGE_ID, &output(), &[1, 2, 3], &[4, 5]),
        Ok(IMAGE_WORDS)
    );
}

#[test]
fn initial_state_is_compared_first() {
    assert_eq!(
        perform_verification(IMAGE_ID, &output(), &[1, 2], &[4, 5]),
        Err(ReceiptError::InitialStateMismatch)
    );
    assert_eq!(
        perform_verification("bad", &output(), &[1, 2, 4], &[9]),
        Err(ReceiptError::InitialStateMismatch)
    );
}

#[test]
fn next_state_is_compared_second() {
    assert_eq!(
        perform_verification(IMAGE_ID, &output(), &[1, 2, 3], &[4, 5, 6]),
        Err(ReceiptError::NextStateMismatch)
    );
    assert_eq!(
        perform_verification("bad", &output(), &[1, 2, 3], &[]),
        Err(ReceiptError::NextStateMismatch)
    );
}

#[test]
fn image_id_is_decoded_last() {
    assert_eq!(
        perform_verification("bad", &output(), &[1, 2, 3], &[4, 5]),
        Err(ReceiptError::InvalidImageId)
    );
}

#[test]
fn empty_states_match() {
    assert_eq!(
        perform_verification(IMAGE_ID, &HyleOutput::default(), &[], &[]),
        Ok(IMAGE_WORDS)
    );
}
