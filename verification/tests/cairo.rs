use proof_gateway::cairo::{prove, verdict, verify_proof, Claim, Event};
use proof_gateway::error::VerifierError;

#[test]
fn prove_packs_proof_and_inputs() {
    assert_eq!(
        prove(Some((vec![0xde, 0xad, 0xbe], vec![0xef, 0x01]))),
        Ok(vec![3, 0, 0, 0, 0xde, 0xad, 0xbe, 2, 0, 0, 0, 0xef, 0x01])
    );
}

#[test]
fn prove_without_a_proof_fails() {
    assert_eq!(
        prove(None),
        Err(VerifierError("Error generation prover args".to_string()))
    );
}

#[test]
fn verify_proof_unpacks_the_claim() {
    let envelope = vec![3, 0, 0, 0, 0xde, 0xad, 0xbe, 2, 0, 0, 0, 0xef, 0x01];
    assert_eq!(
        verify_proof(&envelope),
        Ok(Claim {
            proof: vec![0xde, 0xad, 0xbe],
            inputs: vec![0xef, 0x01]
        })
    );
}

#[test]
fn verify_proof_refuses_short_buffers() {
    let expected = Err(VerifierError(
        "Error reading proof from file: none".to_string(),
    ));
    assert_eq!(verify_proof(&vec![]), expected);
    assert_eq!(verify_proof(&vec![0, 0, 0, 0, 0, 0, 0]), expected);
    assert_eq!(verify_proof(&vec![5, 0, 0, 0, 1, 2, 3, 4]), expected);
}

#[test]
fn verify_proof_refuses_missing_inputs() {
    // the inputs are announced with 2 bytes, one is there
    let envelope = vec![1, 0, 0, 0, 9, 2, 0, 0, 0, 7];
    assert!(verify_proof(&envelope).is_err());
}

#[test]
fn verify_proof_reads_what_prove_wrote() {
    let proof: Vec<u8> = (0..200u8).collect();
    let inputs: Vec<u8> = vec![9; 33];
    let envelope = prove(Some((proof.clone(), inputs.clone()))).unwrap();
    assert_eq!(verify_proof(&envelope), Ok(Claim { proof, inputs }));
}

#[test]
fn verdict_follows_the_answer() {
    assert_eq!(verdict(true), Ok(()));
    assert_eq!(
        verdict(false),
        Err(VerifierError(
            "Error reading proof from file: none".to_string()
        ))
    );
}

#[test]
fn verifier_error_message_is_its_text() {
    let error = VerifierError("something".to_string());
    assert_eq!(error.message(), "something");
    assert_eq!(error.0, "something");
}

#[test]
fn event_is_empty() {
    assert_eq!(Event {}, Event::default());
}
