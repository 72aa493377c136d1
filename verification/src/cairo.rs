//! Proofs of program runs, as they are exchanged with the proof system.
//!
//! The proof system itself is not part of this library. It is handed the
//! trace and the memory of a run and answers with a proof and its public
//! inputs, both serialized; it is handed a proof and public inputs and answers
//! whether the proof holds. The functions here prepare what it is handed and
//! make a result of what it answers.

use crate::envelope::{
    decode, decoding, encode, encoding, fits_envelope, DecodeError, MAX_FIELD_LEN,
};
use crate::error::VerifierError;
use vstd::prelude::*;

verus! {

/// Something that happened to a proof. It carries no data.
#[derive(Clone, Copy, Debug, Default, PartialEq, Eq)]
pub struct Event {}

/// A proof and the public inputs it is to be checked against.
#[derive(Clone, Debug, PartialEq, Eq)]
pub struct Claim {
    pub proof: Vec<u8>,
    pub inputs: Vec<u8>,
}

impl View for Claim {
    type V = (Seq<u8>, Seq<u8>);

    open spec fn view(&self) -> (Seq<u8>, Seq<u8>) {
        (self.proof@, self.inputs@)
    }
}

/// The message of every failure to read or to accept a proof.
pub open spec fn rejection_text() -> Seq<char> {
    "Error reading proof from file: none"@
}

/// The message of a failure to generate a proof.
pub open spec fn generation_text() -> Seq<char> {
    "Error generation prover args"@
}

/// Reads an envelope and returns the claim that the proof system is to check.
///
/// Fails, with the message `rejection_text`, exactly when the buffer is no
/// envelope.
pub fn verify_proof(proof: &Vec<u8>) -> (r: Result<Claim, VerifierError>)
    ensures
        match r {
            Ok(claim) => decoding(proof@) == Ok::<(Seq<u8>, Seq<u8>), DecodeError>(claim@),
            Err(e) => decoding(proof@) is Err && e@ == rejection_text(),
        },
{
    match decode(proof.as_slice()) {
        Ok((proof, inputs)) => Ok(Claim { proof, inputs }),
        Err(_) => Err(VerifierError("Error reading proof from file: none".to_owned())),
    }
}

/// Makes a result of the proof system's answer to a claim: `Ok` where it
/// accepted, and a failure with the message `rejection_text` where it did not.
pub fn verdict(accepted: bool) -> (r: Result<(), VerifierError>)
    ensures
        r is Ok <==> accepted,
        r matches Err(e) ==> e@ == rejection_text(),
{
    if accepted {
        Ok(())
    } else {
        Err(VerifierError("Error reading proof from file: none".to_owned()))
    }
}

/// Packs what the proof system generated into an envelope.
///
/// `generated` is the proof system's answer: the serialized proof and public
/// inputs, or `None` where it produced no proof. Fails, with the message
/// `generation_text`, exactly when there is no proof or when a field is
/// longer than an envelope can hold.
pub fn prove(generated: Option<(Vec<u8>, Vec<u8>)>) -> (r: Result<Vec<u8>, VerifierError>)
    ensures
        match r {
            Ok(envelope) => generated matches Some((proof, inputs)) && fits_envelope(
                proof@,
                inputs@,
            ) && envelope@ == encoding(proof@, inputs@),
            Err(e) => e@ == generation_text() && !(generated matches Some((proof, inputs))
                && fits_envelope(proof@, inputs@)),
        },
{
    match generated {
        Some((proof, inputs)) => {
            if proof.len() <= MAX_FIELD_LEN && inputs.len() <= MAX_FIELD_LEN {
                Ok(encode(proof.as_slice(), inputs.as_slice()))
            } else {
                Err(VerifierError("Error generation prover args".to_owned()))
            }
        },
        None => Err(VerifierError("Error generation prover args".to_owned())),
    }
}

} // verus!
