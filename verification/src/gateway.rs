//! The gateway: what is done with a request between its upload and its
//! answer.
//!
//! A generation request uploads the fields `trace` and `memory`; a
//! verification request uploads the field `proof`, an envelope. Every field
//! is a zip archive. The gateway does its work in two steps, with the proof
//! system called in between by whoever drives it:
//!
//! - generation: `begin_generation` finds and decompresses the two fields;
//!   the proof system generates; `finish_generation` packs the proof into an
//!   envelope and writes the envelope as text.
//! - verification: `begin_verification` finds, decompresses and decodes the
//!   envelope; the proof system verifies; `finish_verification` makes the
//!   verdict, and `response_token` the token that is sent back.
//!
//! Each step either hands on what the next one needs or ends the request with
//! a tagged failure.

use crate::archive::{decompress_zip_data, decompressed};
use crate::cairo::{prove, rejection_text, verdict, Claim};
use crate::envelope::{decode, decoding, encoding, fits_envelope, DecodeError};
use crate::error::{GatewayError, VerifierError};
use vstd::prelude::*;

verus! {

/// One uploaded field, as it arrived: its name and its compressed content.
#[derive(Clone, Debug, PartialEq, Eq)]
pub struct Upload {
    pub name: String,
    pub data: Vec<u8>,
}

/// The raw artifacts of a generation request, ready for the proof system.
#[derive(Clone, Debug, PartialEq, Eq)]
pub struct GenerationJob {
    pub trace: Vec<u8>,
    pub memory: Vec<u8>,
}

impl View for GenerationJob {
    type V = (Seq<u8>, Seq<u8>);

    open spec fn view(&self) -> (Seq<u8>, Seq<u8>) {
        (self.trace@, self.memory@)
    }
}

/// The outcome of a verification that ran to its end.
#[derive(Clone, Debug, PartialEq, Eq)]
pub enum VerificationResult {
    /// The proof system accepted the proof.
    Verified,
    /// The proof system did not accept the proof. The reason is for logs.
    Rejected(VerifierError),
}

/// The standard base64 text of a byte sequence, with padding, as the `base64`
/// crate writes it.
pub uninterp spec fn base64_text(bytes: Seq<u8>) -> Seq<char>;

/// Whether the text of `len` bytes can be held in memory: four characters
/// for every three bytes, begun or complete.
pub open spec fn fits_text(len: nat) -> bool {
    len / 3 * 4 + 4 <= isize::MAX
}

/// The content of the field called `name`: that of the last upload under
/// this name, or `None` where there is no such upload.
pub open spec fn field_data(fields: Seq<Upload>, name: Seq<char>) -> Option<Seq<u8>>
    decreases fields.len(),
{
    if fields.len() == 0 {
        None
    } else if fields.last().name@ == name {
        Some(fields.last().data@)
    } else {
        field_data(fields.drop_last(), name)
    }
}

/// What a generation request comes to before the proof system is called:
/// the decompressed trace and memory, or the failure that ends the request.
pub open spec fn generation_job(fields: Seq<Upload>) -> Result<(Seq<u8>, Seq<u8>), GatewayError> {
    match (field_data(fields, "trace"@), field_data(fields, "memory"@)) {
        (Some(trace), Some(memory)) => match (decompressed(trace), decompressed(memory)) {
            (Some(raw_trace), Some(raw_memory)) => Ok((raw_trace, raw_memory)),
            _ => Err(GatewayError::Corrupt),
        },
        _ => Err(GatewayError::MissingField),
    }
}

/// What a verification request comes to before the proof system is called:
/// the proof and public inputs of the uploaded envelope, or the failure that
/// ends the request.
pub open spec fn verification_claim(fields: Seq<Upload>) -> Result<
    (Seq<u8>, Seq<u8>),
    GatewayError,
> {
    match field_data(fields, "proof"@) {
        Some(data) => match decompressed(data) {
            Some(raw) => match decoding(raw) {
                Ok(claim) => Ok(claim),
                Err(DecodeError::Truncated) => Err(GatewayError::Truncated),
                Err(DecodeError::Malformed) => Err(GatewayError::Malformed),
            },
            None => Err(GatewayError::Corrupt),
        },
        None => Err(GatewayError::MissingField),
    }
}

/// What a generation request is answered with, given the proof system's
/// answer: the text of the envelope, or `Generation` where there is no proof
/// or none that an envelope, or its text in memory, can hold.
pub open spec fn generation_reply(generated: Option<(Seq<u8>, Seq<u8>)>) -> Result<
    Seq<char>,
    GatewayError,
> {
    match generated {
        Some((proof, inputs)) => if fits_envelope(proof, inputs) && fits_text(
            encoding(proof, inputs).len(),
        ) {
            Ok(base64_text(encoding(proof, inputs)))
        } else {
            Err(GatewayError::Generation)
        },
        None => Err(GatewayError::Generation),
    }
}

/// The index of the last upload called `name`, if there is one.
pub fn find_field(fields: &Vec<Upload>, name: &str) -> (r: Option<usize>)
    ensures
        match r {
            Some(at) => {
                &&& at < fields.len()
                &&& fields[at as int].name@ == name@
                &&& forall|later: int|
                    at < later < fields.len() ==> (#[trigger] fields[later]).name@ != name@
                &&& field_data(fields@, name@) == Some(fields[at as int].data@)
            },
            None => field_data(fields@, name@) is None,
        },
{
    let wanted: String = name.to_owned();
    let mut at: usize = fields.len();
    assert(fields@.subrange(0, at as int) =~= fields@);
    while at > 0
        invariant
            at <= fields.len(),
            wanted@ == name@,
            forall|later: int|
                at <= later < fields.len() ==> (#[trigger] fields[later]).name@ != name@,
            field_data(fields@, name@) == field_data(fields@.subrange(0, at as int), name@),
        decreases at,
    {
        at -= 1;
        proof {
            let upto = fields@.subrange(0, at + 1);
            assert(upto.last() == fields[at as int]);
            assert(upto.drop_last() =~= fields@.subrange(0, at as int));
        }
        if fields[at].name == wanted {
            return Some(at);
        }
    }
    assert(fields@.subrange(0, 0).len() == 0);
    None
}

/// Writes bytes as base64 text, with `base64::encode`.
///
/// Trusted: the text is the one that `base64_text` names. The call stops the
/// program where the length of the text cannot be computed or allocated,
/// which `fits_text` rules out.
#[verifier::external_body]
#[allow(deprecated)]
fn to_base64(bytes: &Vec<u8>) -> (text: String)
    requires
        fits_text(bytes@.len()),
    ensures
        text@ == base64_text(bytes@),
{
    base64::encode(bytes)
}

/// First step of a generation request: finds the fields `trace` and `memory`
/// among the uploads and decompresses them.
///
/// Fails with `MissingField` where either is absent, and otherwise with
/// `Corrupt` where either does not decompress.
pub fn begin_generation(fields: &Vec<Upload>) -> (r: Result<GenerationJob, GatewayError>)
    ensures
        match r {
            Ok(job) => generation_job(fields@) == Ok::<(Seq<u8>, Seq<u8>), GatewayError>(job@),
            Err(e) => generation_job(fields@) == Err::<(Seq<u8>, Seq<u8>), GatewayError>(e),
        },
        field_data(fields@, "trace"@) is None || field_data(fields@, "memory"@) is None ==> r
            == Err::<GenerationJob, GatewayError>(GatewayError::MissingField),
{
    let (trace_at, memory_at) = match (find_field(fields, "trace"), find_field(fields, "memory")) {
        (Some(trace_at), Some(memory_at)) => (trace_at, memory_at),
        _ => {
            return Err(GatewayError::MissingField);
        },
    };
    let trace = match decompress_zip_data(copy_of(&fields[trace_at].data)) {
        Ok(raw) => raw,
        Err(_) => {
            return Err(GatewayError::Corrupt);
        },
    };
    let memory = match decompress_zip_data(copy_of(&fields[memory_at].data)) {
        Ok(raw) => raw,
        Err(_) => {
            return Err(GatewayError::Corrupt);
        },
    };
    Ok(GenerationJob { trace, memory })
}

/// Second step of a generation request: packs what the proof system
/// generated into an envelope and writes the envelope as base64 text.
///
/// `generated` is the proof system's answer: the serialized proof and public
/// inputs, or `None` where it produced no proof.
pub fn finish_generation(generated: Option<(Vec<u8>, Vec<u8>)>) -> (r: Result<
    String,
    GatewayError,
>)
    ensures
        match r {
            Ok(text) => generated matches Some((proof, inputs)) && generation_reply(
                Some((proof@, inputs@)),
            ) == Ok::<Seq<char>, GatewayError>(text@),
            Err(e) => e == GatewayError::Generation && (generated matches Some((proof, inputs))
                ==> generation_reply(Some((proof@, inputs@))) is Err),
        },
{
    match prove(generated) {
        Ok(envelope) => {
            if envelope.len() / 3 <= (isize::MAX as usize - 4) / 4 {
                Ok(to_base64(&envelope))
            } else {
                Err(GatewayError::Generation)
            }
        },
        Err(_) => Err(GatewayError::Generation),
    }
}

/// First step of a verification request: finds the field `proof` among the
/// uploads, decompresses it and decodes the envelope.
///
/// Fails with `MissingField` where the field is absent, with `Corrupt` where
/// it does not decompress, and with `Truncated` or `Malformed` where what it
/// holds is no envelope.
pub fn begin_verification(fields: &Vec<Upload>) -> (r: Result<Claim, GatewayError>)
    ensures
        match r {
            Ok(claim) => verification_claim(fields@) == Ok::<(Seq<u8>, Seq<u8>), GatewayError>(
                claim@,
            ),
            Err(e) => verification_claim(fields@) == Err::<(Seq<u8>, Seq<u8>), GatewayError>(e),
        },
        field_data(fields@, "proof"@) is None ==> r == Err::<Claim, GatewayError>(
            GatewayError::MissingField,
        ),
{
    let proof_at = match find_field(fields, "proof") {
        Some(proof_at) => proof_at,
        None => {
            return Err(GatewayError::MissingField);
        },
    };
    let raw = match decompress_zip_data(copy_of(&fields[proof_at].data)) {
        Ok(raw) => raw,
        Err(_) => {
            return Err(GatewayError::Corrupt);
        },
    };
    match decode(raw.as_slice()) {
        Ok((proof, inputs)) => Ok(Claim { proof, inputs }),
        Err(DecodeError::Truncated) => Err(GatewayError::Truncated),
        Err(DecodeError::Malformed) => Err(GatewayError::Malformed),
    }
}

/// Second step of a verification request: the verdict on a claim, given the
/// proof system's answer to it. A proof that is not accepted is a verdict,
/// not a failure.
pub fn finish_verification(accepted: bool) -> (r: VerificationResult)
    ensures
        r is Verified <==> accepted,
        r matches VerificationResult::Rejected(reason) ==> reason@ == rejection_text(),
{
    match verdict(accepted) {
        Ok(()) => VerificationResult::Verified,
        Err(reason) => VerificationResult::Rejected(reason),
    }
}

/// The token that answers a verification request: `OK` for a verified proof,
/// `KO` for a rejected one and for every failure.
pub fn response_token(outcome: &Result<VerificationResult, GatewayError>) -> (token: &'static str)
    ensures
        token@ == if outcome matches Ok(VerificationResult::Verified) {
            "OK"@
        } else {
            "KO"@
        },
{
    match outcome {
        Ok(VerificationResult::Verified) => "OK",
        _ => "KO",
    }
}

/// A copy of a buffer.
fn copy_of(bytes: &Vec<u8>) -> (copy: Vec<u8>)
    ensures
        copy@ == bytes@,
{
    vstd::slice::slice_to_vec(bytes.as_slice())
}

} // verus!
