//! The envelope: one byte buffer that carries a proof and its public inputs.
//!
//! Layout, in order: the length of the proof as four little-endian bytes, the
//! proof, the length of the public inputs as four little-endian bytes, the
//! public inputs. Nothing comes before, between or after these four parts.

use vstd::prelude::*;

verus! {

/// Longest field that a length prefix can announce.
pub const MAX_FIELD_LEN: usize = 0xffff_ffff;

/// Why a buffer is not an envelope.
#[derive(Clone, Copy, Debug, PartialEq, Eq, Structural)]
pub enum DecodeError {
    /// The buffer ends before a length prefix, or before the field that a
    /// prefix announces, is complete.
    Truncated,
    /// The buffer holds a complete envelope followed by further bytes.
    Malformed,
}

/// The four little-endian bytes that stand for `n`, for `n` up to
/// `MAX_FIELD_LEN`.
pub open spec fn prefix_bytes(n: nat) -> Seq<u8> {
    seq![
        (n % 256) as u8,
        (n / 256 % 256) as u8,
        (n / 65536 % 256) as u8,
        (n / 16777216 % 256) as u8,
    ]
}

/// The number that four little-endian bytes stand for.
pub open spec fn prefix_value(bytes: Seq<u8>) -> nat
    recommends
        bytes.len() == 4,
{
    (bytes[0] as nat) + 256 * (bytes[1] as nat) + 65536 * (bytes[2] as nat) + 16777216 * (
    bytes[3] as nat)
}

/// Whether an envelope can hold this proof and these public inputs: each
/// length must fit in its prefix.
pub open spec fn fits_envelope(proof: Seq<u8>, inputs: Seq<u8>) -> bool {
    proof.len() <= MAX_FIELD_LEN && inputs.len() <= MAX_FIELD_LEN
}

/// The envelope of a proof and its public inputs.
pub open spec fn encoding(proof: Seq<u8>, inputs: Seq<u8>) -> Seq<u8> {
    prefix_bytes(proof.len()) + proof + prefix_bytes(inputs.len()) + inputs
}

/// What a buffer decodes to: the proof and the public inputs of the envelope
/// that it is, or the reason why it is none.
pub open spec fn decoding(buf: Seq<u8>) -> Result<(Seq<u8>, Seq<u8>), DecodeError> {
    if buf.len() < 4 {
        Err(DecodeError::Truncated)
    } else {
        let proof_end: int = 4 + (prefix_value(buf.subrange(0, 4)) as int);
        if buf.len() < proof_end + 4 {
            Err(DecodeError::Truncated)
        } else {
            let inputs_end: int = proof_end + 4 + prefix_value(
                buf.subrange(proof_end, proof_end + 4),
            );
            if buf.len() < inputs_end {
                Err(DecodeError::Truncated)
            } else if buf.len() > inputs_end {
                Err(DecodeError::Malformed)
            } else {
                Ok((buf.subrange(4, proof_end), buf.subrange(proof_end + 4, inputs_end)))
            }
        }
    }
}

/// A length prefix reads back as the number it was written for.
pub proof fn lemma_prefix_round_trip(n: nat)
    requires
        n <= MAX_FIELD_LEN,
    ensures
        prefix_bytes(n).len() == 4,
        prefix_value(prefix_bytes(n)) == n,
{
    let n = n as int;
    let q1 = n / 256;
    let q2 = q1 / 256;
    let q3 = q2 / 256;
    assert(n == 256 * q1 + n % 256);
    assert(q1 == 256 * q2 + q1 % 256);
    assert(q2 == 256 * q3 + q2 % 256);
    assert(n == 65536 * q2 + (256 * (q1 % 256) + n % 256));
    assert(n / 65536 == q2);
    assert(n == 16777216 * q3 + (65536 * (q2 % 256) + 256 * (q1 % 256) + n % 256));
    assert(n / 16777216 == q3);
    assert(q3 < 256);
    assert(q3 % 256 == q3);
}

/// Four bytes are the prefix of the number they stand for, which a prefix can
/// announce.
pub proof fn lemma_prefix_canonical(bytes: Seq<u8>)
    requires
        bytes.len() == 4,
    ensures
        prefix_value(bytes) <= MAX_FIELD_LEN,
        prefix_bytes(prefix_value(bytes)) == bytes,
{
    let b0 = bytes[0] as int;
    let b1 = bytes[1] as int;
    let b2 = bytes[2] as int;
    let b3 = bytes[3] as int;
    let high = b2 + 256 * b3;
    let upper = b1 + 256 * high;
    let value = prefix_value(bytes) as int;
    assert(value == b0 + 256 * upper);
    assert(value % 256 == b0 && value / 256 == upper);
    assert(upper % 256 == b1);
    assert(value == (b0 + 256 * b1) + 65536 * high);
    assert(value / 65536 == high);
    assert(high % 256 == b2);
    assert(value == (b0 + 256 * b1 + 65536 * b2) + 16777216 * b3);
    assert(value / 16777216 == b3);
    assert(prefix_bytes(prefix_value(bytes)) =~= bytes);
}

/// Writes the length prefix of a field of `len` bytes at the end of `out`.
fn push_prefix(out: &mut Vec<u8>, len: usize)
    requires
        len <= MAX_FIELD_LEN,
    ensures
        final(out)@ == old(out)@ + prefix_bytes(len as nat),
{
    out.push((len % 256) as u8);
    out.push((len / 256 % 256) as u8);
    out.push((len / 65536 % 256) as u8);
    out.push((len / 16777216 % 256) as u8);
    assert(out@ =~= old(out)@ + prefix_bytes(len as nat));
}

/// Reads the length prefix that starts at `at`.
fn read_prefix(buf: &[u8], at: usize) -> (len: usize)
    requires
        at + 4 <= buf@.len(),
    ensures
        len == prefix_value(buf@.subrange(at as int, at + 4)),
        len <= MAX_FIELD_LEN,
{
    let b0: u32 = buf[at] as u32;
    let b1: u32 = buf[at + 1] as u32;
    let b2: u32 = buf[at + 2] as u32;
    let b3: u32 = buf[at + 3] as u32;
    let value: u32 = b0 + 256 * b1 + 65536 * b2 + 16777216 * b3;
    value as usize
}

/// Packs a proof and its public inputs into one envelope.
///
/// A length prefix has four bytes, so neither field may be longer than
/// `MAX_FIELD_LEN`.
pub fn encode(proof: &[u8], inputs: &[u8]) -> (out: Vec<u8>)
    requires
        fits_envelope(proof@, inputs@),
    ensures
        out@ == encoding(proof@, inputs@),
        out@.len() == 4 + proof@.len() + 4 + inputs@.len(),
        prefix_value(out@.subrange(0, 4)) == proof@.len(),
{
    let mut out: Vec<u8> = Vec::new();
    push_prefix(&mut out, proof.len());
    out.extend_from_slice(proof);
    push_prefix(&mut out, inputs.len());
    out.extend_from_slice(inputs);
    proof {
        assert(out@ =~= encoding(proof@, inputs@));
        lemma_length_prefix(proof@, inputs@);
    }
    out
}

/// Unpacks an envelope into its proof and its public inputs.
///
/// Fails with `Truncated` when the buffer ends too early, and with
/// `Malformed` when bytes follow the public inputs.
pub fn decode(buf: &[u8]) -> (r: Result<(Vec<u8>, Vec<u8>), DecodeError>)
    ensures
        match r {
            Ok((proof, inputs)) => decoding(buf@) == Ok::<(Seq<u8>, Seq<u8>), DecodeError>(
                (proof@, inputs@),
            ),
            Err(e) => decoding(buf@) == Err::<(Seq<u8>, Seq<u8>), DecodeError>(e),
        },
{
    let total: usize = buf.len();
    if total < 4 {
        return Err(DecodeError::Truncated);
    }
    let proof_len: usize = read_prefix(buf, 0);
    if total - 4 < proof_len || total - 4 - proof_len < 4 {
        return Err(DecodeError::Truncated);
    }
    let proof_end: usize = 4 + proof_len;
    let inputs_len: usize = read_prefix(buf, proof_end);
    let rest: usize = total - proof_end - 4;
    if rest < inputs_len {
        return Err(DecodeError::Truncated);
    }
    if rest > inputs_len {
        return Err(DecodeError::Malformed);
    }
    let proof = vstd::slice::slice_to_vec(vstd::slice::slice_subrange(buf, 4, proof_end));
    let inputs = vstd::slice::slice_to_vec(vstd::slice::slice_subrange(buf, proof_end + 4, total));
    Ok((proof, inputs))
}

/// The first four bytes of an envelope, read as a little-endian number, are
/// the length of the proof, and the envelope is as long as its four parts
/// together.
pub proof fn lemma_length_prefix(proof: Seq<u8>, inputs: Seq<u8>)
    requires
        proof.len() <= MAX_FIELD_LEN,
    ensures
        encoding(proof, inputs).len() == 4 + proof.len() + 4 + inputs.len(),
        prefix_value(encoding(proof, inputs).subrange(0, 4)) == proof.len(),
{
    lemma_prefix_round_trip(proof.len());
    assert(encoding(proof, inputs).subrange(0, 4) =~= prefix_bytes(proof.len()));
}

/// Decoding an envelope gives back, byte for byte, the proof and the public
/// inputs that were encoded.
pub proof fn lemma_round_trip(proof: Seq<u8>, inputs: Seq<u8>)
    requires
        fits_envelope(proof, inputs),
    ensures
        decoding(encoding(proof, inputs)) == Ok::<(Seq<u8>, Seq<u8>), DecodeError>((proof, inputs)),
{
    let buf = encoding(proof, inputs);
    let proof_end: int = 4 + (proof.len() as int);
    lemma_prefix_round_trip(proof.len());
    lemma_prefix_round_trip(inputs.len());
    assert(buf.subrange(0, 4) =~= prefix_bytes(proof.len()));
    assert(buf.subrange(proof_end, proof_end + 4) =~= prefix_bytes(inputs.len()));
    assert(buf.subrange(4, proof_end) =~= proof);
    assert(buf.subrange(proof_end + 4, proof_end + 4 + inputs.len()) =~= inputs);
}

/// Only an envelope decodes: a buffer that decodes to a proof and public
/// inputs is their encoding, and neither is longer than a prefix can announce.
pub proof fn lemma_decoded_is_encoded(buf: Seq<u8>, proof: Seq<u8>, inputs: Seq<u8>)
    requires
        decoding(buf) == Ok::<(Seq<u8>, Seq<u8>), DecodeError>((proof, inputs)),
    ensures
        buf == encoding(proof, inputs),
        fits_envelope(proof, inputs),
{
    let proof_end: int = 4 + (prefix_value(buf.subrange(0, 4)) as int);
    lemma_prefix_canonical(buf.subrange(0, 4));
    lemma_prefix_canonical(buf.subrange(proof_end, proof_end + 4));
    assert(buf =~= encoding(proof, inputs));
}

/// Every proper prefix of an envelope fails to decode, with `Truncated`: no
/// shortened envelope passes for a pair.
pub proof fn lemma_prefix_is_truncated(proof: Seq<u8>, inputs: Seq<u8>, cut: int)
    requires
        fits_envelope(proof, inputs),
        0 <= cut < encoding(proof, inputs).len(),
    ensures
        decoding(encoding(proof, inputs).subrange(0, cut)) == Err::<
            (Seq<u8>, Seq<u8>),
            DecodeError,
        >(DecodeError::Truncated),
{
    let buf = encoding(proof, inputs);
    let short = buf.subrange(0, cut);
    let proof_end: int = 4 + (proof.len() as int);
    lemma_prefix_round_trip(proof.len());
    lemma_prefix_round_trip(inputs.len());
    if cut >= 4 {
        assert(short.subrange(0, 4) =~= prefix_bytes(proof.len()));
        if cut >= proof_end + 4 {
            assert(short.subrange(proof_end, proof_end + 4) =~= prefix_bytes(inputs.len()));
        }
    }
}

/// Bytes after an envelope are refused: an envelope followed by at least one
/// more byte fails to decode, with `Malformed`.
pub proof fn lemma_trailing_is_malformed(proof: Seq<u8>, inputs: Seq<u8>, extra: Seq<u8>)
    requires
        fits_envelope(proof, inputs),
        extra.len() > 0,
    ensures
        decoding(encoding(proof, inputs) + extra) == Err::<(Seq<u8>, Seq<u8>), DecodeError>(
            DecodeError::Malformed,
        ),
{
    let buf = encoding(proof, inputs) + extra;
    let proof_end: int = 4 + (proof.len() as int);
    lemma_prefix_round_trip(proof.len());
    lemma_prefix_round_trip(inputs.len());
    assert(buf.subrange(0, 4) =~= prefix_bytes(proof.len()));
    assert(buf.subrange(proof_end, proof_end + 4) =~= prefix_bytes(inputs.len()));
}

/// A changed byte of the proof is not masked: the envelope with one byte of
/// its proof replaced decodes to the proof with that byte replaced, and to
/// the same public inputs.
pub proof fn lemma_changed_proof_byte_is_decoded(
    proof: Seq<u8>,
    inputs: Seq<u8>,
    at: int,
    byte: u8,
)
    requires
        fits_envelope(proof, inputs),
        0 <= at < proof.len(),
    ensures
        decoding(encoding(proof, inputs).update(4 + at, byte)) == Ok::<
            (Seq<u8>, Seq<u8>),
            DecodeError,
        >((proof.update(at, byte), inputs)),
{
    lemma_prefix_round_trip(proof.len());
    assert(encoding(proof, inputs).update(4 + at, byte) =~= encoding(
        proof.update(at, byte),
        inputs,
    ));
    lemma_round_trip(proof.update(at, byte), inputs);
}

} // verus!
