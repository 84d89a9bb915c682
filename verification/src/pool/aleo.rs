//! What only snarkVM knows about Aleo's encodings, as the pool reads them:
//! whether a text is an account address, how the bytes of a puzzle
//! commitment and proof read, and the double-SHA-256 hash a share's
//! difficulty is measured by. Each is a function of its argument alone; the
//! logic sees it through a name.

use std::str::FromStr;
use vstd::prelude::*;

use snarkvm_algorithms::crypto_hash;
use snarkvm_algorithms::polycommit::kzg10::{KZGCommitment, KZGProof};
use snarkvm_console::account::Address;
use snarkvm_console::network::{Environment, Testnet3};
use snarkvm_console::prelude::{FromBytes, ToBytes};
use snarkvm_synthesizer::{
    CoinbaseVerifyingKey, EpochChallenge, PartialSolution, ProverSolution, PuzzleCommitment,
    PuzzleProof,
};

verus! {

/// Whether a text reads as an Aleo account address on the test network.
pub uninterp spec fn is_aleo_address(text: Seq<char>) -> bool;

/// `Address::<Testnet3>::from_str`: whether the text reads as an address (a
/// bech32m string of 63 bytes with the `aleo` prefix that decodes to a point
/// of the curve). The result is named; the source rejects any text whose
/// byte length is not 63, so an address never has more than 63 characters.
#[verifier::external_body]
pub(crate) fn address_is_valid(text: &str) -> (valid: bool)
    ensures
        valid == is_aleo_address(text@),
        valid ==> text@.len() <= 63,
{
    Address::<Testnet3>::from_str(text).is_ok()
}

/// How some bytes read as a KZG commitment on the test network's pairing
/// curve: not at all, or as a commitment that has no byte form of its own,
/// or as a commitment with its byte form.
pub uninterp spec fn kzg_commitment_reading(bytes: Seq<u8>) -> Option<Option<Seq<u8>>>;

/// `KZGCommitment::from_bytes_le`, then `ToBytes::to_bytes_le` of the
/// commitment read: `None` when the bytes are no commitment, else the
/// commitment's own byte form, `None` inside when it cannot be written. The
/// commitment itself never leaves the call, so the two calls share one name.
#[verifier::external_body]
pub(crate) fn read_commitment(bytes: &[u8]) -> (reading: Option<Option<Vec<u8>>>)
    ensures
        match reading {
            None => kzg_commitment_reading(bytes@) is None,
            Some(None) => kzg_commitment_reading(bytes@) == Some(None::<Seq<u8>>),
            Some(Some(form)) => kzg_commitment_reading(bytes@) == Some(Some(form@)),
        },
{
    match KZGCommitment::<<Testnet3 as Environment>::PairingCurve>::from_bytes_le(bytes) {
        Err(_) => None,
        Ok(commitment) => Some(commitment.to_bytes_le().ok()),
    }
}

/// Whether some bytes read as a KZG opening proof on the test network's
/// pairing curve.
pub uninterp spec fn is_kzg_proof(bytes: Seq<u8>) -> bool;

/// `KZGProof::from_bytes_le`: whether the bytes read as a proof.
#[verifier::external_body]
pub(crate) fn proof_is_valid(bytes: &[u8]) -> (valid: bool)
    ensures
        valid == is_kzg_proof(bytes@),
{
    KZGProof::<<Testnet3 as Environment>::PairingCurve>::from_bytes_le(bytes).is_ok()
}

/// The first eight bytes, read little-endian, of the SHA-256 hash of the
/// SHA-256 hash of some bytes.
pub uninterp spec fn sha256d_u64(data: Seq<u8>) -> u64;

/// `snarkvm_algorithms::crypto_hash::sha256d_to_u64`: the double SHA-256
/// hash of the bytes, its first eight bytes read as a little-endian number.
#[verifier::external_body]
pub(crate) fn sha256d_to_u64(data: &[u8]) -> (hash: u64)
    ensures
        hash == sha256d_u64(data@),
{
    crypto_hash::sha256d_to_u64(data)
}

/// Whether the prover polynomial of an address and nonce can be built
/// under an epoch challenge given by its bytes.
pub uninterp spec fn prover_polynomial_builds(challenge: Seq<u8>, address: Seq<char>, nonce: u64) -> bool;

/// `EpochChallenge::from_bytes_le` and `Address::from_str`, then
/// `PartialSolution::to_prover_polynomial`: whether the prover polynomial
/// can be built (false where the challenge or the address does not read).
/// The polynomial does not depend on the commitment, so an empty one
/// stands in for it. The challenge and the polynomial never leave the
/// call, so the calls share one name.
#[verifier::external_body]
pub(crate) fn prover_polynomial_for(challenge: &[u8], address: &str, nonce: u64) -> (builds: bool)
    ensures
        builds == prover_polynomial_builds(challenge@, address@, nonce),
{
    match (EpochChallenge::<Testnet3>::from_bytes_le(challenge), Address::<Testnet3>::from_str(address)) {
        (Ok(challenge), Ok(address)) => {
            let partial = PartialSolution::new(address, nonce, PuzzleCommitment::<Testnet3>::default());
            partial.to_prover_polynomial(&challenge).is_ok()
        },
        _ => false,
    }
}

/// What checking a prover's solution gives: `None` where a part does not
/// read or the check fails with an error, else whether the proof holds.
pub uninterp spec fn solution_verification(
    key: Seq<u8>,
    challenge: Seq<u8>,
    address: Seq<char>,
    nonce: u64,
    commitment: Seq<u8>,
    proof: Seq<u8>,
) -> Option<bool>;

/// `ProverSolution::verify` on a solution read from bytes: the coinbase
/// verifying key, the epoch challenge, the address, the nonce, the
/// commitment and the proof. It evaluates the prover and epoch polynomials
/// at the commitment's hash and checks the KZG opening proof. The parts
/// read never leave the call, so the calls share one name.
#[verifier::external_body]
pub(crate) fn verify_solution(
    key: &[u8],
    challenge: &[u8],
    address: &str,
    nonce: u64,
    commitment: &[u8],
    proof: &[u8],
) -> (verified: Option<bool>)
    ensures
        verified == solution_verification(key@, challenge@, address@, nonce, commitment@, proof@),
{
    let key = CoinbaseVerifyingKey::<Testnet3>::from_bytes_le(key).ok()?;
    let challenge = EpochChallenge::<Testnet3>::from_bytes_le(challenge).ok()?;
    let address = Address::<Testnet3>::from_str(address).ok()?;
    let commitment = PuzzleCommitment::<Testnet3>::from_bytes_le(commitment).ok()?;
    let proof = PuzzleProof::<Testnet3>::from_bytes_le(proof).ok()?;
    let solution = ProverSolution::new(PartialSolution::new(address, nonce, commitment), proof);
    solution.verify(&key, &challenge, 0).ok()
}

} // verus!
