//! What a prover connection decides: whether its handshake names a protocol
//! version the pool speaks, whether it authorizes, and what the fields of a
//! submitted share say.

use vstd::prelude::*;

use crate::pool::aleo::{
    address_is_valid, is_aleo_address, is_kzg_proof, kzg_commitment_reading, proof_is_valid,
    read_commitment,
};
use crate::stratum::codec::{BoxedType, Id, IdView, ResponseParams};
use crate::stratum::message::{StratumMessage, StratumMessageView};

verus! {

// ---------------------------------------------------------------------------
// Hexadecimal text
// ---------------------------------------------------------------------------

/// The value of one hexadecimal digit, either case.
pub open spec fn hex_digit(c: char) -> Option<u8> {
    if '0' <= c && c <= '9' {
        Some((c as u32 - '0' as u32) as u8)
    } else if 'a' <= c && c <= 'f' {
        Some((c as u32 - 'a' as u32 + 10) as u8)
    } else if 'A' <= c && c <= 'F' {
        Some((c as u32 - 'A' as u32 + 10) as u8)
    } else {
        None
    }
}

/// The bytes a hexadecimal text stands for: two digits per byte, high digit
/// first; absent when the text has an odd length or a character that is not
/// a hexadecimal digit.
pub open spec fn spec_hex_decode(text: Seq<char>) -> Option<Seq<u8>>
    decreases text.len(),
{
    if text.len() == 0 {
        Some(Seq::empty())
    } else if text.len() == 1 {
        None
    } else {
        match (hex_digit(text[0]), hex_digit(text[1]), spec_hex_decode(text.skip(2))) {
            (Some(high), Some(low), Some(rest)) => Some(seq![(high * 16 + low) as u8] + rest),
            _ => None,
        }
    }
}

/// The lowercase hexadecimal digit for a value below 16.
pub open spec fn hex_char(nibble: u8) -> char {
    if nibble < 10 {
        (nibble + '0' as u32) as char
    } else {
        (nibble - 10 + 'a' as u32) as char
    }
}

/// Lowercase hexadecimal text for bytes: two digits per byte, high first.
pub open spec fn spec_hex_encode(bytes: Seq<u8>) -> Seq<char>
    decreases bytes.len(),
{
    if bytes.len() == 0 {
        Seq::empty()
    } else {
        seq![hex_char(bytes[0] / 16), hex_char(bytes[0] % 16)] + spec_hex_encode(bytes.skip(1))
    }
}

/// `hex::decode`: the bytes that a hexadecimal text stands for, or `None`
/// where the crate returns an error (odd length, or a byte that is not an
/// ASCII hexadecimal digit of either case). A character outside ASCII is
/// never a digit, so counting characters or bytes gives the same answer.
#[verifier::external_body]
fn hex_decode(text: &str) -> (bytes: Option<Vec<u8>>)
    ensures
        match bytes {
            Some(b) => spec_hex_decode(text@) == Some(b@),
            None => spec_hex_decode(text@) is None,
        },
{
    hex::decode(text).ok()
}

/// `hex::encode`: two lowercase hexadecimal digits per byte, high first.
#[verifier::external_body]
fn hex_encode(bytes: &[u8]) -> (text: String)
    ensures
        text@ == spec_hex_encode(bytes@),
{
    hex::encode(bytes)
}

// ---------------------------------------------------------------------------
// Little-endian integers
// ---------------------------------------------------------------------------

/// The unsigned integer whose little-endian bytes are `bytes`.
pub open spec fn le_value(bytes: Seq<u8>) -> nat
    decreases bytes.len(),
{
    if bytes.len() == 0 {
        0
    } else {
        (bytes[0] + 256 * le_value(bytes.skip(1))) as nat
    }
}

/// The `count` little-endian bytes of `value`.
pub open spec fn le_bytes(value: nat, count: nat) -> Seq<u8>
    decreases count,
{
    if count == 0 {
        Seq::empty()
    } else {
        seq![(value % 256) as u8] + le_bytes(value / 256, (count - 1) as nat)
    }
}

proof fn lemma_le_value_bound(bytes: Seq<u8>)
    ensures
        le_value(bytes) < vstd::arithmetic::power::pow(256, bytes.len()),
    decreases bytes.len(),
{
    vstd::arithmetic::power::lemma_pow_positive(256, bytes.len());
    if bytes.len() > 0 {
        lemma_le_value_bound(bytes.skip(1));
        vstd::arithmetic::power::lemma_pow_adds(256, 1, (bytes.len() - 1) as nat);
        vstd::arithmetic::power::lemma_pow1(256);
        let rest = le_value(bytes.skip(1));
        let p = vstd::arithmetic::power::pow(256, (bytes.len() - 1) as nat);
        assert(rest + 1 <= p);
        assert(256 * (rest + 1) <= 256 * p) by (nonlinear_arith)
            requires
                rest + 1 <= p,
        ;
    }
}

proof fn lemma_le_round_trip(value: nat, count: nat)
    requires
        value < vstd::arithmetic::power::pow(256, count),
    ensures
        le_bytes(value, count).len() == count,
        le_value(le_bytes(value, count)) == value,
    decreases count,
{
    if count > 0 {
        vstd::arithmetic::power::lemma_pow_adds(256, 1, (count - 1) as nat);
        vstd::arithmetic::power::lemma_pow1(256);
        let p = vstd::arithmetic::power::pow(256, (count - 1) as nat);
        assert(value / 256 < p) by (nonlinear_arith)
            requires
                value < 256 * p,
        ;
        lemma_le_round_trip(value / 256, (count - 1) as nat);
        let bytes = le_bytes(value, count);
        assert(bytes.skip(1) =~= le_bytes(value / 256, (count - 1) as nat));
        assert(bytes[0] == (value % 256) as u8);
        assert(le_value(bytes) == bytes[0] + 256 * le_value(bytes.skip(1)));
        assert(value == value % 256 + 256 * (value / 256)) by (nonlinear_arith);
    } else {
        vstd::arithmetic::power::lemma_pow0(256);
    }
}

/// The integer of four little-endian bytes.
fn u32_from_le(bytes: &Vec<u8>) -> (value: u32)
    requires
        bytes@.len() == 4,
    ensures
        value == le_value(bytes@),
{
    let ghost b = bytes@;
    proof {
        lemma_le_value_step(b, 0);
        lemma_le_value_step(b, 1);
        lemma_le_value_step(b, 2);
        lemma_le_value_step(b, 3);
        assert(b.skip(4).len() == 0);
        assert(b.skip(0) =~= b);
    }
    bytes[0] as u32 + 256 * (bytes[1] as u32 + 256 * (bytes[2] as u32 + 256 * (bytes[3] as u32)))
}

proof fn lemma_le_value_step(b: Seq<u8>, k: int)
    requires
        0 <= k < b.len(),
    ensures
        le_value(b.skip(k)) == b[k] + 256 * le_value(b.skip(k + 1)),
{
    assert(b.skip(k).skip(1) =~= b.skip(k + 1));
}

/// The integer of eight little-endian bytes.
fn u64_from_le(bytes: &Vec<u8>) -> (value: u64)
    requires
        bytes@.len() == 8,
    ensures
        value == le_value(bytes@),
{
    let ghost b = bytes@;
    proof {
        lemma_le_value_step(b, 0);
        lemma_le_value_step(b, 1);
        lemma_le_value_step(b, 2);
        lemma_le_value_step(b, 3);
        lemma_le_value_step(b, 4);
        lemma_le_value_step(b, 5);
        lemma_le_value_step(b, 6);
        lemma_le_value_step(b, 7);
        assert(b.skip(8).len() == 0);
        assert(b.skip(0) =~= b);
    }
    bytes[0] as u64 + 256 * (bytes[1] as u64 + 256 * (bytes[2] as u64 + 256 * (bytes[3] as u64
        + 256 * (bytes[4] as u64 + 256 * (bytes[5] as u64 + 256 * (bytes[6] as u64 + 256 * (
    bytes[7] as u64)))))))
}

/// The little-endian bytes of a 32-bit integer.
fn u32_to_le(value: u32) -> (bytes: Vec<u8>)
    ensures
        bytes@ == le_bytes(value as nat, 4),
{
    let mut bytes: Vec<u8> = Vec::new();
    let mut rest = value;
    let mut i: usize = 0;
    while i < 4
        invariant
            i <= 4,
            bytes@ + le_bytes(rest as nat, (4 - i) as nat) == le_bytes(value as nat, 4),
        decreases 4 - i,
    {
        let ghost before = bytes@;
        let ghost tail = le_bytes(rest as nat, (4 - i) as nat);
        assert(tail == seq![(rest % 256) as u8] + le_bytes((rest / 256) as nat, (4 - i - 1) as nat));
        bytes.push((rest % 256) as u8);
        rest = rest / 256;
        i = i + 1;
        assert(bytes@ + le_bytes(rest as nat, (4 - i) as nat) =~= before + tail);
    }
    assert(le_bytes(rest as nat, 0) =~= Seq::<u8>::empty());
    assert(bytes@ =~= bytes@ + le_bytes(rest as nat, 0));
    bytes
}

/// The little-endian bytes of a 64-bit integer.
fn u64_to_le(value: u64) -> (bytes: Vec<u8>)
    ensures
        bytes@ == le_bytes(value as nat, 8),
{
    let mut bytes: Vec<u8> = Vec::new();
    let mut rest = value;
    let mut i: usize = 0;
    while i < 8
        invariant
            i <= 8,
            bytes@ + le_bytes(rest as nat, (8 - i) as nat) == le_bytes(value as nat, 8),
        decreases 8 - i,
    {
        let ghost before = bytes@;
        let ghost tail = le_bytes(rest as nat, (8 - i) as nat);
        assert(tail == seq![(rest % 256) as u8] + le_bytes((rest / 256) as nat, (8 - i - 1) as nat));
        bytes.push((rest % 256) as u8);
        rest = rest / 256;
        i = i + 1;
        assert(bytes@ + le_bytes(rest as nat, (8 - i) as nat) =~= before + tail);
    }
    assert(le_bytes(rest as nat, 0) =~= Seq::<u8>::empty());
    assert(bytes@ =~= bytes@ + le_bytes(rest as nat, 0));
    bytes
}

// ---------------------------------------------------------------------------
// Job ids
// ---------------------------------------------------------------------------

/// The job id a text names: the epoch number whose four little-endian bytes
/// it spells in hexadecimal.
pub open spec fn spec_parse_job_id(job_id: Seq<char>) -> Option<u32> {
    match spec_hex_decode(job_id) {
        Some(bytes) => if bytes.len() == 4 {
            Some(le_value(bytes) as u32)
        } else {
            None
        },
        None => None,
    }
}

/// The job id of an epoch: its four little-endian bytes in hexadecimal.
pub fn job_id_for_epoch(epoch_number: u32) -> (job_id: String)
    ensures
        job_id@ == spec_hex_encode(le_bytes(epoch_number as nat, 4)),
{
    let bytes = u32_to_le(epoch_number);
    hex_encode(bytes.as_slice())
}

/// The job a prover is handed: the job id, the epoch challenge's bytes in
/// hexadecimal, no address, and the instruction to drop older jobs.
pub fn job_notify(job_id: String, epoch_challenge: &[u8]) -> (message: StratumMessage)
    ensures
        message@ == StratumMessageView::Notify(
            job_id@,
            spec_hex_encode(epoch_challenge@),
            None,
            true,
        ),
{
    StratumMessage::Notify(job_id, hex_encode(epoch_challenge), None, true)
}

// ---------------------------------------------------------------------------
// Submitted shares
// ---------------------------------------------------------------------------

/// Why the fields of a submitted share cannot be read.
#[derive(PartialEq, Eq, Structural, Clone, Copy, Debug)]
pub enum SubmitError {
    /// The job id is not hexadecimal.
    JobIdNotHex,
    /// The job id does not spell four bytes.
    JobIdLength,
    /// The nonce is not hexadecimal.
    NonceNotHex,
    /// The commitment is not hexadecimal.
    CommitmentNotHex,
    /// The commitment's bytes are no KZG commitment.
    InvalidCommitment,
    /// The proof is not hexadecimal.
    ProofNotHex,
    /// The proof's bytes are no KZG proof.
    InvalidProof,
}

/// The fields of a submitted share, read from their text.
pub struct SubmitFields {
    pub epoch_number: u32,
    pub nonce: u64,
    /// The commitment's bytes as submitted.
    pub commitment: Vec<u8>,
    /// The commitment's own byte form, if it has one: what its difficulty
    /// is measured on.
    pub commitment_form: Option<Vec<u8>>,
    /// The proof's bytes as submitted.
    pub proof: Vec<u8>,
}

/// The bytes of an optional byte vector.
pub open spec fn opt_bytes_view(bytes: Option<Vec<u8>>) -> Option<Seq<u8>> {
    match bytes {
        Some(b) => Some(b@),
        None => None,
    }
}

/// The nonce, when the job id reads and the nonce is hexadecimal, spells
/// eight bytes: the width a nonce is read at.
pub open spec fn nonce_width_ok(job_id: Seq<char>, nonce: Seq<char>) -> bool {
    spec_parse_job_id(job_id) is Some ==> match spec_hex_decode(nonce) {
        Some(bytes) => bytes.len() == 8,
        None => true,
    }
}

/// Whether the nonce of a submission can be read at its width; a
/// submission for which this is false is one the fields cannot be read from.
pub fn nonce_width_fits(job_id: &str, nonce: &str) -> (fits: bool)
    ensures
        fits == nonce_width_ok(job_id@, nonce@),
{
    match hex_decode(job_id) {
        None => true,
        Some(job) => if job.len() != 4 {
            true
        } else {
            match hex_decode(nonce) {
                None => true,
                Some(n) => n.len() == 8,
            }
        },
    }
}

/// The first field of a submitted share that cannot be read, checked in
/// order: job id, nonce, commitment, proof.
pub open spec fn spec_submit_error(
    job_id: Seq<char>,
    nonce: Seq<char>,
    commitment: Seq<char>,
    proof: Seq<char>,
) -> Option<SubmitError> {
    match spec_hex_decode(job_id) {
        None => Some(SubmitError::JobIdNotHex),
        Some(job) => if job.len() != 4 {
            Some(SubmitError::JobIdLength)
        } else if spec_hex_decode(nonce) is None {
            Some(SubmitError::NonceNotHex)
        } else {
            match spec_hex_decode(commitment) {
                None => Some(SubmitError::CommitmentNotHex),
                Some(c) => if kzg_commitment_reading(c) is None {
                    Some(SubmitError::InvalidCommitment)
                } else {
                    match spec_hex_decode(proof) {
                        None => Some(SubmitError::ProofNotHex),
                        Some(p) => if !is_kzg_proof(p) {
                            Some(SubmitError::InvalidProof)
                        } else {
                            None
                        },
                    }
                },
            }
        },
    }
}

/// Reads the fields of a submitted share, each checked in turn: the job id
/// (hexadecimal, four bytes, the epoch number little-endian), the nonce
/// (hexadecimal, eight bytes little-endian), the commitment (hexadecimal,
/// bytes that read as a KZG commitment), then the proof (hexadecimal, bytes
/// that read as a KZG proof).
pub fn decode_submit_fields(job_id: &str, nonce: &str, commitment: &str, proof: &str) -> (result:
    Result<SubmitFields, SubmitError>)
    requires
        nonce_width_ok(job_id@, nonce@),
    ensures
        match result {
            Ok(fields) => {
                &&& spec_submit_error(job_id@, nonce@, commitment@, proof@) is None
                &&& spec_parse_job_id(job_id@) == Some(fields.epoch_number)
                &&& spec_hex_decode(nonce@) matches Some(n) && fields.nonce == le_value(n)
                &&& spec_hex_decode(commitment@) == Some(fields.commitment@)
                &&& kzg_commitment_reading(fields.commitment@) == Some(
                    opt_bytes_view(fields.commitment_form),
                )
                &&& spec_hex_decode(proof@) == Some(fields.proof@)
            },
            Err(e) => spec_submit_error(job_id@, nonce@, commitment@, proof@) == Some(e),
        },
{
    let job = match hex_decode(job_id) {
        Some(b) => b,
        None => return Err(SubmitError::JobIdNotHex),
    };
    if job.len() != 4 {
        return Err(SubmitError::JobIdLength);
    }
    let epoch_number = u32_from_le(&job);
    let nonce_bytes = match hex_decode(nonce) {
        Some(b) => b,
        None => return Err(SubmitError::NonceNotHex),
    };
    let nonce_value = u64_from_le(&nonce_bytes);
    let commitment_bytes = match hex_decode(commitment) {
        Some(b) => b,
        None => return Err(SubmitError::CommitmentNotHex),
    };
    let commitment_form = match read_commitment(commitment_bytes.as_slice()) {
        Some(form) => form,
        None => return Err(SubmitError::InvalidCommitment),
    };
    let proof_bytes = match hex_decode(proof) {
        Some(b) => b,
        None => return Err(SubmitError::ProofNotHex),
    };
    if !proof_is_valid(proof_bytes.as_slice()) {
        return Err(SubmitError::InvalidProof);
    }
    Ok(
        SubmitFields {
            epoch_number,
            nonce: nonce_value,
            commitment: commitment_bytes,
            commitment_form,
            proof: proof_bytes,
        },
    )
}

/// A share submitted on an authorized connection: the request id and its
/// fields.
pub struct Submission {
    pub id: Id,
    pub fields: SubmitFields,
}

/// Why a message on an authorized connection ends it.
#[derive(PartialEq, Eq, Structural, Clone, Copy, Debug)]
pub enum SubmissionError {
    /// Only share submissions are expected once a prover is authorized.
    UnexpectedMessage,
    /// A field of the submission cannot be read.
    BadField(SubmitError),
}

/// A submission read from the fields of a share: the request id, and each
/// field as the text reads.
pub open spec fn submission_reads(
    s: Submission,
    id: IdView,
    job_id: Seq<char>,
    nonce: Seq<char>,
    commitment: Seq<char>,
    proof: Seq<char>,
) -> bool {
    &&& spec_submit_error(job_id, nonce, commitment, proof) is None
    &&& s.id@ == id
    &&& spec_parse_job_id(job_id) == Some(s.fields.epoch_number)
    &&& spec_hex_decode(nonce) matches Some(n) && s.fields.nonce == le_value(n)
    &&& spec_hex_decode(commitment) == Some(s.fields.commitment@)
    &&& kzg_commitment_reading(s.fields.commitment@) == Some(opt_bytes_view(s.fields.commitment_form))
    &&& spec_hex_decode(proof) == Some(s.fields.proof@)
}

/// What a message on an authorized connection carries: a share submission
/// and its fields; anything else ends the connection.
pub fn read_submission(message: StratumMessage) -> (result: Result<Submission, SubmissionError>)
    requires
        message@ matches StratumMessageView::Submit(_, _, job_id, nonce, _, _) ==> nonce_width_ok(
            job_id,
            nonce,
        ),
    ensures
        match message@ {
            StratumMessageView::Submit(id, _, job_id, nonce, commitment, proof) => match result {
                Ok(s) => {
                    &&& spec_submit_error(job_id, nonce, commitment, proof) is None
                    &&& s.id@ == id
                    &&& spec_parse_job_id(job_id) == Some(s.fields.epoch_number)
                    &&& spec_hex_decode(nonce) matches Some(n) && s.fields.nonce == le_value(n)
                    &&& spec_hex_decode(commitment) == Some(s.fields.commitment@)
                    &&& kzg_commitment_reading(s.fields.commitment@) == Some(
                        opt_bytes_view(s.fields.commitment_form),
                    )
                    &&& spec_hex_decode(proof) == Some(s.fields.proof@)
                },
                Err(SubmissionError::BadField(e)) => spec_submit_error(
                    job_id,
                    nonce,
                    commitment,
                    proof,
                ) == Some(e),
                Err(SubmissionError::UnexpectedMessage) => false,
            },
            _ => result == Err::<Submission, SubmissionError>(SubmissionError::UnexpectedMessage),
        },
{
    match message {
        StratumMessage::Submit(id, _, job_id, nonce, commitment, proof) => {
            match decode_submit_fields(
                job_id.as_str(),
                nonce.as_str(),
                commitment.as_str(),
                proof.as_str(),
            ) {
                Ok(fields) => Ok(Submission { id, fields }),
                Err(e) => Err(SubmissionError::BadField(e)),
            }
        },
        _ => Err(SubmissionError::UnexpectedMessage),
    }
}

// ---------------------------------------------------------------------------
// Handshake and authorization
// ---------------------------------------------------------------------------

/// A semantic version: major, minor and patch numbers, pre-release and build
/// metadata.
pub struct SemVer {
    pub major: u64,
    pub minor: u64,
    pub patch: u64,
    pub pre: String,
    pub build: String,
}

pub struct SemVerView {
    pub major: u64,
    pub minor: u64,
    pub patch: u64,
    pub pre: Seq<char>,
    pub build: Seq<char>,
}

impl View for SemVer {
    type V = SemVerView;

    open spec fn view(&self) -> SemVerView {
        SemVerView {
            major: self.major,
            minor: self.minor,
            patch: self.patch,
            pre: self.pre@,
            build: self.build@,
        }
    }
}

/// What `semver::Version::parse` makes of a text: its fields, or `None`
/// where the text is not a semantic version.
pub uninterp spec fn semver_parse(text: Seq<char>) -> Option<SemVerView>;

/// `semver::Version::parse`: the version a text spells, by the semver
/// grammar, with its fields as plain values (`None` where the crate
/// returns an error). The grammar is the crate's; its result is named. The
/// one version the pool speaks, `2.0.0`, reads as major 2, minor 0, patch
/// 0, with neither pre-release nor build metadata.
#[verifier::external_body]
fn parse_semver(text: &str) -> (parsed: Option<SemVer>)
    ensures
        match parsed {
            Some(v) => semver_parse(text@) == Some(v@),
            None => semver_parse(text@) is None,
        },
        text@ == "2.0.0"@ ==> parsed is Some && parsed->0@ == (SemVerView {
            major: 2,
            minor: 0,
            patch: 0,
            pre: Seq::<char>::empty(),
            build: Seq::<char>::empty(),
        }),
{
    match semver::Version::parse(text) {
        Ok(v) => Some(SemVer {
            major: v.major,
            minor: v.minor,
            patch: v.patch,
            pre: v.pre.as_str().to_string(),
            build: v.build.as_str().to_string(),
        }),
        Err(_) => None,
    }
}

/// The only protocol version the pool speaks: 2.0.0, with neither
/// pre-release nor build metadata. The pool accepts the versions from 2.0.0
/// to 2.0.0 in semver precedence; semver orders versions by major, minor and
/// patch, then a pre-release below none, then build metadata with none
/// lowest, so that range holds 2.0.0 alone.
pub open spec fn spec_supported(v: SemVerView) -> bool {
    &&& v.major == 2
    &&& v.minor == 0
    &&& v.patch == 0
    &&& v.pre.len() == 0
    &&& v.build.len() == 0
}

impl SemVer {
    /// Whether this is a protocol version the pool speaks.
    pub fn is_supported(&self) -> (supported: bool)
        ensures
            supported == spec_supported(self@),
    {
        self.major == 2 && self.minor == 0 && self.patch == 0 && self.pre.as_str().is_empty()
            && self.build.as_str().is_empty()
    }
}

/// Why a prover's handshake or authorization is refused.
#[derive(PartialEq, Eq, Structural, Clone, Copy, Debug)]
pub enum HandshakeError {
    /// Another message came where a subscription or authorization belongs.
    UnexpectedMessage,
    /// The protocol version is not a name and a version around one `/`.
    InvalidProtocolVersion,
    /// The protocol is not named `AleoStratum`.
    InvalidProtocolName,
    /// The version is not a semantic version.
    InvalidVersion,
    /// The version is not one the pool speaks.
    UnsupportedVersion,
    /// The worker name is not an Aleo address.
    InvalidAddress,
}

/// `k` is the one position of a `/` in `s`.
pub open spec fn sole_slash_at(s: Seq<char>, k: int) -> bool {
    &&& 0 <= k < s.len()
    &&& s[k] == '/'
    &&& forall|j: int| 0 <= j < s.len() && j != k ==> s[j] != '/'
}

/// The two sides of the one `/` in `s`, if it holds exactly one.
pub open spec fn spec_split_protocol(s: Seq<char>) -> Option<(Seq<char>, Seq<char>)> {
    if exists|k: int| sole_slash_at(s, k) {
        let k = choose|k: int| sole_slash_at(s, k);
        Some((s.take(k), s.skip(k + 1)))
    } else {
        None
    }
}

/// What a parsed version says of the handshake.
pub open spec fn spec_version_verdict(parsed: Option<SemVerView>) -> Result<SemVerView, HandshakeError> {
    match parsed {
        None => Err(HandshakeError::InvalidVersion),
        Some(v) => if spec_supported(v) {
            Ok(v)
        } else {
            Err(HandshakeError::UnsupportedVersion)
        },
    }
}

/// What a protocol version text says of the handshake: `AleoStratum/`
/// followed by a version the pool speaks.
pub open spec fn spec_protocol_verdict(text: Seq<char>) -> Result<SemVerView, HandshakeError> {
    match spec_split_protocol(text) {
        None => Err(HandshakeError::InvalidProtocolVersion),
        Some((name, version)) => if name != "AleoStratum"@ {
            Err(HandshakeError::InvalidProtocolName)
        } else {
            spec_version_verdict(semver_parse(version))
        },
    }
}

fn str_eq(a: &str, b: &str) -> (same: bool)
    ensures
        same == (a@ == b@),
{
    String::from_str(a) == String::from_str(b)
}

/// The two sides of the one `/` in a text, if it holds exactly one.
pub fn split_protocol_version(text: &str) -> (parts: Option<(&str, &str)>)
    ensures
        match parts {
            Some((name, version)) => spec_split_protocol(text@) == Some((name@, version@)),
            None => spec_split_protocol(text@) is None,
        },
{
    let len = text.unicode_len();
    let mut i: usize = 0;
    let mut first: Option<usize> = None;
    while i < len
        invariant
            len == text@.len(),
            i <= len,
            match first {
                None => forall|j: int| 0 <= j < i ==> text@[j] != '/',
                Some(k) => k < i && text@[k as int] == '/' && forall|j: int|
                    0 <= j < i && j != k ==> text@[j] != '/',
            },
        decreases len - i,
    {
        let c = text.get_char(i);
        match first {
            None => {
                if c == '/' {
                    first = Some(i);
                }
            },
            Some(k) => {
                if c == '/' {
                    proof {
                        assert forall|m: int| !sole_slash_at(text@, m) by {
                            if sole_slash_at(text@, m) {
                                if m != k {
                                    assert(text@[k as int] != '/');
                                } else {
                                    assert(text@[i as int] != '/');
                                }
                            }
                        }
                    }
                    return None;
                }
            },
        }
        i = i + 1;
    }
    match first {
        None => {
            proof {
                assert forall|m: int| !sole_slash_at(text@, m) by {
                    if sole_slash_at(text@, m) {
                        assert(text@[m] != '/');
                    }
                }
            }
            None
        },
        Some(k) => {
            assert(sole_slash_at(text@, k as int));
            proof {
                let c = choose|m: int| sole_slash_at(text@, m);
                assert(c == k);
            }
            let name = text.substring_char(0, k);
            let version = text.substring_char(k + 1, len);
            assert(name@ =~= text@.take(k as int));
            assert(version@ =~= text@.skip(k + 1));
            Some((name, version))
        },
    }
}

/// What a parsed version says of the handshake: unparsable, unsupported, or
/// the version itself.
pub fn version_verdict(parsed: Option<SemVer>) -> (verdict: Result<SemVer, HandshakeError>)
    ensures
        match verdict {
            Ok(v) => parsed matches Some(p) && p@ == v@ && spec_supported(v@),
            Err(e) => spec_version_verdict(
                match parsed {
                    Some(p) => Some(p@),
                    None => None,
                },
            ) == Err::<SemVerView, HandshakeError>(e),
        },
        parsed is Some && spec_supported(parsed->0@) <==> verdict is Ok,
{
    match parsed {
        None => Err(HandshakeError::InvalidVersion),
        Some(v) => if v.is_supported() {
            Ok(v)
        } else {
            Err(HandshakeError::UnsupportedVersion)
        },
    }
}

/// The protocol version the pool speaks, as a subscription names it.
pub open spec fn pool_protocol_version() -> Seq<char> {
    "AleoStratum/2.0.0"@
}

/// Version 2.0.0, with neither pre-release nor build metadata.
pub open spec fn version_2_0_0() -> SemVerView {
    SemVerView { major: 2, minor: 0, patch: 0, pre: Seq::<char>::empty(), build: Seq::<char>::empty() }
}

proof fn lemma_pool_protocol_splits()
    ensures
        spec_split_protocol(pool_protocol_version()) == Some(("AleoStratum"@, "2.0.0"@)),
{
    reveal_strlit("AleoStratum/2.0.0");
    reveal_strlit("AleoStratum");
    reveal_strlit("2.0.0");
    let s = pool_protocol_version();
    assert(s.len() == 17);
    assert(sole_slash_at(s, 11));
    let k = choose|k: int| sole_slash_at(s, k);
    assert(k == 11) by {
        if k != 11 {
            assert(s[k] == '/');
        }
    }
    assert(s.take(11) =~= "AleoStratum"@);
    assert(s.skip(12) =~= "2.0.0"@);
}

/// What a subscription's protocol version says of the handshake:
/// `AleoStratum/` followed by a version the pool speaks; in particular
/// `AleoStratum/2.0.0` is accepted as version 2.0.0.
pub fn check_protocol_version(protocol_version: &str) -> (verdict: Result<SemVer, HandshakeError>)
    ensures
        match verdict {
            Ok(v) => spec_protocol_verdict(protocol_version@) == Ok::<SemVerView, HandshakeError>(
                v@,
            ),
            Err(e) => spec_protocol_verdict(protocol_version@) == Err::<SemVerView, HandshakeError>(
                e,
            ),
        },
        protocol_version@ == pool_protocol_version() ==> (verdict matches Ok(v) && v@ == version_2_0_0()),
{
    proof {
        if protocol_version@ == pool_protocol_version() {
            lemma_pool_protocol_splits();
        }
    }
    let (name, version) = match split_protocol_version(protocol_version) {
        Some(parts) => parts,
        None => return Err(HandshakeError::InvalidProtocolVersion),
    };
    if !str_eq(name, "AleoStratum") {
        return Err(HandshakeError::InvalidProtocolName);
    }
    let parsed = parse_semver(version);
    proof {
        if protocol_version@ == pool_protocol_version() {
            assert(version@ == "2.0.0"@);
            assert(parsed->0@ == version_2_0_0());
            assert(spec_supported(version_2_0_0()));
        }
    }
    version_verdict(parsed)
}

/// A prover's accepted subscription: the response to send, the miner's
/// user agent and the protocol version it speaks.
pub struct Handshake {
    pub reply: StratumMessage,
    pub user_agent: String,
    pub version: SemVer,
}

/// The response to an accepted subscription: no session id, no server
/// nonce, and the pool's address.
pub open spec fn spec_subscribe_reply(id: IdView, pool_address: Seq<char>) -> StratumMessageView {
    StratumMessageView::Response(
        id,
        Some(
            crate::stratum::codec::ResponseParamsView::Array(
                seq![
                    crate::stratum::codec::BoxedTypeView::OptStr(None),
                    crate::stratum::codec::BoxedTypeView::OptStr(None),
                    crate::stratum::codec::BoxedTypeView::OptStr(Some(pool_address)),
                ],
            ),
        ),
        None,
    )
}

/// What the first message of a connection decides: it must be a
/// subscription whose protocol version the pool speaks, which is answered
/// with the pool's address.
pub fn handshake_reply(message: StratumMessage, pool_address: String) -> (result: Result<
    Handshake,
    HandshakeError,
>)
    ensures
        match message@ {
            StratumMessageView::Subscribe(id, user_agent, protocol_version, _) => match result {
                Ok(h) => {
                    &&& spec_protocol_verdict(protocol_version) == Ok::<
                        SemVerView,
                        HandshakeError,
                    >(h.version@)
                    &&& h.user_agent@ == user_agent
                    &&& h.reply@ == spec_subscribe_reply(id, pool_address@)
                },
                Err(e) => spec_protocol_verdict(protocol_version) == Err::<
                    SemVerView,
                    HandshakeError,
                >(e),
            },
            _ => result == Err::<Handshake, HandshakeError>(HandshakeError::UnexpectedMessage),
        },
        match message@ {
            StratumMessageView::Subscribe(id, _, protocol_version, _) => protocol_version
                == pool_protocol_version() ==> (result matches Ok(h) && h.version@ == version_2_0_0()
                && h.reply@ == spec_subscribe_reply(id, pool_address@)),
            _ => true,
        },
{
    match message {
        StratumMessage::Subscribe(id, user_agent, protocol_version, _) => {
            let version = match check_protocol_version(protocol_version.as_str()) {
                Ok(v) => v,
                Err(e) => return Err(e),
            };
            let mut items: Vec<BoxedType> = Vec::new();
            items.push(BoxedType::OptStr(None));
            items.push(BoxedType::OptStr(None));
            items.push(BoxedType::OptStr(Some(pool_address)));
            let reply = StratumMessage::Response(id, Some(ResponseParams::Array(items)), None);
            assert(crate::stratum::codec::boxed_views(items@) =~= seq![
                crate::stratum::codec::BoxedTypeView::OptStr(None),
                crate::stratum::codec::BoxedTypeView::OptStr(None),
                crate::stratum::codec::BoxedTypeView::OptStr(Some(pool_address@)),
            ]);
            Ok(Handshake { reply, user_agent, version })
        },
        _ => Err(HandshakeError::UnexpectedMessage),
    }
}

/// What the second message of a connection decides: it must be an
/// authorization whose worker name is an Aleo address, the prover's; its id
/// is answered.
pub fn authorization(message: StratumMessage) -> (result: Result<(Id, String), HandshakeError>)
    ensures
        match message@ {
            StratumMessageView::Authorize(id, worker, _) => if is_aleo_address(worker) {
                result matches Ok((i, w)) && i@ == id && w@ == worker
            } else {
                result == Err::<(Id, String), HandshakeError>(HandshakeError::InvalidAddress)
            },
            _ => result == Err::<(Id, String), HandshakeError>(HandshakeError::UnexpectedMessage),
        },
{
    match message {
        StratumMessage::Authorize(id, worker, _) => {
            if address_is_valid(worker.as_str()) {
                Ok((id, worker))
            } else {
                Err(HandshakeError::InvalidAddress)
            }
        },
        _ => Err(HandshakeError::UnexpectedMessage),
    }
}

/// The response to an accepted authorization: `true`.
pub fn authorized_reply(id: Id) -> (reply: StratumMessage)
    ensures
        reply@ == StratumMessageView::Response(
            id@,
            Some(crate::stratum::codec::ResponseParamsView::Bool(true)),
            None,
        ),
{
    StratumMessage::Response(id, Some(ResponseParams::Bool(true)), None)
}

/// The answer to a refused authorization: no result, and an error with the
/// protocol's code for an unauthorized worker (24) saying why.
pub open spec fn spec_refusal_reply(id: IdView) -> StratumMessageView {
    StratumMessageView::Response(
        id,
        None,
        Some(crate::stratum::codec::RpcErrorView { code: 24, message: "Invalid address"@ }),
    )
}

/// The response to a refused authorization: no result, and an error with
/// code 24 (unauthorized worker) and the reason.
pub fn refused_authorization_reply(id: Id) -> (reply: StratumMessage)
    ensures
        reply@ == spec_refusal_reply(id@),
{
    let error = crate::stratum::codec::RpcError { code: 24, message: "Invalid address".to_owned() };
    StratumMessage::Response(id, None, Some(error))
}

/// Where a prover connection stands: waiting for its subscription, for its
/// authorization, or mining.
#[derive(PartialEq, Eq, Structural, Clone, Copy, Debug)]
pub enum ConnectionPhase {
    Subscribing,
    Authorizing,
    Mining,
}

/// Why a prover connection ends.
#[derive(PartialEq, Eq, Structural, Clone, Copy, Debug)]
pub enum ConnectionEnd {
    Handshake(HandshakeError),
    Submission(SubmissionError),
}

/// What the connection does with a message.
pub enum ConnectionAction {
    /// The subscription is accepted: send its reply.
    Subscribed(Handshake),
    /// The prover is authorized for this address: send the reply.
    Authorized(String, StratumMessage),
    /// The authorization is refused: send the reply, then close.
    Refused(StratumMessage),
    /// A share to check.
    Submitted(Submission),
    /// Close the connection.
    Close(ConnectionEnd),
}

/// One step of a prover connection: a subscription, then an authorization
/// whose worker name is an Aleo address, then share submissions. Each phase
/// takes the one message that belongs to it; anything else, a subscription
/// for a protocol version the pool does not speak, or a submission whose
/// fields do not read, ends the connection, and a refused authorization is
/// answered with an error before it ends.
pub fn connection_step(phase: ConnectionPhase, message: StratumMessage, pool_address: String) -> (result: (
    ConnectionPhase,
    ConnectionAction,
))
    requires
        phase == ConnectionPhase::Mining ==> (message@ matches StratumMessageView::Submit(
            _,
            _,
            job_id,
            nonce,
            _,
            _,
        ) ==> nonce_width_ok(job_id, nonce)),
    ensures
        phase == ConnectionPhase::Subscribing ==> match message@ {
            StratumMessageView::Subscribe(id, _, protocol_version, _) => protocol_version
                == pool_protocol_version() ==> (result.0 == ConnectionPhase::Authorizing && (
            result.1 matches ConnectionAction::Subscribed(h) && h.version@ == version_2_0_0()
                && h.reply@ == spec_subscribe_reply(id, pool_address@))),
            _ => true,
        },
        match phase {
            ConnectionPhase::Subscribing => match message@ {
                StratumMessageView::Subscribe(id, user_agent, protocol_version, _) => match spec_protocol_verdict(
                    protocol_version,
                ) {
                    Ok(version) => {
                        &&& result.0 == ConnectionPhase::Authorizing
                        &&& result.1 matches ConnectionAction::Subscribed(h) && h.version@ == version
                            && h.user_agent@ == user_agent && h.reply@ == spec_subscribe_reply(
                            id,
                            pool_address@,
                        )
                    },
                    Err(e) => {
                        &&& result.0 == ConnectionPhase::Subscribing
                        &&& result.1 matches ConnectionAction::Close(end) && end == ConnectionEnd::Handshake(e)
                    },
                },
                _ => {
                    &&& result.0 == ConnectionPhase::Subscribing
                    &&& result.1 matches ConnectionAction::Close(end) && end == ConnectionEnd::Handshake(
                        HandshakeError::UnexpectedMessage,
                    )
                },
            },
            ConnectionPhase::Authorizing => match message@ {
                StratumMessageView::Authorize(id, worker, _) => if is_aleo_address(worker) {
                    &&& result.0 == ConnectionPhase::Mining
                    &&& result.1 matches ConnectionAction::Authorized(address, reply) && address@ == worker
                        && reply@ == StratumMessageView::Response(
                        id,
                        Some(crate::stratum::codec::ResponseParamsView::Bool(true)),
                        None,
                    )
                } else {
                    &&& result.0 == ConnectionPhase::Authorizing
                    &&& result.1 matches ConnectionAction::Refused(reply) && reply@ == spec_refusal_reply(id)
                },
                _ => {
                    &&& result.0 == ConnectionPhase::Authorizing
                    &&& result.1 matches ConnectionAction::Close(end) && end == ConnectionEnd::Handshake(
                        HandshakeError::UnexpectedMessage,
                    )
                },
            },
            ConnectionPhase::Mining => {
                &&& result.0 == ConnectionPhase::Mining
                &&& match message@ {
                    StratumMessageView::Submit(id, _, job_id, nonce, commitment, proof) => match spec_submit_error(
                        job_id,
                        nonce,
                        commitment,
                        proof,
                    ) {
                        None => result.1 matches ConnectionAction::Submitted(s) && submission_reads(
                            s,
                            id,
                            job_id,
                            nonce,
                            commitment,
                            proof,
                        ),
                        Some(e) => result.1 matches ConnectionAction::Close(end) && end
                            == ConnectionEnd::Submission(SubmissionError::BadField(e)),
                    },
                    _ => result.1 matches ConnectionAction::Close(end) && end == ConnectionEnd::Submission(
                        SubmissionError::UnexpectedMessage,
                    ),
                }
            },
        },
{
    match phase {
        ConnectionPhase::Subscribing => match handshake_reply(message, pool_address) {
            Ok(h) => (ConnectionPhase::Authorizing, ConnectionAction::Subscribed(h)),
            Err(e) => (ConnectionPhase::Subscribing, ConnectionAction::Close(ConnectionEnd::Handshake(e))),
        },
        ConnectionPhase::Authorizing => match message {
            StratumMessage::Authorize(id, worker, _) => {
                if address_is_valid(worker.as_str()) {
                    (ConnectionPhase::Mining, ConnectionAction::Authorized(worker, authorized_reply(id)))
                } else {
                    (ConnectionPhase::Authorizing, ConnectionAction::Refused(refused_authorization_reply(id)))
                }
            },
            _ => (
                ConnectionPhase::Authorizing,
                ConnectionAction::Close(ConnectionEnd::Handshake(HandshakeError::UnexpectedMessage)),
            ),
        },
        ConnectionPhase::Mining => match read_submission(message) {
            Ok(s) => (ConnectionPhase::Mining, ConnectionAction::Submitted(s)),
            Err(e) => (ConnectionPhase::Mining, ConnectionAction::Close(ConnectionEnd::Submission(e))),
        },
    }
}

proof fn lemma_hex_digit_char(nibble: u8)
    requires
        nibble < 16,
    ensures
        hex_digit(hex_char(nibble)) == Some(nibble),
{
}

proof fn lemma_hex_round_trip(bytes: Seq<u8>)
    ensures
        spec_hex_decode(spec_hex_encode(bytes)) == Some(bytes),
        spec_hex_encode(bytes).len() == 2 * bytes.len(),
    decreases bytes.len(),
{
    if bytes.len() == 0 {
        assert(spec_hex_encode(bytes) =~= Seq::<char>::empty());
        assert(bytes =~= Seq::<u8>::empty());
    } else {
        let b = bytes[0];
        let text = spec_hex_encode(bytes);
        lemma_hex_round_trip(bytes.skip(1));
        lemma_hex_digit_char(b / 16);
        lemma_hex_digit_char(b % 16);
        assert(text.skip(2) =~= spec_hex_encode(bytes.skip(1)));
        assert(text[0] == hex_char(b / 16));
        assert(text[1] == hex_char(b % 16));
        assert(((b / 16) * 16 + b % 16) as u8 == b);
        assert(seq![b] + bytes.skip(1) =~= bytes);
    }
}

/// Job id law: the job id the pool writes for an epoch reads back, when a
/// miner submits a share for it, as that same epoch number.
pub proof fn law_job_id_round_trip(epoch_number: u32)
    ensures
        spec_parse_job_id(spec_hex_encode(le_bytes(epoch_number as nat, 4))) == Some(epoch_number),
{
    reveal_with_fuel(vstd::arithmetic::power::pow, 5);
    assert(vstd::arithmetic::power::pow(256, 4) == 0x1_0000_0000);
    lemma_le_round_trip(epoch_number as nat, 4);
    lemma_hex_round_trip(le_bytes(epoch_number as nat, 4));
}

/// Hex law: hexadecimal text written for any bytes reads back as those
/// bytes.
pub proof fn law_hex_round_trip(bytes: Seq<u8>)
    ensures
        spec_hex_decode(spec_hex_encode(bytes)) == Some(bytes),
{
    lemma_hex_round_trip(bytes);
}

} // verus!
