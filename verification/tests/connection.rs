use aleo_pool_server::pool::connection::{
    authorization, authorized_reply, check_protocol_version, decode_submit_fields,
    handshake_reply, job_id_for_epoch, nonce_width_fits,
    read_submission, split_protocol_version, version_verdict, HandshakeError, SemVer,
    SubmissionError, SubmitError,
};
use aleo_pool_server::pool::connection::{
    connection_step, job_notify, refused_authorization_reply, ConnectionAction, ConnectionEnd,
    ConnectionPhase,
};
use aleo_pool_server::stratum::codec::{BoxedType, Id, ResponseParams};
use aleo_pool_server::stratum::message::StratumMessage;
use snarkvm_algorithms::polycommit::kzg10::{KZGCommitment, KZGProof};
use snarkvm_console::network::{Environment, Testnet3};
use snarkvm_console::prelude::{FromBytes, ToBytes};

type Curve = <Testnet3 as Environment>::PairingCurve;

const ADDRESS: &str = "aleo1wvgwnqvy46qq0zemj0k6sfp3zv0mp77rw97khvwuhac05yuwscxqmfyhwf";

fn s(text: &str) -> String {
    text.to_string()
}

fn commitment_bytes() -> Vec<u8> {
    KZGCommitment::<Curve>::empty().to_bytes_le().unwrap()
}

fn commitment_hex() -> String {
    hex::encode(commitment_bytes())
}

/// A proof whose point is the identity and that carries no random value:
/// the point's bytes, then a zero flag for the absent value.
fn proof_bytes() -> Vec<u8> {
    let mut bytes = commitment_bytes();
    bytes.push(0);
    assert!(KZGProof::<Curve>::from_bytes_le(&bytes[..]).is_ok());
    bytes
}

fn proof_hex() -> String {
    hex::encode(proof_bytes())
}

fn version(major: u64, minor: u64, patch: u64, pre: &str, build: &str) -> SemVer {
    SemVer { major, minor, patch, pre: s(pre), build: s(build) }
}

#[test]
fn job_id_is_little_endian_hex() {
    assert_eq!(job_id_for_epoch(1), "01000000");
    assert_eq!(job_id_for_epoch(0x12345678), "78563412");
    assert_eq!(job_id_for_epoch(u32::MAX), "ffffffff");
}

#[test]
fn job_id_round_trips_through_submit_fields() {
    for epoch in [0u32, 1, 255, 256, 0xdeadbeef, u32::MAX] {
        let job = job_id_for_epoch(epoch);
        let fields = decode_submit_fields(&job, "0100000000000000", &commitment_hex(), &proof_hex()).unwrap();
        assert_eq!(fields.epoch_number, epoch);
    }
}

#[test]
fn submit_fields_decode() {
    let commitment = commitment_hex().to_uppercase();
    let fields = decode_submit_fields("2A000000", "0201000000000000", &commitment, &proof_hex()).unwrap();
    assert_eq!(fields.epoch_number, 42);
    assert_eq!(fields.nonce, 258);
    assert_eq!(fields.commitment, commitment_bytes());
    assert_eq!(fields.commitment_form, Some(commitment_bytes()));
    assert_eq!(fields.proof, proof_bytes());
}

#[test]
fn submit_field_errors_in_order() {
    let r = decode_submit_fields("xyz", "zz", "zz", "zz");
    assert_eq!(r.err(), Some(SubmitError::JobIdNotHex));
    let r = decode_submit_fields("010000", "zz", "zz", "zz");
    assert_eq!(r.err(), Some(SubmitError::JobIdLength));
    let r = decode_submit_fields("01000000", "0g00000000000000", "zz", "zz");
    assert_eq!(r.err(), Some(SubmitError::NonceNotHex));
    let r = decode_submit_fields("01000000", "0000000000000000", "abc", "zz");
    assert_eq!(r.err(), Some(SubmitError::CommitmentNotHex));
    let r = decode_submit_fields("01000000", "0000000000000000", "deadbeef", "zz");
    assert_eq!(r.err(), Some(SubmitError::InvalidCommitment));
    let r = decode_submit_fields("01000000", "0000000000000000", &commitment_hex(), "é0");
    assert_eq!(r.err(), Some(SubmitError::ProofNotHex));
    let r = decode_submit_fields("01000000", "0000000000000000", &commitment_hex(), "11");
    assert_eq!(r.err(), Some(SubmitError::InvalidProof));
}

#[test]
fn job_notify_carries_challenge_hex() {
    match job_notify(s("07000000"), &[0xab, 0x01]) {
        StratumMessage::Notify(job, challenge, None, true) => {
            assert_eq!(job, "07000000");
            assert_eq!(challenge, "ab01");
        }
        _ => panic!("expected a notify message"),
    }
}

#[test]
fn nonce_width_check() {
    assert!(nonce_width_fits("01000000", "0000000000000000"));
    assert!(!nonce_width_fits("01000000", "00000000"));
    // a job id that does not read makes the nonce irrelevant
    assert!(nonce_width_fits("010000", "00"));
    assert!(nonce_width_fits("01000000", "zz"));
}

#[test]
fn split_protocol() {
    assert_eq!(split_protocol_version("AleoStratum/2.0.0"), Some(("AleoStratum", "2.0.0")));
    assert_eq!(split_protocol_version("AleoStratum"), None);
    assert_eq!(split_protocol_version("a/b/c"), None);
    assert_eq!(split_protocol_version("/"), Some(("", "")));
}

#[test]
fn protocol_version_checks() {
    let v = check_protocol_version("AleoStratum/2.0.0").unwrap();
    assert_eq!((v.major, v.minor, v.patch), (2, 0, 0));
    assert_eq!(check_protocol_version("AleoStratum").err(), Some(HandshakeError::InvalidProtocolVersion));
    assert_eq!(check_protocol_version("Stratum/2.0.0").err(), Some(HandshakeError::InvalidProtocolName));
    assert_eq!(check_protocol_version("AleoStratum/2.0").err(), Some(HandshakeError::InvalidVersion));
    assert_eq!(check_protocol_version("AleoStratum/1.0.0").err(), Some(HandshakeError::UnsupportedVersion));
    assert_eq!(check_protocol_version("AleoStratum/2.0.1").err(), Some(HandshakeError::UnsupportedVersion));
    assert_eq!(
        check_protocol_version("AleoStratum/2.0.0-beta").err(),
        Some(HandshakeError::UnsupportedVersion)
    );
    assert_eq!(
        check_protocol_version("AleoStratum/2.0.0+build5").err(),
        Some(HandshakeError::UnsupportedVersion)
    );
}

#[test]
fn version_verdicts() {
    assert!(version_verdict(Some(version(2, 0, 0, "", ""))).is_ok());
    assert_eq!(version_verdict(None).err(), Some(HandshakeError::InvalidVersion));
    assert_eq!(
        version_verdict(Some(version(3, 0, 0, "", ""))).err(),
        Some(HandshakeError::UnsupportedVersion)
    );
    assert!(!version(2, 0, 0, "rc1", "").is_supported());
    assert!(version(2, 0, 0, "", "").is_supported());
}

#[test]
fn handshake_accepts_subscription() {
    let msg = StratumMessage::Subscribe(Id::Num(5), s("miner"), s("AleoStratum/2.0.0"), None);
    let h = handshake_reply(msg, s("aleo1pool")).unwrap();
    assert_eq!(h.user_agent, "miner");
    assert_eq!(h.version.major, 2);
    match h.reply {
        StratumMessage::Response(Id::Num(5), Some(ResponseParams::Array(items)), None) => {
            assert_eq!(items.len(), 3);
            assert!(matches!(&items[0], BoxedType::OptStr(None)));
            assert!(matches!(&items[1], BoxedType::OptStr(None)));
            assert!(matches!(&items[2], BoxedType::OptStr(Some(a))  if a == "aleo1pool"));
        }
        _ => panic!("expected the subscription response"),
    }
}

#[test]
fn handshake_refusals() {
    let msg = StratumMessage::Subscribe(Id::Num(5), s("miner"), s("AleoStratum/1.0.0"), None);
    assert_eq!(handshake_reply(msg, s("p")).err(), Some(HandshakeError::UnsupportedVersion));
    let msg = StratumMessage::Authorize(Id::Num(5), s("w"), s("p"));
    assert_eq!(handshake_reply(msg, s("p")).err(), Some(HandshakeError::UnexpectedMessage));
}

#[test]
fn authorization_and_reply() {
    let (id, worker) = authorization(StratumMessage::Authorize(Id::Num(2), s(ADDRESS), s("pw"))).unwrap();
    assert!(matches!(id, Id::Num(2)));
    assert_eq!(worker, ADDRESS);
    assert_eq!(
        authorization(StratumMessage::Authorize(Id::Num(2), s("aleo1x"), s("pw"))).err(),
        Some(HandshakeError::InvalidAddress)
    );
    assert_eq!(
        authorization(StratumMessage::SetTarget(1)).err(),
        Some(HandshakeError::UnexpectedMessage)
    );
    assert!(matches!(
        authorized_reply(Id::Num(2)),
        StratumMessage::Response(Id::Num(2), Some(ResponseParams::Bool(true)), None)
    ));
}

#[test]
fn submissions() {
    let msg = StratumMessage::Submit(
        Id::Num(11),
        s("w"),
        s("07000000"),
        s("ff00000000000000"),
        commitment_hex(),
        proof_hex(),
    );
    let sub = read_submission(msg).unwrap();
    assert!(matches!(sub.id, Id::Num(11)));
    assert_eq!(sub.fields.epoch_number, 7);
    assert_eq!(sub.fields.nonce, 255);
    assert_eq!(sub.fields.commitment, commitment_bytes());
    assert_eq!(sub.fields.proof, proof_bytes());
    let msg = StratumMessage::Submit(Id::Num(1), s("w"), s("07000000"), s("ff00000000000000"), s("00"), s("11"));
    assert_eq!(read_submission(msg).err(), Some(SubmissionError::BadField(SubmitError::InvalidCommitment)));
    let msg = StratumMessage::Submit(Id::Num(1), s("w"), s("07"), s("ff"), s("00"), s("11"));
    assert_eq!(read_submission(msg).err(), Some(SubmissionError::BadField(SubmitError::JobIdLength)));
    assert_eq!(
        read_submission(StratumMessage::SetTarget(3)).err(),
        Some(SubmissionError::UnexpectedMessage)
    );
}

#[test]
fn refused_authorization_is_answered() {
    match refused_authorization_reply(Id::Num(3)) {
        StratumMessage::Response(Id::Num(3), None, Some(error)) => {
            assert_eq!(error.code, 24);
            assert_eq!(error.message, "Invalid address");
        }
        _ => panic!("expected an error response"),
    }
}

#[test]
fn connection_phases() {
    let sub = StratumMessage::Subscribe(Id::Num(1), s("miner"), s("AleoStratum/2.0.0"), None);
    let (phase, action) = connection_step(ConnectionPhase::Subscribing, sub, s(ADDRESS));
    assert_eq!(phase, ConnectionPhase::Authorizing);
    assert!(matches!(action, ConnectionAction::Subscribed(h) if h.user_agent == "miner"));
    let old = StratumMessage::Subscribe(Id::Num(1), s("miner"), s("AleoStratum/1.0.0"), None);
    let (phase, action) = connection_step(ConnectionPhase::Subscribing, old, s(ADDRESS));
    assert_eq!(phase, ConnectionPhase::Subscribing);
    assert!(matches!(action, ConnectionAction::Close(ConnectionEnd::Handshake(HandshakeError::UnsupportedVersion))));

    let auth = StratumMessage::Authorize(Id::Num(2), s(ADDRESS), s("pw"));
    let (phase, action) = connection_step(ConnectionPhase::Authorizing, auth, s(""));
    assert_eq!(phase, ConnectionPhase::Mining);
    match action {
        ConnectionAction::Authorized(address, StratumMessage::Response(Id::Num(2), Some(ResponseParams::Bool(true)), None)) => {
            assert_eq!(address, ADDRESS)
        }
        _ => panic!("expected an authorization"),
    }
    let bad = StratumMessage::Authorize(Id::Num(4), s("aleo1x"), s("pw"));
    let (phase, action) = connection_step(ConnectionPhase::Authorizing, bad, s(""));
    assert_eq!(phase, ConnectionPhase::Authorizing);
    assert!(matches!(action, ConnectionAction::Refused(StratumMessage::Response(Id::Num(4), None, Some(_)))));

    let submit = StratumMessage::Submit(
        Id::Num(5),
        s("w"),
        job_id_for_epoch(9),
        s("0100000000000000"),
        commitment_hex(),
        proof_hex(),
    );
    let (phase, action) = connection_step(ConnectionPhase::Mining, submit, s(""));
    assert_eq!(phase, ConnectionPhase::Mining);
    assert!(matches!(action, ConnectionAction::Submitted(sub) if sub.fields.epoch_number == 9 && sub.fields.nonce == 1));
    let (_, action) = connection_step(ConnectionPhase::Mining, StratumMessage::SetTarget(1), s(""));
    assert!(matches!(action, ConnectionAction::Close(ConnectionEnd::Submission(SubmissionError::UnexpectedMessage))));
}
