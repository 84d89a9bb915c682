use aleo_pool_server::pool::server::{
    accept_share, check_share, check_share_difficulty, pplns_window_for_target, precheck_share, retarget, share_difficulty,
    share_reply, verify_share_proof, NonceSet, ProverRegistry, ProverState, ShareRejection,
};
use aleo_pool_server::pool::accounting::AccountingMessage;
use aleo_pool_server::stratum::codec::{Id, ResponseParams};
use aleo_pool_server::stratum::message::StratumMessage;
use snarkvm_algorithms::crypto_hash::sha256d_to_u64;
use snarkvm_console::network::Testnet3;
use snarkvm_console::prelude::ToBytes;
use snarkvm_synthesizer::EpochChallenge;

const ADDRESS: &str = "aleo1wvgwnqvy46qq0zemj0k6sfp3zv0mp77rw97khvwuhac05yuwscxqmfyhwf";

fn s(text: &str) -> String {
    text.to_string()
}

#[test]
fn nonce_set_remembers_until_cleared() {
    let mut set = NonceSet::new();
    assert!(!set.seen_nonce(5));
    assert!(set.seen_nonce(5));
    assert!(!set.seen_nonce(6));
    set.clear();
    assert!(!set.seen_nonce(5));
}

#[test]
fn precheck_order_and_nonce_recording() {
    let mut set = NonceSet::new();
    assert_eq!(precheck_share(&mut set, false, true, 1, 1, 9), Err(ShareRejection::UnknownProver));
    assert_eq!(precheck_share(&mut set, true, false, 1, 1, 9), Err(ShareRejection::NoEpochChallenge));
    assert_eq!(precheck_share(&mut set, true, true, 2, 1, 9), Err(ShareRejection::StaleProof));
    // none of the refusals above recorded the nonce
    assert_eq!(precheck_share(&mut set, true, true, 1, 1, 9), Ok(()));
    assert_eq!(precheck_share(&mut set, true, true, 1, 1, 9), Err(ShareRejection::DuplicateNonce));
}

#[test]
fn difficulty_checks() {
    // hash 4: difficulty u64::MAX / 4
    let d = u64::MAX / 4;
    assert_eq!(check_share_difficulty(100, 1000, Some(4)), Ok(d));
    assert_eq!(check_share_difficulty(u64::MAX, u64::MAX, Some(4)), Err(ShareRejection::DifficultyNotMet));
    // the proof target caps the prover's target
    assert_eq!(check_share_difficulty(u64::MAX, d, Some(4)), Ok(d));
    assert_eq!(check_share_difficulty(1, 1, None), Err(ShareRejection::InvalidProof));
    assert_eq!(check_share_difficulty(1, 1, Some(u64::MAX)), Ok(1));
}

#[test]
fn rejection_codes_and_messages() {
    let all = [
        (ShareRejection::UnknownProver, 24, "Unknown prover"),
        (ShareRejection::NoEpochChallenge, 21, "No epoch challenge"),
        (ShareRejection::StaleProof, 21, "Stale proof"),
        (ShareRejection::DuplicateNonce, 22, "Duplicate nonce"),
        (ShareRejection::InvalidProof, 23, "Invalid proof"),
        (ShareRejection::DifficultyNotMet, 23, "Difficulty target not met"),
        (ShareRejection::InvalidPolynomial, 20, "Invalid polynomial"),
        (ShareRejection::InvalidCommitment, 20, "Invalid commitment"),
        (ShareRejection::ProofNotVerified, 20, "Invalid proof"),
    ];
    for (r, code, msg) in all {
        assert_eq!(r.code(), code);
        assert_eq!(r.message(), msg);
    }
}

#[test]
fn retargeting() {
    assert_eq!(retarget(1, 50, 100), (50, true));
    assert_eq!(retarget(50, 50, 100), (50, false));
    assert_eq!(retarget(1, 500, 100), (100, true));
    assert_eq!(retarget(100, 500, 100), (100, false));
}

#[test]
fn window_for_target() {
    assert_eq!(pplns_window_for_target(1 << 11), 5 << 11);
    assert_eq!(pplns_window_for_target(0), 0);
}

#[test]
fn prover_state_difficulty() {
    let mut p = ProverState::new(s("aleo1prover"));
    assert_eq!(p.current_difficulty(), 1);
    assert_eq!(p.address(), "aleo1prover");
    p.set_next_difficulty(0);
    assert_eq!(p.next_difficulty(), 1);
    p.set_next_difficulty(40);
    assert_eq!(p.current_difficulty(), 1);
    assert_eq!(p.next_difficulty(), 40);
    assert_eq!(p.current_difficulty(), 40);
}

#[test]
fn prover_state_records_shares() {
    let mut p = ProverState::new(s("aleo1prover"));
    assert_eq!(p.add_share(10), 10);
    assert_eq!(p.add_share(5), 15);
    assert_eq!(p.speed_totals(), vec![15, 15, 15, 15]);
}

#[test]
fn registry_counts_provers_and_addresses() {
    let mut r = ProverRegistry::new();
    r.connect(s("1.1.1.1:1"));
    r.connect(s("2.2.2.2:2"));
    r.connect(s("3.3.3.3:3"));
    assert_eq!(r.online_provers(), 0);
    r.authenticate(s("1.1.1.1:1"), s("aleo1a"));
    r.authenticate(s("2.2.2.2:2"), s("aleo1a"));
    r.authenticate(s("3.3.3.3:3"), s("aleo1b"));
    assert_eq!(r.online_provers(), 3);
    assert_eq!(r.online_addresses(), 2);
    assert_eq!(r.address_prover_count("aleo1a"), 2);
    assert_eq!(r.address_prover_count("aleo1b"), 1);
    assert_eq!(r.address_prover_count("aleo1c"), 0);
    let mut peers = r.address_connections("aleo1a");
    peers.sort();
    assert_eq!(peers, vec![s("1.1.1.1:1"), s("2.2.2.2:2")]);
    r.disconnect(&s("1.1.1.1:1"));
    assert_eq!(r.online_provers(), 2);
    assert_eq!(r.address_prover_count("aleo1a"), 1);
    r.disconnect(&s("3.3.3.3:3"));
    assert_eq!(r.online_addresses(), 1);
    assert_eq!(r.address_prover_count("aleo1b"), 0);
    // a connection that never authenticated leaves the counts alone
    r.disconnect(&s("9.9.9.9:9"));
    assert_eq!(r.online_provers(), 1);
}

#[test]
fn authenticate_then_disconnect_restores_counts() {
    let mut r = ProverRegistry::new();
    r.authenticate(s("1.1.1.1:1"), s("aleo1a"));
    let before = (r.online_provers(), r.online_addresses(), r.address_prover_count("aleo1b"));
    r.connect(s("4.4.4.4:4"));
    r.authenticate(s("4.4.4.4:4"), s("aleo1b"));
    r.disconnect(&s("4.4.4.4:4"));
    assert_eq!(before, (r.online_provers(), r.online_addresses(), r.address_prover_count("aleo1b")));
}

#[test]
fn same_peer_authenticating_twice_counts_once() {
    let mut r = ProverRegistry::new();
    r.authenticate(s("1.1.1.1:1"), s("aleo1a"));
    r.authenticate(s("1.1.1.1:1"), s("aleo1a"));
    assert_eq!(r.address_prover_count("aleo1a"), 1);
    assert_eq!(r.online_provers(), 1);
}

#[test]
fn share_difficulty_hashes_the_commitment() {
    let form = vec![1u8, 2, 3, 4];
    let hash = sha256d_to_u64(&form);
    assert_ne!(hash, 0);
    let difficulty = u64::MAX / hash;
    assert_eq!(share_difficulty(1, u64::MAX, &Some(form.clone())), Some(Ok(difficulty)));
    assert_eq!(
        share_difficulty(u64::MAX, u64::MAX, &Some(form.clone())),
        if difficulty < u64::MAX { Some(Err(ShareRejection::DifficultyNotMet)) } else { Some(Ok(difficulty)) }
    );
    // the network's proof target caps the prover's target
    assert_eq!(share_difficulty(u64::MAX, difficulty, &Some(form)), Some(Ok(difficulty)));
    assert_eq!(share_difficulty(1, 1, &None), Some(Err(ShareRejection::InvalidProof)));
}

#[test]
fn share_replies() {
    assert!(matches!(
        share_reply(Id::Num(3), &Ok(10)),
        StratumMessage::Response(Id::Num(3), Some(ResponseParams::Bool(true)), None)
    ));
    match share_reply(Id::Num(4), &Err(ShareRejection::DuplicateNonce)) {
        StratumMessage::Response(Id::Num(4), None, Some(error)) => {
            assert_eq!(error.code, 22);
            assert_eq!(error.message, "Duplicate nonce");
        }
        _ => panic!("expected an error response"),
    }
}

#[test]
fn address_stats_need_an_address() {
    let mut r = ProverRegistry::new();
    r.authenticate(s("1.1.1.1:1"), s(ADDRESS));
    let (count, peers) = r.address_stats(ADDRESS).unwrap();
    assert_eq!(count, 1);
    assert_eq!(peers, vec![s("1.1.1.1:1")]);
    assert!(r.address_stats("aleo1a").is_none());
    assert!(r.address_stats("").is_none());
}

#[test]
fn targets_stay_at_least_one() {
    let mut p = ProverState::new(s("aleo1prover"));
    p.set_next_difficulty(0);
    assert_eq!(p.next_difficulty(), 1);
    assert_eq!(p.current_difficulty(), 1);
    assert_eq!(retarget(p.current_difficulty(), 1, 1), (1, false));
    assert_eq!(retarget(5, u64::MAX, 1), (1, true));
}

#[test]
fn share_checks_in_order() {
    let form = Some(vec![1u8, 2, 3, 4]);
    let difficulty = u64::MAX / sha256d_to_u64(&[1, 2, 3, 4]);
    let mut set = NonceSet::new();
    assert_eq!(
        check_share(&mut set, false, true, 1, 1, 7, 1, u64::MAX, &form),
        Some(Err(ShareRejection::UnknownProver))
    );
    assert_eq!(
        check_share(&mut set, true, true, 0, 1, 7, 1, u64::MAX, &form),
        Some(Err(ShareRejection::StaleProof))
    );
    assert_eq!(check_share(&mut set, true, true, 1, 1, 7, 1, u64::MAX, &form), Some(Ok(difficulty)));
    assert_eq!(
        check_share(&mut set, true, true, 1, 1, 7, 1, u64::MAX, &form),
        Some(Err(ShareRejection::DuplicateNonce))
    );
    // the nonce is recorded even when the commitment has no byte form
    assert_eq!(check_share(&mut set, true, true, 1, 1, 8, 1, u64::MAX, &None), Some(Err(ShareRejection::InvalidProof)));
    assert!(set.seen_nonce(8));
}

#[test]
fn accepted_and_refused_shares() {
    let (reply, credit) = accept_share(Id::Num(6), s(ADDRESS), Ok(()), 42);
    assert!(matches!(reply, StratumMessage::Response(Id::Num(6), Some(ResponseParams::Bool(true)), None)));
    assert!(matches!(credit, Some(AccountingMessage::NewShare(a, 42)) if a == ADDRESS));
    let (reply, credit) = accept_share(Id::Num(7), s(ADDRESS), Err(ShareRejection::ProofNotVerified), 42);
    match reply {
        StratumMessage::Response(Id::Num(7), None, Some(error)) => {
            assert_eq!(error.code, 20);
            assert_eq!(error.message, "Invalid proof");
        }
        _ => panic!("expected an error response"),
    }
    assert!(credit.is_none());
}

#[test]
fn share_proof_checks_in_order() {
    let challenge = EpochChallenge::<Testnet3>::new(0, Default::default(), 7).unwrap().to_bytes_le().unwrap();
    let commitment = vec![0u8; 48];
    let proof = vec![0u8; 49];
    // an epoch challenge that does not read leaves no prover polynomial
    assert_eq!(
        verify_share_proof(&[], &[1, 2, 3], ADDRESS, 1, &commitment, &proof),
        Err(ShareRejection::InvalidPolynomial)
    );
    // nor does an address that is not one
    assert_eq!(
        verify_share_proof(&[], &challenge, "aleo1x", 1, &commitment, &proof),
        Err(ShareRejection::InvalidPolynomial)
    );
    // a polynomial, but no verifying key: the proof does not hold
    assert_eq!(
        verify_share_proof(&[], &challenge, ADDRESS, 1, &commitment, &proof),
        Err(ShareRejection::ProofNotVerified)
    );
}
