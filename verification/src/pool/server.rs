//! The pool server's bookkeeping: which provers are connected under which
//! address, what each prover's difficulty is, which nonces were seen, and
//! whether a submitted share is accepted.

use std::time::Duration;
use vstd::prelude::*;

use crate::pool::aleo::{
    address_is_valid, is_aleo_address, prover_polynomial_builds, prover_polynomial_for, sha256d_to_u64,
    sha256d_u64, solution_verification, verify_solution,
};
use crate::pool::accounting::AccountingMessage;
use crate::speedometer::{
    drop_stale, events_total, fresh_total, in_time_order, law_read_total, law_recorded_value_counts,
    read_outcome, serves_remembered, Speedometer,
};
use crate::stratum::codec::{Id, ResponseParams, ResponseParamsView, RpcError, RpcErrorView};
use crate::stratum::message::{StratumMessage, StratumMessageView};
use vstd::hash_map::StringHashMap;

verus! {

// ---------------------------------------------------------------------------
// Seen nonces
// ---------------------------------------------------------------------------

#[verifier::external_type_specification]
#[verifier::external_body]
#[verifier::reject_recursive_types(T)]
#[verifier::reject_recursive_types(S)]
pub struct ExFlurryHashSet<T, S>(flurry::HashSet<T, S>);

#[verifier::external_type_specification]
#[verifier::external_body]
pub struct ExFlurryDefaultHashBuilder(flurry::DefaultHashBuilder);

/// The nonces a concurrent set holds.
pub uninterp spec fn flurry_contents(set: flurry::HashSet<u64>) -> Set<u64>;

/// `flurry::HashSet::with_capacity`: an empty set with room reserved.
#[verifier::external_body]
fn flurry_with_capacity(capacity: usize) -> (set: flurry::HashSet<u64>)
    ensures
        flurry_contents(set) == Set::<u64>::empty(),
{
    flurry::HashSet::with_capacity(capacity)
}

/// `flurry::HashSetRef::insert` (through `pin`): adds the nonce, and says
/// whether it was absent before.
#[verifier::external_body]
fn flurry_insert(set: &mut flurry::HashSet<u64>, nonce: u64) -> (inserted: bool)
    ensures
        inserted == !flurry_contents(*old(set)).contains(nonce),
        flurry_contents(*final(set)) == flurry_contents(*old(set)).insert(nonce),
{
    set.pin().insert(nonce)
}

/// `flurry::HashSetRef::clear` (through `pin`): removes every nonce.
#[verifier::external_body]
fn flurry_clear(set: &mut flurry::HashSet<u64>)
    ensures
        flurry_contents(*final(set)) == Set::<u64>::empty(),
{
    set.pin().clear()
}

/// The nonces of the shares submitted since the set was last cleared.
pub struct NonceSet {
    seen: flurry::HashSet<u64>,
}

impl NonceSet {
    pub closed spec fn contents(&self) -> Set<u64> {
        flurry_contents(self.seen)
    }

    /// An empty set, with room for ten million nonces.
    pub fn new() -> (set: Self)
        ensures
            set.contents() == Set::<u64>::empty(),
    {
        NonceSet { seen: flurry_with_capacity(10 << 20) }
    }

    /// Records `nonce`, and says whether it had been seen before.
    pub fn seen_nonce(&mut self, nonce: u64) -> (seen: bool)
        ensures
            seen == old(self).contents().contains(nonce),
            final(self).contents() == old(self).contents().insert(nonce),
    {
        !flurry_insert(&mut self.seen, nonce)
    }

    /// Forgets every nonce.
    pub fn clear(&mut self)
        ensures
            final(self).contents() == Set::<u64>::empty(),
    {
        flurry_clear(&mut self.seen)
    }
}

// ---------------------------------------------------------------------------
// Share checks
// ---------------------------------------------------------------------------

/// Why a submitted share is refused.
#[derive(PartialEq, Eq, Structural, Clone, Copy, Debug)]
pub enum ShareRejection {
    /// The prover is not authenticated.
    UnknownProver,
    /// The pool has no epoch challenge yet.
    NoEpochChallenge,
    /// The share is for another epoch.
    StaleProof,
    /// The nonce was submitted before.
    DuplicateNonce,
    /// The commitment has no byte form.
    InvalidProof,
    /// The share is easier than the prover's target.
    DifficultyNotMet,
    /// The prover polynomial cannot be built.
    InvalidPolynomial,
    /// The commitment cannot be hashed.
    InvalidCommitment,
    /// The proof does not verify.
    ProofNotVerified,
}

/// The stratum error code for each refusal: 24 unauthorized worker, 21 job
/// not found (stale), 22 duplicate share, 23 low difficulty share, 20 other.
pub open spec fn spec_rejection_code(r: ShareRejection) -> i64 {
    match r {
        ShareRejection::UnknownProver => 24,
        ShareRejection::NoEpochChallenge => 21,
        ShareRejection::StaleProof => 21,
        ShareRejection::DuplicateNonce => 22,
        ShareRejection::InvalidProof => 23,
        ShareRejection::DifficultyNotMet => 23,
        ShareRejection::InvalidPolynomial => 20,
        ShareRejection::InvalidCommitment => 20,
        ShareRejection::ProofNotVerified => 20,
    }
}

/// The message sent back for each refusal.
pub open spec fn spec_rejection_message(r: ShareRejection) -> Seq<char> {
    match r {
        ShareRejection::UnknownProver => "Unknown prover"@,
        ShareRejection::NoEpochChallenge => "No epoch challenge"@,
        ShareRejection::StaleProof => "Stale proof"@,
        ShareRejection::DuplicateNonce => "Duplicate nonce"@,
        ShareRejection::InvalidProof => "Invalid proof"@,
        ShareRejection::DifficultyNotMet => "Difficulty target not met"@,
        ShareRejection::InvalidPolynomial => "Invalid polynomial"@,
        ShareRejection::InvalidCommitment => "Invalid commitment"@,
        ShareRejection::ProofNotVerified => "Invalid proof"@,
    }
}

/// The answer to a submitted share: `true` when it is accepted, else the
/// refusal's code and message.
pub fn share_reply(id: Id, verdict: &Result<u64, ShareRejection>) -> (reply: StratumMessage)
    ensures
        reply@ == match verdict {
            Ok(_) => StratumMessageView::Response(id@, Some(ResponseParamsView::Bool(true)), None),
            Err(r) => StratumMessageView::Response(
                id@,
                None,
                Some(RpcErrorView { code: spec_rejection_code(*r), message: spec_rejection_message(*r) }),
            ),
        },
{
    match verdict {
        Ok(_) => StratumMessage::Response(id, Some(ResponseParams::Bool(true)), None),
        Err(r) => {
            let error = RpcError { code: r.code(), message: r.message().to_owned() };
            StratumMessage::Response(id, None, Some(error))
        },
    }
}

impl ShareRejection {
    /// The stratum error code sent back for this refusal.
    pub fn code(&self) -> (code: i64)
        ensures
            code == spec_rejection_code(*self),
    {
        match self {
            ShareRejection::UnknownProver => 24,
            ShareRejection::NoEpochChallenge => 21,
            ShareRejection::StaleProof => 21,
            ShareRejection::DuplicateNonce => 22,
            ShareRejection::InvalidProof => 23,
            ShareRejection::DifficultyNotMet => 23,
            ShareRejection::InvalidPolynomial => 20,
            ShareRejection::InvalidCommitment => 20,
            ShareRejection::ProofNotVerified => 20,
        }
    }

    /// The message sent back for this refusal.
    pub fn message(&self) -> (message: &'static str)
        ensures
            message@ == spec_rejection_message(*self),
    {
        match self {
            ShareRejection::UnknownProver => "Unknown prover",
            ShareRejection::NoEpochChallenge => "No epoch challenge",
            ShareRejection::StaleProof => "Stale proof",
            ShareRejection::DuplicateNonce => "Duplicate nonce",
            ShareRejection::InvalidProof => "Invalid proof",
            ShareRejection::DifficultyNotMet => "Difficulty target not met",
            ShareRejection::InvalidPolynomial => "Invalid polynomial",
            ShareRejection::InvalidCommitment => "Invalid commitment",
            ShareRejection::ProofNotVerified => "Invalid proof",
        }
    }
}

/// The outcome of the first checks of a submitted share, given the nonces
/// seen so far: the verdict, and the nonces seen afterwards.
pub open spec fn spec_precheck(
    seen: Set<u64>,
    prover_known: bool,
    has_challenge: bool,
    epoch_number: u32,
    latest_epoch_number: u32,
    nonce: u64,
) -> (Result<(), ShareRejection>, Set<u64>) {
    if !prover_known {
        (Err(ShareRejection::UnknownProver), seen)
    } else if !has_challenge {
        (Err(ShareRejection::NoEpochChallenge), seen)
    } else if epoch_number != latest_epoch_number {
        (Err(ShareRejection::StaleProof), seen)
    } else if seen.contains(nonce) {
        (Err(ShareRejection::DuplicateNonce), seen.insert(nonce))
    } else {
        (Ok(()), seen.insert(nonce))
    }
}

/// The first checks of a submitted share, in order: the prover is known,
/// there is an epoch challenge, the share is for the latest epoch, and its
/// nonce is new. The nonce is recorded exactly when the first three pass.
pub fn precheck_share(
    nonces: &mut NonceSet,
    prover_known: bool,
    has_challenge: bool,
    epoch_number: u32,
    latest_epoch_number: u32,
    nonce: u64,
) -> (result: Result<(), ShareRejection>)
    ensures
        (result, final(nonces).contents()) == spec_precheck(
            old(nonces).contents(),
            prover_known,
            has_challenge,
            epoch_number,
            latest_epoch_number,
            nonce,
        ),
{
    if !prover_known {
        return Err(ShareRejection::UnknownProver);
    }
    if !has_challenge {
        return Err(ShareRejection::NoEpochChallenge);
    }
    if epoch_number != latest_epoch_number {
        return Err(ShareRejection::StaleProof);
    }
    if nonces.seen_nonce(nonce) {
        return Err(ShareRejection::DuplicateNonce);
    }
    Ok(())
}

/// Share law: a nonce is accepted at most once between two clearings of the
/// seen nonces; once a share passed the first checks, any later share with
/// the same nonce for the same epoch is refused as a duplicate (code 22),
/// whatever other nonces were recorded in between.
pub proof fn law_nonce_accepted_once(
    seen: Set<u64>,
    epoch_number: u32,
    nonce: u64,
    later_seen: Set<u64>,
)
    requires
        spec_precheck(seen, true, true, epoch_number, epoch_number, nonce).0 is Ok,
        spec_precheck(seen, true, true, epoch_number, epoch_number, nonce).1.subset_of(later_seen),
    ensures
        spec_precheck(later_seen, true, true, epoch_number, epoch_number, nonce).0 == Err::<
            (),
            ShareRejection,
        >(ShareRejection::DuplicateNonce),
{
}

/// Share law: every refusal is answered with one of the protocol's
/// application error codes, 20 to 25.
pub proof fn law_rejection_codes_in_protocol_range(r: ShareRejection)
    ensures
        20 <= spec_rejection_code(r) <= 25,
{
}

/// The difficulty of a share whose commitment hashes to `hash`.
pub open spec fn spec_proof_difficulty(hash: u64) -> u64 {
    (u64::MAX / hash) as u64
}

/// The difficulty check of a share: the target is the prover's scaled
/// target, capped at the network's proof target; a commitment without byte
/// form is refused, and otherwise the share's difficulty (the largest
/// 64-bit value over the commitment's hash) must reach the target. The
/// share's difficulty comes back.
pub fn check_share_difficulty(scaled_target: u64, proof_target: u64, commitment_hash: Option<u64>) -> (result:
    Result<u64, ShareRejection>)
    requires
        commitment_hash != Some(0u64),
    ensures
        match commitment_hash {
            None => result == Err::<u64, ShareRejection>(ShareRejection::InvalidProof),
            Some(hash) => {
                let target = if scaled_target > proof_target {
                    proof_target
                } else {
                    scaled_target
                };
                if spec_proof_difficulty(hash) < target {
                    result == Err::<u64, ShareRejection>(ShareRejection::DifficultyNotMet)
                } else {
                    result == Ok::<u64, ShareRejection>(spec_proof_difficulty(hash))
                }
            },
        },
{
    let mut target = scaled_target;
    if target > proof_target {
        target = proof_target;
    }
    let hash = match commitment_hash {
        Some(h) => h,
        None => return Err(ShareRejection::InvalidProof),
    };
    let difficulty = u64::MAX / hash;
    if difficulty < target {
        return Err(ShareRejection::DifficultyNotMet);
    }
    Ok(difficulty)
}

/// The outcome of the difficulty check of a share whose commitment hashes
/// to a nonzero `hash`, as `check_share_difficulty` gives it.
pub open spec fn spec_difficulty_verdict(scaled_target: u64, proof_target: u64, hash: u64) -> Result<
    u64,
    ShareRejection,
> {
    let target = if scaled_target > proof_target {
        proof_target
    } else {
        scaled_target
    };
    if spec_proof_difficulty(hash) < target {
        Err(ShareRejection::DifficultyNotMet)
    } else {
        Ok(spec_proof_difficulty(hash))
    }
}

/// The difficulty check of a share from its commitment's byte form, which
/// is hashed (double SHA-256, first eight bytes little-endian). A commitment
/// without byte form is refused as an invalid proof. A hash of zero has no
/// difficulty (the largest value over it is undefined): then nothing is
/// decided and `None` comes back.
pub fn share_difficulty(scaled_target: u64, proof_target: u64, commitment_form: &Option<Vec<u8>>) -> (result:
    Option<Result<u64, ShareRejection>>)
    ensures
        match commitment_form {
            None => result == Some(Err::<u64, ShareRejection>(ShareRejection::InvalidProof)),
            Some(form) => if sha256d_u64(form@) == 0 {
                result is None
            } else {
                result == Some(spec_difficulty_verdict(scaled_target, proof_target, sha256d_u64(form@)))
            },
        },
{
    match commitment_form {
        None => Some(check_share_difficulty(scaled_target, proof_target, None)),
        Some(form) => {
            let hash = sha256d_to_u64(form.as_slice());
            if hash == 0 {
                None
            } else {
                Some(check_share_difficulty(scaled_target, proof_target, Some(hash)))
            }
        },
    }
}

/// The checks a submitted share goes through before its proof is verified,
/// in order: the first checks (known prover, an epoch challenge, the latest
/// epoch, a new nonce), then the difficulty of its commitment against the
/// prover's scaled target capped at the network's proof target. The nonce
/// is recorded exactly when the first three checks pass. `None` when the
/// commitment hashes to zero, whose difficulty is undefined.
pub fn check_share(
    nonces: &mut NonceSet,
    prover_known: bool,
    has_challenge: bool,
    epoch_number: u32,
    latest_epoch_number: u32,
    nonce: u64,
    scaled_target: u64,
    proof_target: u64,
    commitment_form: &Option<Vec<u8>>,
) -> (result: Option<Result<u64, ShareRejection>>)
    ensures
        final(nonces).contents() == spec_precheck(
            old(nonces).contents(),
            prover_known,
            has_challenge,
            epoch_number,
            latest_epoch_number,
            nonce,
        ).1,
        match spec_precheck(
            old(nonces).contents(),
            prover_known,
            has_challenge,
            epoch_number,
            latest_epoch_number,
            nonce,
        ).0 {
            Err(r) => result == Some(Err::<u64, ShareRejection>(r)),
            Ok(_) => match commitment_form {
                None => result == Some(Err::<u64, ShareRejection>(ShareRejection::InvalidProof)),
                Some(form) => if sha256d_u64(form@) == 0 {
                    result is None
                } else {
                    result == Some(
                        spec_difficulty_verdict(scaled_target, proof_target, sha256d_u64(form@)),
                    )
                },
            },
        },
{
    match precheck_share(nonces, prover_known, has_challenge, epoch_number, latest_epoch_number, nonce) {
        Err(r) => Some(Err(r)),
        Ok(()) => share_difficulty(scaled_target, proof_target, commitment_form),
    }
}

/// The verdict on a share's proof: its prover polynomial must be buildable
/// (else "Invalid polynomial"), and the opening proof of its commitment
/// must hold under the epoch's verifying key (else "Invalid proof").
pub open spec fn spec_proof_verdict(
    key: Seq<u8>,
    challenge: Seq<u8>,
    address: Seq<char>,
    nonce: u64,
    commitment: Seq<u8>,
    proof: Seq<u8>,
) -> Result<(), ShareRejection> {
    if !prover_polynomial_builds(challenge, address, nonce) {
        Err(ShareRejection::InvalidPolynomial)
    } else {
        match solution_verification(key, challenge, address, nonce, commitment, proof) {
            Some(true) => Ok(()),
            _ => Err(ShareRejection::ProofNotVerified),
        }
    }
}

/// Verifies the proof of a share for the pool's address and the share's
/// nonce, under the epoch challenge and the verifying key for its degree,
/// all given by their bytes: first that the prover polynomial can be
/// built, then the KZG opening of the commitment.
pub fn verify_share_proof(
    key: &[u8],
    challenge: &[u8],
    address: &str,
    nonce: u64,
    commitment: &[u8],
    proof: &[u8],
) -> (verdict: Result<(), ShareRejection>)
    ensures
        verdict == spec_proof_verdict(key@, challenge@, address@, nonce, commitment@, proof@),
{
    if !prover_polynomial_for(challenge, address, nonce) {
        return Err(ShareRejection::InvalidPolynomial);
    }
    match verify_solution(key, challenge, address, nonce, commitment, proof) {
        Some(true) => Ok(()),
        _ => Err(ShareRejection::ProofNotVerified),
    }
}

/// What a share that passed its checks leads to once its proof was
/// verified (`Ok`) or refused: the answer to the prover, and, for an
/// accepted share, the share of the given difficulty credited to the
/// prover's address.
pub fn accept_share(id: Id, address: String, verdict: Result<(), ShareRejection>, difficulty: u64) -> (result: (
    StratumMessage,
    Option<AccountingMessage>,
))
    ensures
        match verdict {
            Ok(_) => {
                &&& result.0@ == StratumMessageView::Response(id@, Some(ResponseParamsView::Bool(true)), None)
                &&& result.1 matches Some(AccountingMessage::NewShare(owner, value)) && owner@ == address@
                    && value == difficulty
            },
            Err(r) => {
                &&& result.0@ == StratumMessageView::Response(
                    id@,
                    None,
                    Some(RpcErrorView { code: spec_rejection_code(r), message: spec_rejection_message(r) }),
                )
                &&& result.1 is None
            },
        },
{
    match verdict {
        Ok(()) => (share_reply(id, &Ok(difficulty)), Some(AccountingMessage::NewShare(address, difficulty))),
        Err(r) => (share_reply(id, &Err(r)), None),
    }
}

/// The target a prover mines at after a new epoch, and whether it changed.
pub open spec fn spec_retarget(current: u64, scaled_next: u64, proof_target: u64) -> (u64, bool) {
    let next = if scaled_next > proof_target {
        proof_target
    } else {
        scaled_next
    };
    (next, next != current)
}

/// The target a prover mines at after a new epoch: its scaled next
/// difficulty capped at the network's proof target; and whether it differs
/// from the current one, in which case the prover is told.
pub fn retarget(current: u64, scaled_next: u64, proof_target: u64) -> (result: (u64, bool))
    ensures
        result == spec_retarget(current, scaled_next, proof_target),
{
    let mut next = scaled_next;
    if next > proof_target {
        next = proof_target;
    }
    (next, next != current)
}

/// The PPLNS window size for a coinbase target: five targets.
pub fn pplns_window_for_target(coinbase_target: u64) -> (n: u64)
    requires
        coinbase_target * 5 <= u64::MAX,
    ensures
        n == coinbase_target * 5,
{
    coinbase_target * 5
}

// ---------------------------------------------------------------------------
// Prover state
// ---------------------------------------------------------------------------

/// One authenticated prover: its address, its share rate over several
/// windows, and its difficulty now and for the next job.
pub struct ProverState {
    address: String,
    speed_2m: Speedometer,
    speed_5m: Speedometer,
    speed_15m: Speedometer,
    speed_30m: Speedometer,
    speed_1h: Speedometer,
    current_difficulty: u64,
    next_difficulty: u64,
}

impl ProverState {
    pub closed spec fn address_view(&self) -> Seq<char> {
        self.address@
    }

    pub closed spec fn current(&self) -> u64 {
        self.current_difficulty
    }

    pub closed spec fn next(&self) -> u64 {
        self.next_difficulty
    }

    /// The two-minute rate window, from which the next difficulty is set.
    pub closed spec fn two_minute(&self) -> Speedometer {
        self.speed_2m
    }

    /// The reported rate windows: 5 minutes, 15 minutes, 30 minutes and 1
    /// hour, in that order.
    pub closed spec fn reported(&self) -> Seq<Speedometer> {
        seq![self.speed_5m, self.speed_15m, self.speed_30m, self.speed_1h]
    }

    /// The two-minute window counts every share it holds afresh, and both
    /// difficulties are at least 1.
    pub closed spec fn wf(&self) -> bool {
        &&& self.speed_2m.caching() is None
        &&& self.current_difficulty >= 1
        &&& self.next_difficulty >= 1
    }

    /// A prover at difficulty 1, now and next.
    pub fn new(address: String) -> (state: Self)
        ensures
            state.wf(),
            state.address_view() == address@,
            state.two_minute().events() == Seq::<(u128, u64)>::empty(),
            state.two_minute().interval() == 120_000_000_000,
            state.two_minute().remembered() is None,
            state.reported().len() == 4,
            state.reported()[0].interval() == 300_000_000_000,
            state.reported()[1].interval() == 900_000_000_000,
            state.reported()[2].interval() == 1_800_000_000_000,
            state.reported()[3].interval() == 3_600_000_000_000,
            forall|i: int|
                0 <= i < 4 ==> {
                    &&& #[trigger] state.reported()[i].events() == Seq::<(u128, u64)>::empty()
                    &&& state.reported()[i].caching() == Some(30_000_000_000u128)
                    &&& state.reported()[i].remembered() is None
                },
            state.current() == 1,
            state.next() == 1,
    {
        ProverState {
            address,
            speed_2m: Speedometer::init(Duration::from_secs(120)),
            speed_5m: Speedometer::init_with_cache(Duration::from_secs(60 * 5), Duration::from_secs(30)),
            speed_15m: Speedometer::init_with_cache(Duration::from_secs(60 * 15), Duration::from_secs(30)),
            speed_30m: Speedometer::init_with_cache(Duration::from_secs(60 * 30), Duration::from_secs(30)),
            speed_1h: Speedometer::init_with_cache(Duration::from_secs(60 * 60), Duration::from_secs(30)),
            current_difficulty: 1,
            next_difficulty: 1,
        }
    }

    /// Records an accepted share of the given difficulty in every rate
    /// window, each at the clock reading it takes (its event time), and
    /// gives the total of the two-minute window read at the clock reading it
    /// takes then (its read time), from which the next difficulty is set.
    /// With the clock running forward, that total counts the share just
    /// added and every share added at most two minutes before the reading.
    pub fn add_share(&mut self, value: u64) -> (two_minute_total: u128)
        requires
            old(self).wf(),
        ensures
            final(self).wf(),
            ({
                let recorded_at = final(self).two_minute().event_time() as u128;
                let read_at = final(self).two_minute().read_time() as u128;
                let interval = old(self).two_minute().interval();
                let recorded = old(self).two_minute().events().push((recorded_at, value));
                &&& final(self).two_minute().events() == drop_stale(
                    drop_stale(recorded, recorded_at, interval),
                    read_at,
                    interval,
                )
                &&& in_time_order(recorded, read_at) ==> two_minute_total == fresh_total(
                    recorded,
                    read_at,
                    interval,
                )
                &&& in_time_order(recorded, read_at) && read_at - recorded_at <= interval
                    ==> two_minute_total >= value
            }),
            two_minute_total == events_total(final(self).two_minute().events()),
            final(self).two_minute().interval() == old(self).two_minute().interval(),
            final(self).two_minute().remembered() == old(self).two_minute().remembered(),
            final(self).reported().len() == 4,
            forall|i: int|
                0 <= i < 4 ==> {
                    &&& #[trigger] final(self).reported()[i].interval() == old(
                        self,
                    ).reported()[i].interval()
                    &&& final(self).reported()[i].caching() == old(self).reported()[i].caching()
                    &&& final(self).reported()[i].remembered() == old(
                        self,
                    ).reported()[i].remembered()
                    &&& final(self).reported()[i].read_time() == old(self).reported()[i].read_time()
                    &&& final(self).reported()[i].events() == drop_stale(
                        old(self).reported()[i].events().push(
                            (final(self).reported()[i].event_time() as u128, value),
                        ),
                        final(self).reported()[i].event_time() as u128,
                        old(self).reported()[i].interval(),
                    )
                },
            final(self).address_view() == old(self).address_view(),
            final(self).current() == old(self).current(),
            final(self).next() == old(self).next(),
    {
        let ghost before = self.speed_2m.events();
        let ghost interval = self.speed_2m.interval();
        self.speed_2m.event(value);
        let ghost recorded_at = self.speed_2m.event_time() as u128;
        self.speed_5m.event(value);
        self.speed_15m.event(value);
        self.speed_30m.event(value);
        self.speed_1h.event(value);
        let total = self.speed_2m.window_total();
        proof {
            let read_at = self.speed_2m.read_time() as u128;
            if in_time_order(before.push((recorded_at, value)), read_at) {
                law_recorded_value_counts(before, recorded_at, value, read_at, interval);
            }
            assert(self.reported()[0] == self.speed_5m);
            assert(self.reported()[1] == self.speed_15m);
            assert(self.reported()[2] == self.speed_30m);
            assert(self.reported()[3] == self.speed_1h);
        }
        total
    }

    /// Sets the difficulty for the next job; it is never below 1.
    pub fn set_next_difficulty(&mut self, difficulty: u64)
        requires
            old(self).wf(),
        ensures
            final(self).wf(),
            final(self).next() == if difficulty < 1 {
                1
            } else {
                difficulty
            },
            final(self).current() == old(self).current(),
            final(self).address_view() == old(self).address_view(),
            final(self).two_minute() == old(self).two_minute(),
    {
        self.next_difficulty = if difficulty < 1 {
            1
        } else {
            difficulty
        };
    }

    /// Moves to the next job: the next difficulty becomes the current one.
    pub fn next_difficulty(&mut self) -> (difficulty: u64)
        requires
            old(self).wf(),
        ensures
            final(self).wf(),
            difficulty == old(self).next(),
            final(self).current() == old(self).next(),
            final(self).next() == old(self).next(),
            final(self).address_view() == old(self).address_view(),
            final(self).two_minute() == old(self).two_minute(),
    {
        self.current_difficulty = self.next_difficulty;
        self.current_difficulty
    }

    pub fn current_difficulty(&self) -> (difficulty: u64)
        ensures
            difficulty == self.current(),
    {
        self.current_difficulty
    }

    pub fn address(&self) -> (address: String)
        ensures
            address@ == self.address_view(),
    {
        self.address.clone()
    }

    /// The totals of the 5-minute, 15-minute, 30-minute and 1-hour windows,
    /// in that order, each read at the clock reading the window takes (its
    /// read time): the total the window remembers while that was taken less
    /// than the remembering time before the reading, else, with the clock
    /// running forward, the total of the shares added at most the window's
    /// length before the reading.
    pub fn speed_totals(&mut self) -> (totals: Vec<u128>)
        requires
            old(self).wf(),
        ensures
            final(self).wf(),
            totals@.len() == 4,
            final(self).reported().len() == 4,
            forall|i: int|
                0 <= i < 4 ==> {
                    let before = old(self).reported()[i];
                    let after = final(self).reported()[i];
                    let read_at = after.read_time() as u128;
                    &&& read_outcome(before, after, read_at, #[trigger] totals@[i])
                    &&& serves_remembered(before, read_at) ==> totals@[i] == (before.remembered()->0).1
                    &&& !serves_remembered(before, read_at) && in_time_order(before.events(), read_at)
                        ==> totals@[i] == fresh_total(before.events(), read_at, before.interval())
                    &&& totals@[i] == events_total(after.events()) || (before.remembered() matches Some(
                        (_, remembered),
                    ) && totals@[i] == remembered)
                    &&& after.interval() == before.interval()
                    &&& after.caching() == before.caching()
                    &&& after.event_time() == before.event_time()
                },
            final(self).address_view() == old(self).address_view(),
            final(self).current() == old(self).current(),
            final(self).next() == old(self).next(),
            final(self).two_minute() == old(self).two_minute(),
    {
        let mut totals: Vec<u128> = Vec::new();
        let ghost before = old(self).reported();
        totals.push(self.speed_5m.window_total());
        totals.push(self.speed_15m.window_total());
        totals.push(self.speed_30m.window_total());
        totals.push(self.speed_1h.window_total());
        proof {
            let after = self.reported();
            assert forall|i: int| 0 <= i < 4 implies {
                let read_at = after[i].read_time() as u128;
                &&& read_outcome(before[i], after[i], read_at, #[trigger] totals@[i])
                &&& serves_remembered(before[i], read_at) ==> totals@[i] == (before[i].remembered()->0).1
                &&& !serves_remembered(before[i], read_at) && in_time_order(before[i].events(), read_at)
                    ==> totals@[i] == fresh_total(before[i].events(), read_at, before[i].interval())
            } by {
                law_read_total(before[i], after[i], after[i].read_time() as u128, totals@[i]);
            }
        }
        totals
    }
}

/// Target law: every target the pool sets is one the protocol allows, at
/// least 1 (and at most 2^64 - 1, as any 64-bit value): a prover's current
/// and next difficulty never drop below 1, and a retarget to a scaled
/// difficulty of at least 1 under a network proof target of at least 1
/// stays at least 1.
pub proof fn law_targets_at_least_one(state: ProverState, current: u64, scaled_next: u64, proof_target: u64)
    requires
        state.wf(),
        scaled_next >= 1,
        proof_target >= 1,
    ensures
        state.current() >= 1,
        state.next() >= 1,
        spec_retarget(current, scaled_next, proof_target).0 >= 1,
{
}

// ---------------------------------------------------------------------------
// Connected provers
// ---------------------------------------------------------------------------

/// The texts of a list of strings.
pub open spec fn texts(list: Seq<String>) -> Seq<Seq<char>> {
    list.map_values(|s: String| s@)
}

/// A copy of `list` with `item` added unless it is there already.
fn with_item(list: &Vec<String>, item: &String) -> (out: Vec<String>)
    requires
        texts(list@).no_duplicates(),
    ensures
        texts(out@).no_duplicates(),
        texts(out@).to_set() == texts(list@).to_set().insert(item@),
{
    let mut out: Vec<String> = Vec::new();
    let mut found = false;
    let mut i: usize = 0;
    while i < list.len()
        invariant
            i <= list@.len(),
            texts(list@).no_duplicates(),
            texts(out@) == texts(list@).subrange(0, i as int),
            found == texts(list@).subrange(0, i as int).contains(item@),
        decreases list@.len() - i,
    {
        let ghost prefix = texts(list@).subrange(0, i as int);
        let ghost before = out@;
        let copy = list[i].clone();
        let ghost seen = copy@;
        assert(seen == texts(list@)[i as int]);
        if list[i] == *item {
            found = true;
        }
        out.push(copy);
        assert(out@ == before.push(out@.last()));
        assert(texts(out@) =~= texts(before).push(seen));
        assert(texts(list@).subrange(0, i + 1) =~= prefix.push(seen));
        proof {
            if prefix.push(seen).contains(item@) && seen != item@ {
                let k = choose|k: int| 0 <= k < prefix.len() + 1 && prefix.push(seen)[k] == item@;
                assert(prefix[k] == item@);
            }
            if prefix.contains(item@) {
                let k = choose|k: int| 0 <= k < prefix.len() && prefix[k] == item@;
                assert(prefix.push(seen)[k] == item@);
            }
            if seen == item@ {
                assert(prefix.push(seen)[prefix.len() as int] == item@);
            }
        }
        i = i + 1;
    }
    assert(texts(list@).subrange(0, i as int) =~= texts(list@));
    if !found {
        let ghost before = texts(out@);
        out.push(item.clone());
        assert(texts(out@) =~= before.push(item@));
        proof {
            assert(texts(out@).no_duplicates()) by {
                assert forall|a: int, b: int|
                    0 <= a < b < texts(out@).len() implies texts(out@)[a] != texts(out@)[b] by {
                    if b == before.len() {
                        assert(before.contains(before[a]));
                    }
                }
            }
            assert(texts(out@).to_set() =~= before.to_set().insert(item@)) by {
                before.lemma_push_to_set_commute(item@);
            }
        }
    } else {
        assert(texts(out@).to_set() =~= texts(list@).to_set().insert(item@));
    }
    out
}

/// A copy of `list` without `item`.
fn without_item(list: &Vec<String>, item: &String) -> (out: Vec<String>)
    requires
        texts(list@).no_duplicates(),
    ensures
        texts(out@).no_duplicates(),
        texts(out@).to_set() == texts(list@).to_set().remove(item@),
{
    let mut out: Vec<String> = Vec::new();
    let mut i: usize = 0;
    while i < list.len()
        invariant
            i <= list@.len(),
            texts(list@).no_duplicates(),
            texts(out@).no_duplicates(),
            texts(out@).to_set() == texts(list@).subrange(0, i as int).to_set().remove(item@),
            forall|x: Seq<char>|
                #[trigger] texts(out@).contains(x) ==> texts(list@).subrange(0, i as int).contains(
                    x,
                ),
        decreases list@.len() - i,
    {
        let ghost prefix = texts(list@).subrange(0, i as int);
        let ghost before = texts(out@);
        assert(texts(list@).subrange(0, i + 1) =~= prefix.push(list@[i as int]@));
        proof {
            prefix.lemma_push_to_set_commute(list@[i as int]@);
        }
        if list[i] != *item {
            let copy = list[i].clone();
            let ghost seen = copy@;
            let ghost before_out = out@;
            out.push(copy);
            assert(out@ == before_out.push(out@.last()));
            assert(seen == list@[i as int]@);
            assert(texts(out@) =~= before.push(list@[i as int]@));
            proof {
                before.lemma_push_to_set_commute(list@[i as int]@);
                assert(!prefix.contains(list@[i as int]@)) by {
                    if prefix.contains(list@[i as int]@) {
                        let k = choose|k: int| 0 <= k < prefix.len() && prefix[k] == list@[i as int]@;
                        assert(texts(list@)[k] == texts(list@)[i as int]);
                    }
                }
                assert(texts(out@).no_duplicates()) by {
                    assert forall|a: int, b: int|
                        0 <= a < b < texts(out@).len() implies texts(out@)[a] != texts(out@)[b] by {
                        if b == before.len() {
                            assert(before.contains(before[a]));
                        }
                    }
                }
                assert(texts(out@).to_set() =~= texts(list@).subrange(0, i + 1).to_set().remove(
                    item@,
                ));
                let next = texts(list@).subrange(0, i + 1);
                assert forall|x: Seq<char>| #[trigger] texts(out@).contains(x) implies next.contains(x) by {
                    let k = choose|k: int| 0 <= k < texts(out@).len() && texts(out@)[k] == x;
                    if k == before.len() {
                        assert(next[i as int] == x);
                    } else {
                        assert(before.contains(x)) by {
                            assert(before[k] == x);
                        }
                        let m = choose|m: int| 0 <= m < prefix.len() && prefix[m] == x;
                        assert(next[m] == x);
                    }
                }
            }
        } else {
            let ghost next = texts(list@).subrange(0, i + 1);
            assert forall|x: Seq<char>| #[trigger] texts(out@).contains(x) implies next.contains(x) by {
                let m = choose|m: int| 0 <= m < prefix.len() && prefix[m] == x;
                assert(next[m] == x);
            }
            assert(texts(out@).to_set() =~= texts(list@).subrange(0, i + 1).to_set().remove(
                item@,
            ));
        }
        i = i + 1;
    }
    assert(texts(list@).subrange(0, i as int) =~= texts(list@));
    out
}

/// The provers connected to the pool: every open connection, the address
/// each authenticated connection mines for, and the connections of each
/// address. Connections are named by their peer's socket address as text.
/// Every connection listed under an address is a prover mining for that
/// address.
pub open spec fn registry_consistent(
    provers: Map<Seq<char>, Seq<char>>,
    connections: Map<Seq<char>, Set<Seq<char>>>,
) -> bool {
    forall|a: Seq<char>, p: Seq<char>|
        connections.contains_key(a) && #[trigger] connections[a].contains(p) ==> provers.contains_key(p)
            && provers[p] == a
}

/// The connections of each address once `peer` has closed.
pub open spec fn connections_without(
    provers: Map<Seq<char>, Seq<char>>,
    connections: Map<Seq<char>, Set<Seq<char>>>,
    peer: Seq<char>,
) -> Map<Seq<char>, Set<Seq<char>>> {
    if provers.contains_key(peer) && connections.contains_key(provers[peer]) {
        let address = provers[peer];
        let rest = connections[address].remove(peer);
        if rest.is_empty() {
            connections.remove(address)
        } else {
            connections.insert(address, rest)
        }
    } else {
        connections
    }
}

proof fn lemma_disconnect_keeps_consistent(
    provers: Map<Seq<char>, Seq<char>>,
    connections: Map<Seq<char>, Set<Seq<char>>>,
    peer: Seq<char>,
)
    requires
        registry_consistent(provers, connections),
    ensures
        registry_consistent(provers.remove(peer), connections_without(provers, connections, peer)),
{
    let after = connections_without(provers, connections, peer);
    assert forall|a: Seq<char>, p: Seq<char>|
        after.contains_key(a) && #[trigger] after[a].contains(p) implies provers.remove(peer).contains_key(p)
            && provers.remove(peer)[p] == a by {
        assert(connections.contains_key(a));
        assert(connections[a].contains(p));
        if p == peer {
            assert(provers[peer] == a);
        }
    }
}

pub struct ProverRegistry {
    connected: StringHashMap<()>,
    provers: StringHashMap<String>,
    address_connections: StringHashMap<Vec<String>>,
}

impl ProverRegistry {
    /// The open connections.
    pub closed spec fn connected(&self) -> Set<Seq<char>> {
        self.connected@.dom()
    }

    /// The address each authenticated connection mines for.
    pub closed spec fn provers(&self) -> Map<Seq<char>, Seq<char>> {
        self.provers@.map_values(|a: String| a@)
    }

    /// The connections of each address that has any.
    pub closed spec fn connections(&self) -> Map<Seq<char>, Set<Seq<char>>> {
        self.address_connections@.map_values(|peers: Vec<String>| texts(peers@).to_set())
    }

    /// Finitely many connections, provers and addresses are listed, and
    /// every address listed has at least one connection, each named once.
    pub closed spec fn wf(&self) -> bool {
        &&& self.connected@.dom().finite()
        &&& self.provers@.dom().finite()
        &&& self.address_connections@.dom().finite()
        &&& forall|a: Seq<char>|
            #[trigger] self.address_connections@.contains_key(a) ==> {
                &&& texts(self.address_connections@[a]@).no_duplicates()
                &&& self.address_connections@[a]@.len() > 0
            }
    }

    /// Every connection listed under an address is a prover mining for that
    /// address.
    pub open spec fn consistent(&self) -> bool {
        registry_consistent(self.provers(), self.connections())
    }

    pub fn new() -> (registry: Self)
        ensures
            registry.wf(),
            registry.connected() == Set::<Seq<char>>::empty(),
            registry.provers() == Map::<Seq<char>, Seq<char>>::empty(),
            registry.connections() == Map::<Seq<char>, Set<Seq<char>>>::empty(),
            registry.consistent(),
    {
        let registry = ProverRegistry {
            connected: StringHashMap::new(),
            provers: StringHashMap::new(),
            address_connections: StringHashMap::new(),
        };
        assert(registry.connected() =~= Set::<Seq<char>>::empty());
        assert(registry.provers() =~= Map::<Seq<char>, Seq<char>>::empty());
        assert(registry.connections() =~= Map::<Seq<char>, Set<Seq<char>>>::empty());
        registry
    }

    /// A new connection from `peer`.
    pub fn connect(&mut self, peer: String)
        requires
            old(self).wf(),
        ensures
            final(self).wf(),
            final(self).connected() == old(self).connected().insert(peer@),
            final(self).provers() == old(self).provers(),
            final(self).connections() == old(self).connections(),
            final(self).consistent() == old(self).consistent(),
    {
        self.connected.insert(peer, ());
        assert(self.connected() =~= old(self).connected().insert(peer@));
    }

    /// The connection from `peer` authenticated as a prover for `address`.
    /// A connection that was not a prover yet keeps the registry
    /// consistent.
    pub fn authenticate(&mut self, peer: String, address: String)
        requires
            old(self).wf(),
        ensures
            final(self).wf(),
            old(self).consistent() && !old(self).provers().contains_key(peer@) ==> final(self).consistent(),
            final(self).connected() == old(self).connected(),
            final(self).provers() == old(self).provers().insert(peer@, address@),
            final(self).connections() == old(self).connections().insert(
                address@,
                if old(self).connections().contains_key(address@) {
                    old(self).connections()[address@]
                } else {
                    Set::<Seq<char>>::empty()
                }.insert(peer@),
            ),
    {
        let peers = match self.address_connections.get(address.as_str()) {
            Some(list) => with_item(list, &peer),
            None => {
                let mut list: Vec<String> = Vec::new();
                list.push(peer.clone());
                assert(texts(list@) =~= seq![peer@]);
                assert(seq![peer@].to_set() =~= Set::<Seq<char>>::empty().insert(peer@)) by {
                    assert(seq![peer@].contains(peer@)) by {
                        assert(seq![peer@][0] == peer@);
                    }
                }
                list
            },
        };
        let ghost new_peers = peers@;
        let address_copy = address.clone();
        self.provers.insert(peer, address);
        self.address_connections.insert(address_copy, peers);
        proof {
            assert(new_peers.len() > 0) by {
                assert(texts(new_peers).to_set().contains(peer@));
            }
            assert(self.provers() =~= old(self).provers().insert(peer@, address@));
            assert(self.connections() =~= old(self).connections().insert(
                address@,
                if old(self).connections().contains_key(address@) {
                    old(self).connections()[address@]
                } else {
                    Set::<Seq<char>>::empty()
                }.insert(peer@),
            ));
        }
    }

    /// The connection from `peer` closed: it is no longer connected nor a
    /// prover, and it leaves its address's connections, which are dropped
    /// once none is left.
    pub fn disconnect(&mut self, peer: &String)
        requires
            old(self).wf(),
        ensures
            final(self).wf(),
            old(self).consistent() ==> final(self).consistent(),
            final(self).connected() == old(self).connected().remove(peer@),
            final(self).provers() == old(self).provers().remove(peer@),
            final(self).connections() == if old(self).provers().contains_key(peer@)
                && old(self).connections().contains_key(old(self).provers()[peer@]) {
                let address = old(self).provers()[peer@];
                let rest = old(self).connections()[address].remove(peer@);
                if rest.is_empty() {
                    old(self).connections().remove(address)
                } else {
                    old(self).connections().insert(address, rest)
                }
            } else {
                old(self).connections()
            },
    {
        let address = match self.provers.get(peer.as_str()) {
            Some(a) => Some(a.clone()),
            None => None,
        };
        if let Some(address) = address {
            if let Some(list) = self.address_connections.get(address.as_str()) {
                let rest = without_item(list, peer);
                if rest.len() == 0 {
                    self.address_connections.remove(address.as_str());
                    proof {
                        assert(texts(rest@).to_set() =~= Set::<Seq<char>>::empty());
                        assert(self.connections() =~= old(self).connections().remove(address@));
                    }
                } else {
                    let ghost rest_view = rest@;
                    self.address_connections.insert(address, rest);
                    proof {
                        assert(texts(rest_view).to_set().len() > 0) by {
                            texts(rest_view).unique_seq_to_set();
                        }
                        assert(self.connections() =~= old(self).connections().insert(
                            address@,
                            texts(rest_view).to_set(),
                        ));
                    }
                }
            }
        }
        self.provers.remove(peer.as_str());
        self.connected.remove(peer.as_str());
        proof {
            assert(self.connected() =~= old(self).connected().remove(peer@));
            assert(self.provers() =~= old(self).provers().remove(peer@));
            assert(self.connections() == connections_without(
                old(self).provers(),
                old(self).connections(),
                peer@,
            ));
            if old(self).consistent() {
                lemma_disconnect_keeps_consistent(old(self).provers(), old(self).connections(), peer@);
            }
        }
    }

    /// The number of authenticated connections.
    pub fn online_provers(&self) -> (count: u32)
        ensures
            count == #[verifier::truncate] (self.provers().len() as u32),
    {
        assert(self.provers().dom() =~= self.provers@.dom());
        #[verifier::truncate] (self.provers.len() as u32)
    }

    /// The number of addresses with at least one connection.
    pub fn online_addresses(&self) -> (count: u32)
        ensures
            count == #[verifier::truncate] (self.connections().len() as u32),
    {
        assert(self.connections().dom() =~= self.address_connections@.dom());
        #[verifier::truncate] (self.address_connections.len() as u32)
    }

    /// The number of connections of an address.
    pub fn address_prover_count(&self, address: &str) -> (count: u32)
        requires
            self.wf(),
        ensures
            count == if self.connections().contains_key(address@) {
                #[verifier::truncate] (self.connections()[address@].len() as u32)
            } else {
                0
            },
    {
        match self.address_connections.get(address) {
            Some(list) => {
                proof {
                    texts(list@).unique_seq_to_set();
                }
                #[verifier::truncate] (list.len() as u32)
            },
            None => 0,
        }
    }

    /// What the pool reports of an address: `None` when the text is no
    /// Aleo address, else how many connections it has and which.
    pub fn address_stats(&self, address: &str) -> (stats: Option<(u32, Vec<String>)>)
        requires
            self.wf(),
        ensures
            match stats {
                None => !is_aleo_address(address@),
                Some((count, peers)) => {
                    &&& is_aleo_address(address@)
                    &&& count == if self.connections().contains_key(address@) {
                        #[verifier::truncate] (self.connections()[address@].len() as u32)
                    } else {
                        0
                    }
                    &&& texts(peers@).no_duplicates()
                    &&& texts(peers@).to_set() == if self.connections().contains_key(address@) {
                        self.connections()[address@]
                    } else {
                        Set::<Seq<char>>::empty()
                    }
                },
            },
    {
        if !address_is_valid(address) {
            return None;
        }
        let count = self.address_prover_count(address);
        let peers = self.address_connections(address);
        Some((count, peers))
    }

    /// The connections of an address, as a list.
    pub fn address_connections(&self, address: &str) -> (peers: Vec<String>)
        requires
            self.wf(),
        ensures
            texts(peers@).no_duplicates(),
            texts(peers@).to_set() == if self.connections().contains_key(address@) {
                self.connections()[address@]
            } else {
                Set::<Seq<char>>::empty()
            },
    {
        match self.address_connections.get(address) {
            Some(list) => {
                let mut out: Vec<String> = Vec::new();
                let mut i: usize = 0;
                while i < list.len()
                    invariant
                        i <= list@.len(),
                        texts(out@) == texts(list@).subrange(0, i as int),
                    decreases list@.len() - i,
                {
                    let copy = list[i].clone();
                    let ghost seen = copy@;
                    let ghost before_out = out@;
                    out.push(copy);
                    assert(out@ == before_out.push(out@.last()));
                    assert(seen == list@[i as int]@);
                    assert(texts(out@) =~= texts(before_out).push(seen));
                    i = i + 1;
                    assert(texts(out@) =~= texts(list@).subrange(0, i as int));
                }
                assert(texts(list@).subrange(0, i as int) =~= texts(list@));
                out
            },
            None => {
                let out: Vec<String> = Vec::new();
                assert(texts(out@).to_set() =~= Set::<Seq<char>>::empty());
                out
            },
        }
    }
}

/// Registry law: in a consistent registry no more addresses are online
/// than provers (`online_addresses` is at most `online_provers`).
pub proof fn law_online_addresses_at_most_provers(registry: ProverRegistry)
    requires
        registry.wf(),
        registry.consistent(),
    ensures
        registry.connections().len() <= registry.provers().len(),
{
    assert(registry.provers().dom() =~= registry.provers@.dom());
    assert forall|a: Seq<char>| #[trigger] registry.connections().contains_key(a) implies !registry.connections()[a].is_empty() by {
        let list = registry.address_connections@[a];
        assert(texts(list@)[0] == list@[0]@);
        assert(texts(list@).contains(list@[0]@));
        assert(registry.connections()[a].contains(list@[0]@));
    }
    law_addresses_at_most_provers(registry.provers(), registry.connections());
}

/// Registry law: a connection that authenticates and then closes leaves the
/// provers and the addresses' connections as they were, provided it was not
/// a prover before.
pub proof fn law_authenticate_then_disconnect(
    provers: Map<Seq<char>, Seq<char>>,
    connections: Map<Seq<char>, Set<Seq<char>>>,
    peer: Seq<char>,
    address: Seq<char>,
)
    requires
        !provers.contains_key(peer),
        forall|a: Seq<char>| #[trigger] connections.contains_key(a) ==> !connections[a].contains(peer) && !connections[a].is_empty(),
    ensures
        ({
            let provers2 = provers.insert(peer, address);
            let connections2 = connections.insert(
                address,
                if connections.contains_key(address) {
                    connections[address]
                } else {
                    Set::<Seq<char>>::empty()
                }.insert(peer),
            );
            let rest = connections2[address].remove(peer);
            &&& provers2.remove(peer) == provers
            &&& provers2.contains_key(peer) && connections2.contains_key(provers2[peer])
            &&& (if rest.is_empty() {
                connections2.remove(address)
            } else {
                connections2.insert(address, rest)
            }) == connections
        }),
{
    let provers2 = provers.insert(peer, address);
    assert(provers2.remove(peer) =~= provers);
    let before = if connections.contains_key(address) {
        connections[address]
    } else {
        Set::<Seq<char>>::empty()
    };
    let connections2 = connections.insert(address, before.insert(peer));
    let rest = connections2[address].remove(peer);
    assert(rest =~= before);
    if rest.is_empty() {
        assert(!connections.contains_key(address));
        assert(connections2.remove(address) =~= connections);
    } else {
        assert(connections.contains_key(address));
        assert(connections2.insert(address, rest) =~= connections);
    }
}

/// Registry law: no more addresses are online than provers, when every
/// connection listed for an address is a prover mining for that address
/// and every listed address has a connection.
pub proof fn law_addresses_at_most_provers(
    provers: Map<Seq<char>, Seq<char>>,
    connections: Map<Seq<char>, Set<Seq<char>>>,
)
    requires
        provers.dom().finite(),
        forall|a: Seq<char>| #[trigger] connections.contains_key(a) ==> !connections[a].is_empty(),
        forall|a: Seq<char>, p: Seq<char>|
            connections.contains_key(a) && #[trigger] connections[a].contains(p) ==> provers.contains_key(p)
                && provers[p] == a,
    ensures
        connections.len() <= provers.len(),
{
    let f = |p: Seq<char>| provers[p];
    let addresses = provers.dom().map(f);
    vstd::set_lib::lemma_map_size_bound(provers.dom(), addresses, f);
    assert forall|a: Seq<char>| connections.dom().contains(a) implies addresses.contains(a) by {
        let p = connections[a].choose();
        assert(connections[a].contains(p));
        assert(f(p) == a);
    }
    vstd::set_lib::lemma_len_subset(connections.dom(), addresses);
}

/// The nonces seen after the first checks of a run of shares, each given as
/// (prover known, epoch challenge present, epoch, latest epoch, nonce), in
/// the order they are checked.
pub open spec fn seen_after(seen: Set<u64>, checks: Seq<(bool, bool, u32, u32, u64)>) -> Set<u64>
    decreases checks.len(),
{
    if checks.len() == 0 {
        seen
    } else {
        let c = checks[0];
        seen_after(spec_precheck(seen, c.0, c.1, c.2, c.3, c.4).1, checks.drop_first())
    }
}

proof fn lemma_seen_only_grows(seen: Set<u64>, checks: Seq<(bool, bool, u32, u32, u64)>)
    ensures
        seen.subset_of(seen_after(seen, checks)),
    decreases checks.len(),
{
    if checks.len() > 0 {
        let c = checks[0];
        lemma_seen_only_grows(spec_precheck(seen, c.0, c.1, c.2, c.3, c.4).1, checks.drop_first());
    }
}

/// Share law: once a share passed its first checks, a later share with the
/// same nonce for the same epoch is refused as a duplicate (code 22),
/// whatever shares were checked in between, until the nonces are cleared.
pub proof fn law_nonce_accepted_once_over_checks(
    seen: Set<u64>,
    epoch_number: u32,
    nonce: u64,
    between: Seq<(bool, bool, u32, u32, u64)>,
)
    requires
        spec_precheck(seen, true, true, epoch_number, epoch_number, nonce).0 is Ok,
    ensures
        spec_precheck(
            seen_after(spec_precheck(seen, true, true, epoch_number, epoch_number, nonce).1, between),
            true,
            true,
            epoch_number,
            epoch_number,
            nonce,
        ).0 == Err::<(), ShareRejection>(ShareRejection::DuplicateNonce),
{
    let after = spec_precheck(seen, true, true, epoch_number, epoch_number, nonce).1;
    lemma_seen_only_grows(after, between);
    law_nonce_accepted_once(seen, epoch_number, nonce, seen_after(after, between));
}

} // verus!
