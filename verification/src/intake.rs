//! Intake: what becomes of a cosign which the network delivered.

use crate::bytes::hash_eq;
use crate::cosign::SignedCosign;
use crate::primitives::NetworkId;
use crate::session::{NetworkMap, SessionInfo};
use crate::state::{Cosigning, State};
use vstd::prelude::*;

verus! {

/// The weight at which faults make a global session faulty: 17% of `total_stake`.
pub open spec fn spec_fault_threshold(total_stake: u64) -> nat {
    (total_stake as nat * 17) / 100
}

/// The weight at which faults make a global session faulty.
pub fn fault_threshold(total_stake: u64) -> (threshold: u128)
    ensures
        threshold == spec_fault_threshold(total_stake),
{
    (total_stake as u128 * 17) / 100
}

/// What became of a cosign taken in.
#[derive(Clone, Copy, PartialEq, Eq, Debug, Structural)]
pub enum Intake {
    /// The cosign was handled, or cannot be handled yet and will be seen again.
    Valid,
    /// The cosign is invalid.
    Invalid,
    /// The cosign could not be judged and is to be taken in again later.
    Retry,
}

/// What the result of an intake says.
pub open spec fn spec_intake_of(result: Result<bool, String>) -> Intake {
    match result {
        Ok(true) => Intake::Valid,
        Ok(false) => Intake::Invalid,
        Err(_) => Intake::Retry,
    }
}

/// Whether one of `faults` is by `cosigner`.
pub open spec fn spec_has_fault_by(faults: Seq<SignedCosign>, cosigner: NetworkId) -> bool {
    exists|i: int| 0 <= i < faults.len() && (#[trigger] faults[i]).cosign.cosigner == cosigner
}

/// Whether one of `faults` is by a cosigner which `stakes` holds no stake for.
pub open spec fn spec_fault_stake_missing(faults: Seq<SignedCosign>, stakes: Map<NetworkId, u64>) -> bool {
    exists|i: int|
        0 <= i < faults.len() && !stakes.contains_key((#[trigger] faults[i]).cosign.cosigner)
}

/// The stake of the cosigners of the first `n` of `faults`.
pub open spec fn spec_fault_weight(faults: Seq<SignedCosign>, stakes: Map<NetworkId, u64>, n: int) -> nat
    decreases n,
{
    if n <= 0 {
        0
    } else {
        let before = spec_fault_weight(faults, stakes, n - 1);
        let cosigner = faults[n - 1].cosign.cosigner;
        if stakes.contains_key(cosigner) {
            before + stakes[cosigner] as nat
        } else {
            before
        }
    }
}

/// The weight of `n` faults is at most `n` times the greatest stake.
pub proof fn lemma_fault_weight_bound(faults: Seq<SignedCosign>, stakes: Map<NetworkId, u64>, n: int)
    requires
        0 <= n,
    ensures
        spec_fault_weight(faults, stakes, n) <= n * u64::MAX,
    decreases n,
{
    if n > 0 {
        lemma_fault_weight_bound(faults, stakes, n - 1);
        assert((n - 1) * u64::MAX + u64::MAX == n * u64::MAX) by (nonlinear_arith);
    }
}

/// The stake of the cosigners of `faults`, unless `stakes` holds none for one of them.
pub fn fault_weight(faults: &Vec<SignedCosign>, stakes: &NetworkMap<u64>) -> (weight: Option<u128>)
    ensures
        match weight {
            Some(weight) => !spec_fault_stake_missing(faults@, stakes@) && weight == spec_fault_weight(
                faults@,
                stakes@,
                faults@.len() as int,
            ),
            None => spec_fault_stake_missing(faults@, stakes@),
        },
{
    let mut weight: u128 = 0;
    let mut i: usize = 0;
    while i < faults.len()
        invariant
            i <= faults@.len(),
            forall|j: int| 0 <= j < i ==> stakes@.contains_key((#[trigger] faults@[j]).cosign.cosigner),
            weight == spec_fault_weight(faults@, stakes@, i as int),
        decreases faults@.len() - i,
    {
        proof {
            lemma_fault_weight_bound(faults@, stakes@, i as int);
            assert(i * u64::MAX + u64::MAX <= u128::MAX) by (nonlinear_arith)
                requires
                    i <= usize::MAX,
            ;
        }
        let Some(stake) = stakes.get(faults[i].cosign.cosigner) else {
            return None;
        };
        weight = weight + *stake as u128;
        i += 1;
    }
    Some(weight)
}

/// Whether one of `faults` is by `cosigner`.
fn has_fault_by(faults: &Vec<SignedCosign>, cosigner: NetworkId) -> (found: bool)
    ensures
        found == spec_has_fault_by(faults@, cosigner),
{
    let mut i: usize = 0;
    while i < faults.len()
        invariant
            i <= faults@.len(),
            forall|j: int| 0 <= j < i ==> (#[trigger] faults@[j]).cosign.cosigner != cosigner,
        decreases faults@.len() - i,
    {
        if faults[i].cosign.cosigner == cosigner {
            return true;
        }
        i += 1;
    }
    false
}

impl State {
    /// The faults recorded under the global session `id`.
    pub open spec fn faults_of(self, id: [u8; 32]) -> Seq<SignedCosign> {
        if self.faults.contains_key(id) {
            self.faults[id]
        } else {
            Seq::empty()
        }
    }

    /// What becomes of a cosign which is validly signed under the global session
    /// `session`, yet for a block other than the one observed: the state after it, and
    /// what the intake answers.
    ///
    /// A second fault by a cosigner changes nothing. A first one is recorded, and once
    /// the cosigners with a fault hold 17% of the session's stake, the session has
    /// faulted.
    pub open spec fn record_fault(self, signed: SignedCosign, session: SessionInfo) -> (State, Intake) {
        let id = signed.cosign.global_session;
        if spec_has_fault_by(self.faults_of(id), signed.cosign.cosigner) {
            (self, Intake::Valid)
        } else {
            let faults = self.faults_of(id).push(signed);
            if spec_fault_stake_missing(faults, session.stakes) {
                (self, Intake::Retry)
            } else {
                (
                    State {
                        faults: self.faults.insert(id, faults),
                        faulted_session: if spec_fault_weight(
                            faults,
                            session.stakes,
                            faults.len() as int,
                        ) >= spec_fault_threshold(session.total_stake) {
                            Some(id)
                        } else {
                            self.faulted_session
                        },
                        ..self
                    },
                    Intake::Valid,
                )
            }
        }
    }

    /// What becomes of a cosign which the network delivered: the state after it, and what
    /// the intake answers.
    ///
    /// A cosign no later than the latest one of its cosigner under its global session, one
    /// for a block not observed yet, and one under another global session than the current
    /// one are left alone and answered as valid: they will be seen again if they matter. A
    /// cosign for a block outside its global session, by a cosigner without a key in it, or
    /// which its cosigner's key does not verify, is invalid. Any other cosign becomes the
    /// latest one of its cosigner if it is for the block observed, and a fault if it is
    /// not.
    pub open spec fn intake_cosign(self, signed: SignedCosign) -> (State, Intake) {
        let cosign = signed.cosign;
        let key = (cosign.global_session, cosign.cosigner);
        if self.networks_latest_cosigned_block.contains_key(key)
            && self.networks_latest_cosigned_block[key].cosign.block_number >= cosign.block_number {
            (self, Intake::Valid)
        } else if !self.substrate_blocks.contains_key(cosign.block_number) {
            (self, Intake::Valid)
        } else {
            match self.current_session() {
                None => (self, Intake::Valid),
                Some((id, session)) => {
                    if cosign.global_session != id {
                        (self, Intake::Valid)
                    } else if cosign.block_number < session.start_block_number {
                        (self, Intake::Invalid)
                    } else if self.global_sessions_last_block.contains_key(id) && cosign.block_number
                        > self.global_sessions_last_block[id] {
                        (self, Intake::Invalid)
                    } else if !session.keys.contains_key(cosign.cosigner) {
                        (self, Intake::Invalid)
                    } else if !signed.spec_verify_signature(session.keys[cosign.cosigner]) {
                        (self, Intake::Invalid)
                    } else if self.substrate_blocks[cosign.block_number] == cosign.block_hash {
                        (
                            State {
                                networks_latest_cosigned_block: self.networks_latest_cosigned_block.insert(
                                    key,
                                    signed,
                                ),
                                ..self
                            },
                            Intake::Valid,
                        )
                    } else {
                        self.record_fault(signed, session)
                    }
                },
            }
        }
    }

    /// Taking a cosign in keeps the state well formed.
    pub proof fn lemma_intake_cosign_wf(self, signed: SignedCosign)
        requires
            self.wf(),
        ensures
            self.intake_cosign(signed).0.wf(),
    {
    }
}

impl Cosigning {
    /// The hash observed for block `block_number`, if the block has been intended.
    pub fn substrate_block(&self, block_number: u64) -> (hash: Option<[u8; 32]>)
        requires
            self.wf(),
        ensures
            match hash {
                Some(hash) => self@.substrate_blocks.contains_key(block_number)
                    && self@.substrate_blocks[block_number] == hash,
                None => !self@.substrate_blocks.contains_key(block_number),
            },
    {
        if block_number >= 1 && block_number - 1 < self.substrate_blocks.len() as u64 {
            Some(self.substrate_blocks[(block_number - 1) as usize])
        } else {
            None
        }
    }

    /// Records `signed` as a fault under the global session with the stakes `stakes`, of
    /// `total_stake` in all.
    fn record_fault(
        &mut self,
        signed: &SignedCosign,
        stakes: &NetworkMap<u64>,
        total_stake: u64,
        Ghost(session): Ghost<SessionInfo>,
    ) -> (recorded: bool)
        requires
            old(self).wf(),
            old(self)@.record_fault(*signed, session).0.wf(),
            stakes@ == session.stakes,
            total_stake == session.total_stake,
        ensures
            final(self).wf(),
            final(self)@ == old(self)@.record_fault(*signed, session).0,
            recorded == (old(self)@.record_fault(*signed, session).1 == Intake::Valid),
            !recorded ==> old(self)@.record_fault(*signed, session).1 == Intake::Retry,
    {
        let id = signed.cosign.global_session;
        let mut faults: Vec<SignedCosign> = match self.faults.get(&id) {
            Some(faults) => faults.clone(),
            None => Vec::new(),
        };
        assert(faults@ =~= old(self)@.faults_of(id));
        if has_fault_by(&faults, signed.cosign.cosigner) {
            return true;
        }
        faults.push(*signed);
        let Some(weight) = fault_weight(&faults, stakes) else {
            return false;
        };
        let faulted = weight >= fault_threshold(total_stake);
        self.faults.set(id, faults);
        if faulted {
            self.faulted_session = Some(id);
        }
        proof {
            let next = old(self)@.record_fault(*signed, session).0;
            assert(self@ =~~= next);
        }
        true
    }

    /// Takes in a cosign which the network delivered.
    ///
    /// Returns `Ok(true)` if the cosign was handled, or cannot be handled at this time,
    /// `Ok(false)` if it is invalid, and an error if it could not be judged and should be
    /// taken in again later. A cosign which cannot be handled yet counts as valid: either
    /// it will be requested when it is needed, or it, or a later one which says more,
    /// will be seen again. Only a cosign answered with `Ok(true)` can have changed
    /// anything.
    pub fn intake_cosign(&mut self, signed_cosign: &SignedCosign) -> (result: Result<bool, String>)
        requires
            old(self).wf(),
        ensures
            final(self).wf(),
            final(self)@ == old(self)@.intake_cosign(*signed_cosign).0,
            spec_intake_of(result) == old(self)@.intake_cosign(*signed_cosign).1,
            result matches Err(message) ==> message@
                == "cosigner with recognized key didn't have a stake entry saved"@,
    {
        let cosign = &signed_cosign.cosign;
        let network = cosign.cosigner;
        proof {
            old(self)@.lemma_intake_cosign_wf(*signed_cosign);
        }
        if let Some(existing) = self.latest_cosign(&cosign.global_session, network) {
            if existing.cosign.block_number >= cosign.block_number {
                return Ok(true);
            }
        }
        let Some(our_block_hash) = self.substrate_block(cosign.block_number) else {
            return Ok(true);
        };
        let ghost session: SessionInfo;
        let (start_block_number, key, stakes, total_stake) = match self.current_session() {
            None => {
                return Ok(true);
            },
            Some(entry) => {
                if !hash_eq(&cosign.global_session, &entry.0) {
                    return Ok(true);
                }
                proof {
                    session = entry.1@;
                }
                let key: Option<[u8; 32]> = match entry.1.keys.get(network) {
                    Some(key) => Some(*key),
                    None => None,
                };
                (entry.1.start_block_number, key, entry.1.stakes, entry.1.total_stake)
            },
        };
        if cosign.block_number < start_block_number {
            return Ok(false);
        }
        if let Some(last_block) = self.global_sessions_last_block.get(&cosign.global_session) {
            if cosign.block_number > *last_block {
                return Ok(false);
            }
        }
        let Some(key) = key else {
            return Ok(false);
        };
        if !signed_cosign.verify_signature(key) {
            return Ok(false);
        }
        if hash_eq(&our_block_hash, &cosign.block_hash) {
            let mut by_network: NetworkMap<SignedCosign> =
                match self.networks_latest_cosigned_block.get(&cosign.global_session) {
                Some(by_network) => *by_network,
                None => NetworkMap::new(),
            };
            by_network.insert(network, *signed_cosign);
            self.networks_latest_cosigned_block.set(cosign.global_session, by_network);
            proof {
                let next = old(self)@.intake_cosign(*signed_cosign).0;
                assert(self@ =~~= next);
            }
            Ok(true)
        } else if self.record_fault(signed_cosign, &stakes, total_stake, Ghost(session)) {
            Ok(true)
        } else {
            Err("cosigner with recognized key didn't have a stake entry saved".to_owned())
        }
    }
}

} // verus!
