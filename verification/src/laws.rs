//! What holds of the engine whatever happens to it.
//!
//! The engine changes by steps: a block is intended, a block is evaluated, a cosign is
//! taken in, a block is acknowledged, a cosign expected is handed out. Every state which
//! the engine can be in is reached from the initial state by such steps.

use crate::cosign::{HasEvents, SignedCosign};
use crate::delay::spec_time_valid;
use crate::evaluator::{
    lemma_lowest_common_block_is_cosigned, spec_supermajority_threshold, spec_weight_cosigned,
    Evaluation,
};
use crate::intake::Intake;
use crate::primitives::{NetworkId, ValidatorSet};
use crate::session::CosigningSet;
use crate::state::{Faulted, State};
use vstd::prelude::*;

verus! {

/// A step of the engine.
pub enum Step {
    /// The next block is intended.
    Intend {
        block_hash: [u8; 32],
        has_events: HasEvents,
        cosigners: Seq<ValidatorSet>,
        declared: Seq<CosigningSet>,
    },
    /// The first block waiting is evaluated.
    EvaluateBlock { known_cosign: Option<u64>, now: u64 },
    /// A cosign is taken in.
    IntakeCosign { signed: SignedCosign },
    /// The delay task looks at the first block waiting to be acknowledged.
    Acknowledge { now: u64 },
    /// The first cosign expected of a validator set is handed out.
    TakeIntendedCosign { set: ValidatorSet },
}

impl State {
    /// The state after a step. A block which cannot be intended leaves the state as it is.
    pub open spec fn step(self, step: Step) -> State {
        match step {
            Step::Intend { block_hash, has_events, cosigners, declared } => {
                if self.intend_error(has_events, cosigners, declared) is None {
                    self.intend(block_hash, has_events, cosigners, declared)
                } else {
                    self
                }
            },
            Step::EvaluateBlock { known_cosign, now } => self.evaluate_block(known_cosign, now).0,
            Step::IntakeCosign { signed } => self.intake_cosign(signed).0,
            Step::Acknowledge { now } => self.acknowledge(now).0,
            Step::TakeIntendedCosign { set } => self.take_intended_cosign(set).0,
        }
    }

    /// Every step keeps the state well formed. As the initial state is well formed, so is
    /// every state which the engine can be in.
    pub proof fn lemma_step_wf(self, step: Step)
        requires
            self.wf(),
        ensures
            self.step(step).wf(),
            State::initial().wf(),
    {
        match step {
            Step::Intend { block_hash, has_events, cosigners, declared } => {
                if self.intend_error(has_events, cosigners, declared) is None {
                    self.lemma_intend_wf(block_hash, has_events, cosigners, declared);
                }
            },
            Step::EvaluateBlock { known_cosign, now } => {
                self.lemma_evaluate_block_wf(known_cosign, now);
            },
            Step::IntakeCosign { signed } => {
                self.lemma_intake_cosign_wf(signed);
            },
            Step::Acknowledge { now } => {
                self.lemma_acknowledge_wf(now);
            },
            Step::TakeIntendedCosign { set } => {
                self.lemma_take_intended_cosign_wf(set);
            },
        }
    }

    /// The number of the latest cosigned block never decreases.
    pub proof fn lemma_latest_cosigned_never_decreases(self, step: Step)
        requires
            self.wf(),
        ensures
            self.step(step).latest_cosigned() >= self.latest_cosigned(),
    {
    }

    /// An evaluation which finds a block to be cosigned advances the latest cosigned block
    /// by exactly one, to that block. Any other evaluation changes nothing.
    pub proof fn lemma_evaluation_advances_by_one(self, known_cosign: Option<u64>, now: u64)
        requires
            self.wf(),
        ensures
            match self.evaluate_block(known_cosign, now).2 {
                Evaluation::Cosigned { block_number } => {
                    &&& block_number == self.latest_cosigned() + 1
                    &&& self.block_events.len() > 0
                    &&& block_number == self.block_events[0].block_number
                    &&& self.evaluate_block(known_cosign, now).0.latest_cosigned_block_number == Some(
                        block_number,
                    )
                },
                _ => self.evaluate_block(known_cosign, now).0 == self,
            },
    {
    }

    /// The blocks which the evaluator is handed have no gap and are in order: each is the
    /// one after the latest cosigned block, which is block 1 at first, and those waiting
    /// behind it follow it one by one.
    pub proof fn lemma_block_events_in_order(self, i: int)
        requires
            self.wf(),
            0 <= i < self.block_events.len(),
        ensures
            self.block_events[i].block_number == self.latest_cosigned() + 1 + i,
            State::initial().latest_cosigned() == 0,
    {
    }

    /// Blocks are intended one by one: intending a block tells the evaluator of the block
    /// with the next number, records its hash, and moves on to the number after it.
    pub proof fn lemma_intend_advances_by_one(
        self,
        block_hash: [u8; 32],
        has_events: HasEvents,
        cosigners: Seq<ValidatorSet>,
        declared: Seq<CosigningSet>,
    )
        requires
            self.wf(),
            self.intend_error(has_events, cosigners, declared) is None,
        ensures
            ({
                let next = self.intend(block_hash, has_events, cosigners, declared);
                &&& next.next_block_to_intend() == self.next_block_to_intend() + 1
                &&& next.block_events.len() == self.block_events.len() + 1
                &&& next.block_events.last().block_number == self.next_block_to_intend()
                &&& next.substrate_blocks.contains_key(self.next_block_to_intend())
                &&& next.substrate_blocks[self.next_block_to_intend()] == block_hash
            }),
    {
    }

    /// The global sessions reach the evaluator in the order of the blocks which declared
    /// them, and each was declared by a block which has been intended.
    pub proof fn lemma_global_sessions_in_order(self, i: int, j: int)
        requires
            self.wf(),
            0 <= i < j < self.global_sessions_channel.len(),
        ensures
            self.global_sessions_channel[i].1.start_block_number
                < self.global_sessions_channel[j].1.start_block_number,
            self.global_sessions_channel[j].1.start_block_number < self.next_block_to_intend(),
    {
    }

    /// A block which was found to be cosigned is not evaluated again: it is no longer
    /// waiting, and every block still waiting comes after it.
    pub proof fn lemma_block_evaluated_once(self, known_cosign: Option<u64>, now: u64, i: int)
        requires
            self.wf(),
            self.evaluate_block(known_cosign, now).2 is Cosigned,
            0 <= i < self.evaluate_block(known_cosign, now).0.block_events.len(),
        ensures
            self.evaluate_block(known_cosign, now).0.block_events == self.block_events.drop_first(),
            self.evaluate_block(known_cosign, now).0.block_events[i].block_number
                > self.block_events[0].block_number,
    {
    }

    /// What the evaluator remembers as the lowest block known to be cosigned is cosigned:
    /// when a block which is not notable is found to be cosigned by the latest cosigns,
    /// each block up to the lowest among those cosigns has a supermajority behind it too.
    pub proof fn lemma_known_cosign_is_cosigned(self, now: u64, later: u64)
        requires
            self.wf(),
            self.block_events.len() > 0,
            self.block_events[0].has_events == HasEvents::NonNotable,
            self.evaluate_block(None, now).2 is Cosigned,
            self.evaluate_block(None, now).1 matches Some(known) && later <= known,
        ensures
            ({
                let (id, session) = self.strict_session(self.block_events[0].block_number).1;
                spec_weight_cosigned(
                    self.networks_latest_cosigned_block,
                    id,
                    session,
                    later,
                    false,
                    session.sets.len() as int,
                ) >= spec_supermajority_threshold(session.total_stake)
            }),
    {
        let block_number = self.block_events[0].block_number;
        let (id, session) = self.strict_session(block_number).1;
        lemma_lowest_common_block_is_cosigned(
            self.networks_latest_cosigned_block,
            id,
            session,
            block_number,
            false,
            later,
            session.sets.len() as int,
        );
    }

    /// The latest acknowledged block is never past the latest cosigned block.
    pub proof fn lemma_acknowledged_at_most_cosigned(self)
        requires
            self.wf(),
        ensures
            self.latest_acknowledged() <= self.latest_cosigned(),
    {
    }

    /// A block is not acknowledged before its grace period is over: the delay task
    /// acknowledges it only at a time which is at least the delay after its evaluation.
    pub proof fn lemma_acknowledged_after_delay(self, now: u64)
        requires
            self.wf(),
            self.acknowledge(now).1 is Acknowledged,
        ensures
            self.cosigned_blocks.len() > 0,
            now >= spec_time_valid(self.cosigned_blocks[0].time_evaluated),
            self.acknowledge(now).0.latest_acknowledged() == self.latest_acknowledged() + 1,
    {
    }

    /// The latest cosign kept for a network under a global session stays kept, and the
    /// number of its block never decreases.
    pub proof fn lemma_latest_cosign_never_decreases(self, step: Step, key: ([u8; 32], NetworkId))
        requires
            self.wf(),
            self.networks_latest_cosigned_block.contains_key(key),
        ensures
            self.step(step).networks_latest_cosigned_block.contains_key(key),
            self.step(step).networks_latest_cosigned_block[key].cosign.block_number
                >= self.networks_latest_cosigned_block[key].cosign.block_number,
    {
    }

    /// No two faults recorded under a global session are by the same cosigner.
    pub proof fn lemma_one_fault_per_cosigner(self, id: [u8; 32], i: int, j: int)
        requires
            self.wf(),
            self.faults.contains_key(id),
            0 <= i < j < self.faults[id].len(),
        ensures
            self.faults[id][i].cosign.cosigner != self.faults[id][j].cosign.cosigner,
    {
    }

    /// A fault is terminal: once a global session has faulted, one has faulted ever after,
    /// and the latest cosigned block number is not told any more.
    pub proof fn lemma_fault_is_terminal(self, step: Step)
        requires
            self.wf(),
            self.faulted_session is Some,
        ensures
            self.step(step).faulted_session is Some,
            self.step(step).latest_cosigned_block_number() == Err::<u64, Faulted>(Faulted),
    {
    }

    /// Taking a cosign in a second time changes nothing and is answered as the first time.
    /// In particular a cosign which was accepted is accepted again.
    pub proof fn lemma_intake_cosign_idempotent(self, signed: SignedCosign)
        requires
            self.wf(),
        ensures
            self.intake_cosign(signed).0.intake_cosign(signed) == self.intake_cosign(signed),
    {
    }

    /// Only an evaluation moves the latest cosigned block, and only the delay task moves
    /// the latest acknowledged block: taking a cosign in moves neither, nor does it touch
    /// the global session which the evaluator works under.
    pub proof fn lemma_intake_cosign_leaves_pointers(self, signed: SignedCosign)
        ensures
            self.intake_cosign(signed).0.latest_cosigned_block_number
                == self.latest_cosigned_block_number,
            self.intake_cosign(signed).0.latest_acknowledged_block_number
                == self.latest_acknowledged_block_number,
            self.intake_cosign(signed).0.currently_evaluated_global_session
                == self.currently_evaluated_global_session,
            self.intake_cosign(signed).1 != Intake::Valid ==> self.intake_cosign(signed).0 == self,
    {
    }
}

} // verus!
