//! The delay task: a block found to be cosigned is acknowledged only after a grace period,
//! which leaves honest parties the time to raise a fault.

use crate::state::{Cosigning, State};
use vstd::prelude::*;

verus! {

/// How often the cosigns flagged for it should be broadcast again, in seconds.
pub const BROADCAST_FREQUENCY: u64 = 60;

/// How long a broadcast is expected to take to reach everyone, in seconds.
pub const SYNCHRONY_EXPECTATION: u64 = 10;

/// How long after its evaluation a block is acknowledged, in seconds: one round of
/// broadcasts and the time for it to reach everyone.
pub const ACKNOWLEDGEMENT_DELAY: u64 = BROADCAST_FREQUENCY + SYNCHRONY_EXPECTATION;

/// The time from which a block evaluated at `time_evaluated` may be acknowledged, both in
/// seconds since the Unix epoch.
pub open spec fn spec_time_valid(time_evaluated: u64) -> nat {
    (time_evaluated + ACKNOWLEDGEMENT_DELAY) as nat
}

/// How long is left at `now` until a block evaluated at `time_evaluated` may be
/// acknowledged, in seconds, cut off at the greatest `u64`.
pub open spec fn spec_seconds_left(time_evaluated: u64, now: u64) -> u64 {
    let left = spec_time_valid(time_evaluated) - now;
    if left <= 0 {
        0
    } else if left > u64::MAX {
        u64::MAX
    } else {
        left as u64
    }
}

/// How long is left at `now` until a block evaluated at `time_evaluated` may be
/// acknowledged.
pub fn seconds_left(time_evaluated: u64, now: u64) -> (left: u64)
    ensures
        left == spec_seconds_left(time_evaluated, now),
{
    let time_valid: u128 = time_evaluated as u128 + ACKNOWLEDGEMENT_DELAY as u128;
    if time_valid <= now as u128 {
        0
    } else if time_valid - now as u128 > u64::MAX as u128 {
        u64::MAX
    } else {
        (time_valid - now as u128) as u64
    }
}

/// What the delay task did.
#[derive(Clone, Copy, PartialEq, Eq, Debug, Structural)]
pub enum Acknowledgement {
    /// No block was waiting to be acknowledged.
    Idle,
    /// The next block may not be acknowledged for another `seconds` seconds.
    Wait { block_number: u64, seconds: u64 },
    /// The block was acknowledged, and is now the latest acknowledged block.
    Acknowledged { block_number: u64 },
}

impl State {
    /// What the delay task does at `now`: the state after it, and what it did.
    ///
    /// The first block waiting is acknowledged once its grace period is over, and not
    /// before.
    pub open spec fn acknowledge(self, now: u64) -> (State, Acknowledgement) {
        if self.cosigned_blocks.len() == 0 {
            (self, Acknowledgement::Idle)
        } else {
            let first = self.cosigned_blocks[0];
            if now < spec_time_valid(first.time_evaluated) {
                (
                    self,
                    Acknowledgement::Wait {
                        block_number: first.block_number,
                        seconds: spec_seconds_left(first.time_evaluated, now),
                    },
                )
            } else {
                (
                    State {
                        cosigned_blocks: self.cosigned_blocks.drop_first(),
                        latest_acknowledged_block_number: Some(first.block_number),
                        ..self
                    },
                    Acknowledgement::Acknowledged { block_number: first.block_number },
                )
            }
        }
    }

    /// The delay task keeps the state well formed.
    pub proof fn lemma_acknowledge_wf(self, now: u64)
        requires
            self.wf(),
        ensures
            self.acknowledge(now).0.wf(),
    {
    }
}

impl Cosigning {
    /// The number of the latest block acknowledged as cosigned, which is 0 until one was.
    pub fn latest_acknowledged_block_number(&self) -> (number: u64)
        ensures
            number == self@.latest_acknowledged(),
    {
        match self.latest_acknowledged_block_number {
            Some(number) => number,
            None => 0,
        }
    }

    /// Acknowledges the first block waiting for it, if its grace period is over at `now`,
    /// in seconds since the Unix epoch. If it is not, nothing changes, and the answer says
    /// how long to wait.
    pub fn acknowledge(&mut self, now: u64) -> (done: Acknowledgement)
        requires
            old(self).wf(),
        ensures
            final(self).wf(),
            (final(self)@, done) == old(self)@.acknowledge(now),
    {
        if self.cosigned_blocks.len() == 0 {
            return Acknowledgement::Idle;
        }
        let first = self.cosigned_blocks[0];
        let seconds = seconds_left(first.time_evaluated, now);
        if seconds > 0 {
            return Acknowledgement::Wait { block_number: first.block_number, seconds };
        }
        proof {
            old(self)@.lemma_acknowledge_wf(now);
        }
        self.cosigned_blocks.remove(0);
        self.latest_acknowledged_block_number = Some(first.block_number);
        proof {
            let next = old(self)@.acknowledge(now).0;
            assert(self@ =~~= next);
        }
        Acknowledgement::Acknowledged { block_number: first.block_number }
    }
}

} // verus!
