//! The intend task: which blocks are to be cosigned, and by whom.

use crate::cosign::{CosignIntent, HasEvents};
use crate::primitives::ValidatorSet;
use crate::session::{sets_of, total_stake_of, CosigningSet, GlobalSession};
use crate::state::{BlockEvent, Cosigning, DeclaredSession, State};
use vstd::prelude::*;

verus! {

/// Why a block could not be intended.
#[derive(Clone, Copy, PartialEq, Eq, Debug, Structural)]
pub enum IntendError {
    /// The block's number is the greatest there is, so no block could follow it.
    BlockNumberOverflow,
    /// There are 2^32 validator sets or more, which is more than their encoding can count.
    TooManyValidatorSets,
    /// The stakes of the validator sets declared sum to more than a `u64` holds.
    StakeOverflow,
}

/// The cosigns expected for a block: one of each of `cosigners`, under the global session
/// which they form.
pub open spec fn spec_intents(
    block_number: u64,
    block_hash: [u8; 32],
    notable: bool,
    cosigners: Seq<ValidatorSet>,
) -> Seq<(ValidatorSet, CosignIntent)> {
    Seq::new(
        cosigners.len(),
        |i: int|
            (
                cosigners[i],
                CosignIntent {
                    global_session: GlobalSession::spec_id(cosigners),
                    block_number,
                    block_hash,
                    notable,
                },
            ),
    )
}

/// What the evaluator is told of a block observed to have `has_events`: the same, unless
/// the block calls for cosigns and has no one to cosign it, in which case it will never be
/// cosigned and is passed on as a block which calls for none.
pub open spec fn spec_intended_events(has_events: HasEvents, cosigners: Seq<ValidatorSet>) -> HasEvents {
    if has_events != HasEvents::No && cosigners.len() == 0 {
        HasEvents::No
    } else {
        has_events
    }
}

impl State {
    /// Why the next block cannot be intended, if it cannot.
    pub open spec fn intend_error(
        self,
        has_events: HasEvents,
        cosigners: Seq<ValidatorSet>,
        declared: Seq<CosigningSet>,
    ) -> Option<IntendError> {
        if self.next_block_to_intend() == u64::MAX {
            Some(IntendError::BlockNumberOverflow)
        } else if has_events == HasEvents::Notable && declared.len() > u32::MAX {
            Some(IntendError::TooManyValidatorSets)
        } else if has_events == HasEvents::Notable && total_stake_of(declared) > u64::MAX {
            Some(IntendError::StakeOverflow)
        } else if has_events != HasEvents::No && cosigners.len() > u32::MAX {
            Some(IntendError::TooManyValidatorSets)
        } else {
            None
        }
    }

    /// The state once the next block, with hash `block_hash`, has declared the global
    /// session of `declared`.
    ///
    /// The session is recorded with the block which declared it, it becomes the latest one
    /// intended and is sent to the evaluator, and the session which was the latest one
    /// until now ends with this block.
    pub open spec fn declare_session(self, block_hash: [u8; 32], declared: Seq<CosigningSet>) -> State {
        let number = self.next_block_to_intend();
        let info = GlobalSession::spec_new(number, declared)->0;
        let id = GlobalSession::spec_id(sets_of(declared));
        State {
            global_sessions: self.global_sessions.insert(id, (number, block_hash, info)),
            global_sessions_last_block: match self.latest_global_session_intended {
                Some((prior, _)) => self.global_sessions_last_block.insert(prior, number),
                None => self.global_sessions_last_block,
            },
            latest_global_session_intended: Some((id, info)),
            global_sessions_channel: self.global_sessions_channel.push((id, info)),
            ..self
        }
    }

    /// The state once the next block has been intended.
    ///
    /// The block has the hash `block_hash` and was observed to have `has_events`. The
    /// validator sets `cosigners` are those which cosign it. If it is notable, `declared`
    /// are the validator sets as of the block itself, which form the global session which
    /// it declares.
    pub open spec fn intend(
        self,
        block_hash: [u8; 32],
        has_events: HasEvents,
        cosigners: Seq<ValidatorSet>,
        declared: Seq<CosigningSet>,
    ) -> State {
        let number = self.next_block_to_intend();
        let with_session = if has_events == HasEvents::Notable {
            self.declare_session(block_hash, declared)
        } else {
            self
        };
        let events = spec_intended_events(has_events, cosigners);
        State {
            intended_cosigns: if events != HasEvents::No {
                with_session.intended_cosigns + spec_intents(
                    number,
                    block_hash,
                    has_events == HasEvents::Notable,
                    cosigners,
                )
            } else {
                with_session.intended_cosigns
            },
            substrate_blocks: with_session.substrate_blocks.insert(number, block_hash),
            block_events: with_session.block_events.push(
                BlockEvent { block_number: number, has_events: events },
            ),
            scan_cosign_from: Some((number + 1) as u64),
            ..with_session
        }
    }

    /// Intending a block keeps the state well formed.
    pub proof fn lemma_intend_wf(
        self,
        block_hash: [u8; 32],
        has_events: HasEvents,
        cosigners: Seq<ValidatorSet>,
        declared: Seq<CosigningSet>,
    )
        requires
            self.wf(),
            self.intend_error(has_events, cosigners, declared) is None,
        ensures
            self.intend(block_hash, has_events, cosigners, declared).wf(),
    {
    }
}

/// Whether the `i`-th of the cosigns expected is the first one expected of `set`.
pub open spec fn spec_is_first_intent(
    queue: Seq<(ValidatorSet, CosignIntent)>,
    set: ValidatorSet,
    i: int,
) -> bool {
    &&& 0 <= i < queue.len()
    &&& queue[i].0 == set
    &&& forall|j: int| 0 <= j < i ==> (#[trigger] queue[j]).0 != set
}

impl State {
    /// The state once the first cosign expected of `set` has been handed out, and that
    /// cosign, if one is expected of it.
    pub open spec fn take_intended_cosign(self, set: ValidatorSet) -> (State, Option<CosignIntent>) {
        if exists|i: int| spec_is_first_intent(self.intended_cosigns, set, i) {
            let first = choose|i: int| spec_is_first_intent(self.intended_cosigns, set, i);
            (
                State { intended_cosigns: self.intended_cosigns.remove(first), ..self },
                Some(self.intended_cosigns[first].1),
            )
        } else {
            (self, None)
        }
    }

    /// Handing out a cosign expected keeps the state well formed.
    pub proof fn lemma_take_intended_cosign_wf(self, set: ValidatorSet)
        requires
            self.wf(),
        ensures
            self.take_intended_cosign(set).0.wf(),
    {
    }
}

/// Appends to `queue` the cosigns expected of `cosigners` for a block.
fn send_intents(
    queue: &mut Vec<(ValidatorSet, CosignIntent)>,
    cosigners: &Vec<ValidatorSet>,
    intent: CosignIntent,
)
    requires
        intent.global_session == GlobalSession::spec_id(cosigners@),
    ensures
        final(queue)@ == old(queue)@ + spec_intents(
            intent.block_number,
            intent.block_hash,
            intent.notable,
            cosigners@,
        ),
{
    let ghost intents = spec_intents(
        intent.block_number,
        intent.block_hash,
        intent.notable,
        cosigners@,
    );
    let mut i: usize = 0;
    assert(queue@ =~= old(queue)@ + intents.take(0));
    while i < cosigners.len()
        invariant
            i <= cosigners@.len(),
            intents.len() == cosigners@.len(),
            intents == spec_intents(
                intent.block_number,
                intent.block_hash,
                intent.notable,
                cosigners@,
            ),
            intent.global_session == GlobalSession::spec_id(cosigners@),
            queue@ == old(queue)@ + intents.take(i as int),
        decreases cosigners@.len() - i,
    {
        queue.push((cosigners[i], intent));
        assert(queue@ =~= old(queue)@ + intents.take(i + 1));
        i += 1;
    }
    assert(intents.take(intents.len() as int) =~= intents);
}

impl Cosigning {
    /// The number of the next block for the intend task: 1 at first.
    pub fn next_block_to_intend(&self) -> (number: u64)
        ensures
            number == self@.next_block_to_intend(),
    {
        match self.scan_cosign_from {
            Some(number) => number,
            None => 1,
        }
    }

    /// Hands out the first cosign expected of `set` which has not been handed out yet, if
    /// there is one.
    pub fn take_intended_cosign(&mut self, set: ValidatorSet) -> (intent: Option<CosignIntent>)
        requires
            old(self).wf(),
        ensures
            final(self).wf(),
            (final(self)@, intent) == old(self)@.take_intended_cosign(set),
    {
        proof {
            old(self)@.lemma_take_intended_cosign_wf(set);
        }
        let mut i: usize = 0;
        while i < self.intended_cosigns.len()
            invariant
                i <= self.intended_cosigns@.len(),
                *self == *old(self),
                old(self).wf(),
                old(self)@.take_intended_cosign(set).0.wf(),
                forall|j: int| 0 <= j < i ==> (#[trigger] self.intended_cosigns@[j]).0 != set,
            decreases self.intended_cosigns@.len() - i,
        {
            if self.intended_cosigns[i].0 == set {
                proof {
                    let queue = self@.intended_cosigns;
                    assert(spec_is_first_intent(queue, set, i as int));
                    let first = choose|k: int| spec_is_first_intent(queue, set, k);
                    assert(first == i) by {
                        if first < i {
                            assert(queue[first].0 != set);
                        } else if i < first {
                            assert(queue[i as int].0 != set);
                        }
                    }
                }
                let (_, intent) = self.intended_cosigns.remove(i);
                proof {
                    let next = old(self)@.take_intended_cosign(set).0;
                    assert(self@ =~~= next);
                }
                return Some(intent);
            }
            i += 1;
        }
        None
    }

    /// Records the global session which the next block declares.
    fn declare_session(&mut self, block_hash: [u8; 32], session: GlobalSession, Ghost(declared): Ghost<Seq<CosigningSet>>)
        requires
            old(self).tables_wf(),
            Some(session@) == GlobalSession::spec_new(old(self)@.next_block_to_intend(), declared),
            declared.len() <= u32::MAX,
        ensures
            final(self).tables_wf(),
            final(self)@ == old(self)@.declare_session(block_hash, declared),
    {
        let number = self.next_block_to_intend();
        let id = GlobalSession::id(session.sets.clone());
        let for_channel = session.clone();
        let for_latest = session.clone();
        self.global_sessions.set(
            id,
            DeclaredSession { start_block_number: number, start_block_hash: block_hash, session },
        );
        if let Some((prior, _)) = &self.latest_global_session_intended {
            self.global_sessions_last_block.set(*prior, number);
        }
        self.latest_global_session_intended = Some((id, for_latest));
        self.global_sessions_channel.push((id, for_channel));
        proof {
            let next = old(self)@.declare_session(block_hash, declared);
            assert(self@ =~~= next);
        }
    }

    /// Intends the next block: records what the host chain was observed to say of it, and
    /// tells the evaluator and the signers.
    ///
    /// The block is the one numbered [`Cosigning::next_block_to_intend`]. It has the hash
    /// `block_hash` and was observed to have `has_events`. The validator sets `cosigners`
    /// are those which cosign it: the sets as of the block before it. Where the block is
    /// notable, `declared` holds the validator sets as of the block itself, which form the
    /// global session which the block declares; else `declared` is not read. Where the
    /// block calls for no cosign, `cosigners` is not read.
    ///
    /// Returns what the evaluator was told of the block. On an error nothing has changed.
    pub fn intend_block(
        &mut self,
        block_hash: [u8; 32],
        has_events: HasEvents,
        cosigners: &Vec<ValidatorSet>,
        declared: &Vec<CosigningSet>,
    ) -> (sent: Result<BlockEvent, IntendError>)
        requires
            old(self).wf(),
        ensures
            final(self).wf(),
            match sent {
                Ok(event) => {
                    &&& old(self)@.intend_error(has_events, cosigners@, declared@) is None
                    &&& final(self)@ == old(self)@.intend(block_hash, has_events, cosigners@, declared@)
                    &&& event == final(self)@.block_events.last()
                },
                Err(error) => {
                    &&& old(self)@.intend_error(has_events, cosigners@, declared@) == Some(error)
                    &&& final(self)@ == old(self)@
                },
            },
    {
        let number = self.next_block_to_intend();
        if number == u64::MAX {
            return Err(IntendError::BlockNumberOverflow);
        }
        let notable = match has_events {
            HasEvents::Notable => true,
            _ => false,
        };
        let calls_for_cosigns = match has_events {
            HasEvents::No => false,
            _ => true,
        };
        let mut session: Option<GlobalSession> = None;
        if notable {
            if declared.len() > u32::MAX as usize {
                return Err(IntendError::TooManyValidatorSets);
            }
            match GlobalSession::new(number, declared) {
                Some(declared_session) => {
                    session = Some(declared_session);
                },
                None => {
                    return Err(IntendError::StakeOverflow);
                },
            }
        }
        if calls_for_cosigns && cosigners.len() > u32::MAX as usize {
            return Err(IntendError::TooManyValidatorSets);
        }
        proof {
            old(self)@.lemma_intend_wf(block_hash, has_events, cosigners@, declared@);
        }
        if let Some(session) = session {
            self.declare_session(block_hash, session, Ghost(declared@));
        }
        let mut events = has_events;
        if calls_for_cosigns {
            if cosigners.len() == 0 {
                events = HasEvents::No;
            } else {
                let global_session = GlobalSession::id(cosigners.clone());
                send_intents(
                    &mut self.intended_cosigns,
                    cosigners,
                    CosignIntent { global_session, block_number: number, block_hash, notable },
                );
            }
        }
        self.substrate_blocks.push(block_hash);
        let event = BlockEvent { block_number: number, has_events: events };
        self.block_events.push(event);
        self.scan_cosign_from = Some(number + 1);
        proof {
            let next = old(self)@.intend(block_hash, has_events, cosigners@, declared@);
            assert(self@ =~~= next);
        }
        Ok(event)
    }
}

} // verus!
