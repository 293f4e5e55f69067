//! The evaluator: whether the blocks intended have been cosigned.

use crate::cosign::{HasEvents, SignedCosign};
use crate::primitives::NetworkId;
use crate::session::{GlobalSession, SessionInfo};
use crate::state::{session_option_view, session_view, Cosigning, CosignedBlock, State};
use vstd::prelude::*;

verus! {

/// The least weight which is a supermajority of `total_stake`: the least which is more
/// than 83% of it.
pub open spec fn spec_supermajority_threshold(total_stake: u64) -> nat {
    (total_stake as nat * 83) / 100 + 1
}

/// The least weight which is a supermajority of `total_stake`.
pub fn supermajority_threshold(total_stake: u64) -> (threshold: u128)
    ensures
        threshold == spec_supermajority_threshold(total_stake),
{
    (total_stake as u128 * 83) / 100 + 1
}

/// A weight is a supermajority of the total stake exactly if it is more than 83% of it.
pub proof fn lemma_supermajority_is_more_than_83_percent(weight: nat, total_stake: u64)
    ensures
        weight >= spec_supermajority_threshold(total_stake) <==> weight * 100 > total_stake as nat * 83,
{
}

/// What the latest cosigns say of a block under a global session.
#[derive(Clone, Copy, PartialEq, Eq, Debug)]
pub struct Tally {
    /// The stake of the validator sets which have cosigned the block.
    pub weight_cosigned: u128,
    /// The lowest block among the latest cosigns of the session's validator sets.
    pub lowest_common_block: Option<u64>,
}

/// Whether the latest cosign of `network` under the global session `id` counts for block
/// `block_number`: for a notable block it has to be a cosign of that very block, for
/// another it may be one of a later block.
pub open spec fn spec_has_cosigned(
    latest: Map<([u8; 32], NetworkId), SignedCosign>,
    id: [u8; 32],
    network: NetworkId,
    block_number: u64,
    notable: bool,
) -> bool {
    &&& latest.contains_key((id, network))
    &&& if notable {
        latest[(id, network)].cosign.block_number == block_number
    } else {
        latest[(id, network)].cosign.block_number >= block_number
    }
}

/// Whether the `i`-th validator set of the session has cosigned the block while the
/// session holds no stake for it.
pub open spec fn spec_stake_missing_at(
    latest: Map<([u8; 32], NetworkId), SignedCosign>,
    id: [u8; 32],
    session: SessionInfo,
    block_number: u64,
    notable: bool,
    i: int,
) -> bool {
    &&& spec_has_cosigned(latest, id, session.sets[i].network, block_number, notable)
    &&& !session.stakes.contains_key(session.sets[i].network)
}

/// Whether one of the session's validator sets has cosigned the block while the session
/// holds no stake for it.
pub open spec fn spec_stake_missing(
    latest: Map<([u8; 32], NetworkId), SignedCosign>,
    id: [u8; 32],
    session: SessionInfo,
    block_number: u64,
    notable: bool,
) -> bool {
    exists|i: int|
        0 <= i < session.sets.len() && spec_stake_missing_at(
            latest,
            id,
            session,
            block_number,
            notable,
            i,
        )
}

/// The stake of those of the first `n` validator sets of the session which have cosigned
/// the block.
pub open spec fn spec_weight_cosigned(
    latest: Map<([u8; 32], NetworkId), SignedCosign>,
    id: [u8; 32],
    session: SessionInfo,
    block_number: u64,
    notable: bool,
    n: int,
) -> nat
    decreases n,
{
    if n <= 0 {
        0
    } else {
        let before = spec_weight_cosigned(latest, id, session, block_number, notable, n - 1);
        let network = session.sets[n - 1].network;
        if spec_has_cosigned(latest, id, network, block_number, notable)
            && session.stakes.contains_key(network) {
            before + session.stakes[network] as nat
        } else {
            before
        }
    }
}

/// The lowest block among the latest cosigns of the first `n` validator sets of the
/// session, if any of them has a cosign.
pub open spec fn spec_lowest_common_block(
    latest: Map<([u8; 32], NetworkId), SignedCosign>,
    id: [u8; 32],
    session: SessionInfo,
    n: int,
) -> Option<u64>
    decreases n,
{
    if n <= 0 {
        None
    } else {
        let before = spec_lowest_common_block(latest, id, session, n - 1);
        let key = (id, session.sets[n - 1].network);
        if latest.contains_key(key) {
            let cosigned = latest[key].cosign.block_number;
            match before {
                Some(lowest) => Some(if cosigned < lowest { cosigned } else { lowest }),
                None => Some(cosigned),
            }
        } else {
            before
        }
    }
}

/// The weight of `n` validator sets is at most `n` times the greatest stake.
pub proof fn lemma_weight_cosigned_bound(
    latest: Map<([u8; 32], NetworkId), SignedCosign>,
    id: [u8; 32],
    session: SessionInfo,
    block_number: u64,
    notable: bool,
    n: int,
)
    requires
        0 <= n,
    ensures
        spec_weight_cosigned(latest, id, session, block_number, notable, n) <= n * u64::MAX,
    decreases n,
{
    if n > 0 {
        lemma_weight_cosigned_bound(latest, id, session, block_number, notable, n - 1);
        assert((n - 1) * u64::MAX + u64::MAX == n * u64::MAX) by (nonlinear_arith);
    }
}

/// The lowest common block is cosigned by at least the weight which has cosigned any block:
/// every validator set with a latest cosign has cosigned each block up to the lowest among
/// them, so a block no later than that one has the stake of all of them behind it.
pub proof fn lemma_lowest_common_block_is_cosigned(
    latest: Map<([u8; 32], NetworkId), SignedCosign>,
    id: [u8; 32],
    session: SessionInfo,
    block_number: u64,
    notable: bool,
    later: u64,
    n: int,
)
    requires
        0 <= n,
        match spec_lowest_common_block(latest, id, session, n) {
            Some(lowest) => later <= lowest,
            None => true,
        },
    ensures
        spec_weight_cosigned(latest, id, session, later, false, n) >= spec_weight_cosigned(
            latest,
            id,
            session,
            block_number,
            notable,
            n,
        ),
    decreases n,
{
    if n > 0 {
        lemma_lowest_common_block_is_cosigned(latest, id, session, block_number, notable, later, n - 1);
    }
}

/// How the evaluation of a block ended.
#[derive(Clone, Copy, PartialEq, Eq, Debug)]
pub enum Evaluation {
    /// No block was waiting to be evaluated.
    Idle,
    /// The block was found to be cosigned, and is now the latest cosigned block.
    Cosigned { block_number: u64 },
    /// The block has not been cosigned by a supermajority yet. The notable cosigns of the
    /// global session are to be requested, and the block to be evaluated again later.
    NotCosigned { block_number: u64, global_session: [u8; 32], notable: bool },
    /// A validator set of the global session has cosigned, yet the session holds no stake
    /// for it.
    MissingStake { block_number: u64 },
    /// The global session of the block could not be told: none was declared, or the
    /// sessions declared do not fit the block. The engine is out of order.
    SessionUnresolved { block_number: u64 },
}

impl State {
    /// The state once the evaluator has adopted the first session declared, where it had
    /// adopted none yet.
    pub open spec fn adopt_first_session(self) -> State {
        if self.currently_evaluated_global_session is None && self.global_sessions_channel.len() > 0 {
            State {
                currently_evaluated_global_session: Some(self.global_sessions_channel[0]),
                global_sessions_channel: self.global_sessions_channel.drop_first(),
                ..self
            }
        } else {
            self
        }
    }

    /// Whether the global session of block `block_number` can be told: there is a session
    /// to work under, it started no later than the block, and the session declared next,
    /// if any, starts no earlier than the block.
    pub open spec fn strict_session_defined(self, block_number: u64) -> bool {
        let adopted = self.adopt_first_session();
        &&& adopted.currently_evaluated_global_session matches Some(current)
        &&& current.1.start_block_number <= block_number
        &&& adopted.global_sessions_channel.len() > 0 ==> block_number
            <= adopted.global_sessions_channel[0].1.start_block_number
    }

    /// The global session of block `block_number`, and the state once the evaluator has
    /// taken it up: the session declared next if it starts with this very block, which
    /// the evaluator then works under, else the session which it works under already.
    pub open spec fn strict_session(self, block_number: u64) -> (State, ([u8; 32], SessionInfo)) {
        let adopted = self.adopt_first_session();
        if adopted.global_sessions_channel.len() > 0
            && adopted.global_sessions_channel[0].1.start_block_number == block_number {
            (
                State {
                    currently_evaluated_global_session: Some(adopted.global_sessions_channel[0]),
                    global_sessions_channel: adopted.global_sessions_channel.drop_first(),
                    ..adopted
                },
                adopted.global_sessions_channel[0],
            )
        } else {
            (adopted, adopted.currently_evaluated_global_session->0)
        }
    }

    /// The global session which cosigns are taken in under: the session declared next,
    /// once the block before its first is the latest cosigned block, else the session
    /// which the evaluator works under, if any. While no block was found to be cosigned,
    /// block 0 stands for the latest cosigned block.
    pub open spec fn current_session(self) -> Option<([u8; 32], SessionInfo)> {
        if self.global_sessions_channel.len() > 0 && self.latest_cosigned() + 1
            == self.global_sessions_channel[0].1.start_block_number {
            Some(self.global_sessions_channel[0])
        } else {
            self.currently_evaluated_global_session
        }
    }

    /// The state once the first block waiting has been found to be cosigned at `now`.
    pub open spec fn commit_block(self, now: u64) -> State {
        let block_number = self.block_events[0].block_number;
        State {
            block_events: self.block_events.drop_first(),
            latest_cosigned_block_number: Some(block_number),
            cosigned_blocks: self.cosigned_blocks.push(
                CosignedBlock { block_number, time_evaluated: now },
            ),
            ..self
        }
    }

    /// The evaluation of the first block waiting against the latest cosigns under its
    /// global session: the state after it, the lowest block known to be cosigned, and how
    /// it ended.
    pub open spec fn evaluate_under_session(self, notable: bool, known_cosign: Option<u64>, now: u64) -> (
        State,
        Option<u64>,
        Evaluation,
    ) {
        let block_number = self.block_events[0].block_number;
        if !self.strict_session_defined(block_number) {
            (self, known_cosign, Evaluation::SessionUnresolved { block_number })
        } else {
            let (taken_up, (id, session)) = self.strict_session(block_number);
            let latest = self.networks_latest_cosigned_block;
            if spec_stake_missing(latest, id, session, block_number, notable) {
                (self, known_cosign, Evaluation::MissingStake { block_number })
            } else if spec_weight_cosigned(
                latest,
                id,
                session,
                block_number,
                notable,
                session.sets.len() as int,
            ) < spec_supermajority_threshold(session.total_stake) {
                (
                    self,
                    known_cosign,
                    Evaluation::NotCosigned { block_number, global_session: id, notable },
                )
            } else {
                (
                    taken_up.commit_block(now),
                    if notable {
                        known_cosign
                    } else {
                        spec_lowest_common_block(latest, id, session, session.sets.len() as int)
                    },
                    Evaluation::Cosigned { block_number },
                )
            }
        }
    }

    /// The evaluation of the first block waiting, if one is: the state after it, the
    /// lowest block known to be cosigned, and how it ended.
    ///
    /// A block without events is cosigned as it is. A notable block has to be cosigned
    /// itself by a supermajority of the global session which it starts. Any other block is
    /// cosigned if `known_cosign` is no lower than it, or else if a supermajority of its
    /// global session has cosigned it or a later block. In that last case the lowest block
    /// among the latest cosigns is known to be cosigned from then on. A block which was not
    /// found to be cosigned leaves the state as it was.
    pub open spec fn evaluate_block(self, known_cosign: Option<u64>, now: u64) -> (
        State,
        Option<u64>,
        Evaluation,
    ) {
        if self.block_events.len() == 0 {
            (self, known_cosign, Evaluation::Idle)
        } else {
            let block_number = self.block_events[0].block_number;
            match self.block_events[0].has_events {
                HasEvents::No => (
                    self.commit_block(now),
                    known_cosign,
                    Evaluation::Cosigned { block_number },
                ),
                HasEvents::Notable => self.evaluate_under_session(true, known_cosign, now),
                HasEvents::NonNotable => if known_cosign is Some && known_cosign->0 >= block_number {
                    (self.commit_block(now), known_cosign, Evaluation::Cosigned { block_number })
                } else {
                    self.evaluate_under_session(false, None, now)
                },
            }
        }
    }

    /// Blocks are evaluated one after the other for as long as they are found to be
    /// cosigned: the state after the last of them, whether any was found to be cosigned,
    /// and how the evaluation which found none ended.
    pub open spec fn evaluate(self, known_cosign: Option<u64>, now: u64) -> (State, bool, Evaluation)
        decreases self.block_events.len(),
    {
        let (next, known, evaluation) = self.evaluate_block(known_cosign, now);
        if evaluation is Cosigned && next.block_events.len() < self.block_events.len() {
            let (last, _, ended) = next.evaluate(known, now);
            (last, true, ended)
        } else {
            (next, false, evaluation)
        }
    }

    /// Evaluating the blocks waiting keeps the state well formed, and ends with an
    /// evaluation which found no block to be cosigned.
    pub proof fn lemma_evaluate_wf(self, known_cosign: Option<u64>, now: u64)
        requires
            self.wf(),
        ensures
            self.evaluate(known_cosign, now).0.wf(),
            !(self.evaluate(known_cosign, now).2 is Cosigned),
            self.evaluate(known_cosign, now).0.latest_cosigned() >= self.latest_cosigned(),
            !self.evaluate(known_cosign, now).1 ==> self.evaluate(known_cosign, now).0 == self,
        decreases self.block_events.len(),
    {
        let (next, known, evaluation) = self.evaluate_block(known_cosign, now);
        self.lemma_evaluate_block_wf(known_cosign, now);
        self.lemma_evaluate_block_consumes(known_cosign, now);
        if evaluation is Cosigned {
            assert(self.block_events[0].block_number == self.latest_cosigned() + 1);
            next.lemma_evaluate_wf(known, now);
        }
    }

    /// A block which was found to be cosigned is no longer waiting.
    pub proof fn lemma_evaluate_block_consumes(self, known_cosign: Option<u64>, now: u64)
        ensures
            self.evaluate_block(known_cosign, now).2 is Cosigned ==> self.evaluate_block(
                known_cosign,
                now,
            ).0.block_events == self.block_events.drop_first() && self.block_events.len() > 0,
            !(self.evaluate_block(known_cosign, now).2 is Cosigned) ==> self.evaluate_block(
                known_cosign,
                now,
            ).0 == self,
    {
    }

    /// Finding the first block waiting to be cosigned keeps the state well formed.
    pub proof fn lemma_commit_block_wf(self, now: u64)
        requires
            self.wf(),
            self.block_events.len() > 0,
        ensures
            self.commit_block(now).wf(),
    {
    }

    /// Taking up the global session of a block keeps the state well formed.
    pub proof fn lemma_strict_session_wf(self, block_number: u64)
        requires
            self.wf(),
        ensures
            self.strict_session(block_number).0.wf(),
    {
    }

    /// Evaluating a block keeps the state well formed.
    pub proof fn lemma_evaluate_block_wf(self, known_cosign: Option<u64>, now: u64)
        requires
            self.wf(),
        ensures
            self.evaluate_block(known_cosign, now).0.wf(),
    {
    }
}

impl Cosigning {
    /// What the latest cosigns under the global session `id` say of block `block_number`,
    /// unless a validator set has cosigned for which the session holds no stake.
    pub fn tally(&self, id: &[u8; 32], session: &GlobalSession, block_number: u64, notable: bool) -> (tally:
        Option<Tally>)
        requires
            self.wf(),
        ensures
            match tally {
                Some(tally) => {
                    &&& !spec_stake_missing(
                        self@.networks_latest_cosigned_block,
                        *id,
                        session@,
                        block_number,
                        notable,
                    )
                    &&& tally.weight_cosigned == spec_weight_cosigned(
                        self@.networks_latest_cosigned_block,
                        *id,
                        session@,
                        block_number,
                        notable,
                        session@.sets.len() as int,
                    )
                    &&& tally.lowest_common_block == spec_lowest_common_block(
                        self@.networks_latest_cosigned_block,
                        *id,
                        session@,
                        session@.sets.len() as int,
                    )
                },
                None => spec_stake_missing(
                    self@.networks_latest_cosigned_block,
                    *id,
                    session@,
                    block_number,
                    notable,
                ),
            },
    {
        let ghost latest = self@.networks_latest_cosigned_block;
        let mut weight_cosigned: u128 = 0;
        let mut lowest_common_block: Option<u64> = None;
        let mut i: usize = 0;
        while i < session.sets.len()
            invariant
                i <= session.sets@.len(),
                self.wf(),
                latest == self@.networks_latest_cosigned_block,
                forall|j: int|
                    0 <= j < i ==> !spec_stake_missing_at(
                        latest,
                        *id,
                        session@,
                        block_number,
                        notable,
                        j,
                    ),
                weight_cosigned == spec_weight_cosigned(
                    latest,
                    *id,
                    session@,
                    block_number,
                    notable,
                    i as int,
                ),
                lowest_common_block == spec_lowest_common_block(latest, *id, session@, i as int),
            decreases session.sets@.len() - i,
        {
            let network = session.sets[i].network;
            proof {
                lemma_weight_cosigned_bound(latest, *id, session@, block_number, notable, i as int);
                assert(i * u64::MAX + u64::MAX <= u128::MAX) by (nonlinear_arith)
                    requires
                        i <= usize::MAX,
                ;
            }
            if let Some(cosign) = self.latest_cosign(id, network) {
                let cosigned = cosign.cosign.block_number;
                let counts = if notable {
                    cosigned == block_number
                } else {
                    cosigned >= block_number
                };
                if counts {
                    match session.stakes.get(network) {
                        Some(stake) => {
                            weight_cosigned = weight_cosigned + *stake as u128;
                        },
                        None => {
                            assert(spec_stake_missing_at(
                                latest,
                                *id,
                                session@,
                                block_number,
                                notable,
                                i as int,
                            ));
                            return None;
                        },
                    }
                }
                lowest_common_block = match lowest_common_block {
                    Some(lowest) => Some(if cosigned < lowest { cosigned } else { lowest }),
                    None => Some(cosigned),
                };
            }
            i += 1;
        }
        Some(Tally { weight_cosigned, lowest_common_block })
    }

    /// The global session which block `block_number` would be evaluated under, if it can
    /// be told.
    fn peek_strict_session(&self, block_number: u64) -> (entry: Option<&([u8; 32], GlobalSession)>)
        requires
            self.wf(),
        ensures
            match entry {
                Some(entry) => self@.strict_session_defined(block_number) && session_view(*entry)
                    == self@.strict_session(block_number).1,
                None => !self@.strict_session_defined(block_number),
            },
    {
        let ghost adopted = self@.adopt_first_session();
        let (existing, next): (&([u8; 32], GlobalSession), usize) =
            match &self.currently_evaluated_global_session {
            Some(current) => (current, 0),
            None => {
                if self.global_sessions_channel.len() == 0 {
                    return None;
                }
                (&self.global_sessions_channel[0], 1)
            },
        };
        assert(adopted.currently_evaluated_global_session == Some(session_view(*existing)));
        assert(adopted.global_sessions_channel =~= self@.global_sessions_channel.skip(next as int));
        if existing.1.start_block_number > block_number {
            return None;
        }
        if next < self.global_sessions_channel.len() {
            let queued = &self.global_sessions_channel[next];
            assert(adopted.global_sessions_channel[0] == session_view(*queued));
            if block_number > queued.1.start_block_number {
                return None;
            }
            if block_number == queued.1.start_block_number {
                return Some(queued);
            }
        }
        Some(existing)
    }

    /// Whether the global session of block `block_number` can be told, which is what
    /// [`Cosigning::currently_evaluated_global_session_strict`] asks for.
    pub fn strict_session_defined(&self, block_number: u64) -> (defined: bool)
        requires
            self.wf(),
        ensures
            defined == self@.strict_session_defined(block_number),
    {
        self.peek_strict_session(block_number).is_some()
    }

    /// Takes up the global session of block `block_number`.
    fn take_up_session(&mut self, block_number: u64)
        requires
            old(self).wf(),
            old(self)@.strict_session_defined(block_number),
        ensures
            final(self).wf(),
            final(self)@ == old(self)@.strict_session(block_number).0,
            session_option_view(final(self).currently_evaluated_global_session) == Some(
                old(self)@.strict_session(block_number).1,
            ),
    {
        if self.currently_evaluated_global_session.is_none() {
            let first = self.global_sessions_channel.remove(0);
            self.currently_evaluated_global_session = Some(first);
        }
        proof {
            let adopted = old(self)@.adopt_first_session();
            assert(self@ =~~= adopted);
        }
        if self.global_sessions_channel.len() > 0
            && self.global_sessions_channel[0].1.start_block_number == block_number {
            let next = self.global_sessions_channel.remove(0);
            self.currently_evaluated_global_session = Some(next);
        }
        proof {
            let taken_up = old(self)@.strict_session(block_number).0;
            assert(self@ =~~= taken_up);
        }
    }

    /// The global session of block `block_number`, which the evaluator works under from
    /// now on.
    ///
    /// The evaluator adopts the first session declared if it has adopted none yet, and
    /// takes up the session declared next if it starts with this very block. This must be
    /// called for one block after the other, and only for a block which a global session
    /// has started by: see [`State::strict_session_defined`].
    pub fn currently_evaluated_global_session_strict(&mut self, block_number: u64) -> (session: (
        [u8; 32],
        GlobalSession,
    ))
        requires
            old(self).wf(),
            old(self)@.strict_session_defined(block_number),
        ensures
            final(self).wf(),
            (final(self)@, session_view(session)) == old(self)@.strict_session(block_number),
    {
        self.take_up_session(block_number);
        let current = self.currently_evaluated_global_session.as_ref().unwrap();
        (current.0, current.1.clone())
    }

    /// The global session which cosigns are taken in under, with its identity.
    pub(crate) fn current_session(&self) -> (entry: Option<&([u8; 32], GlobalSession)>)
        requires
            self.wf(),
        ensures
            session_option_view(
                match entry {
                    Some(entry) => Some(*entry),
                    None => None,
                },
            ) == self@.current_session(),
    {
        if self.global_sessions_channel.len() > 0 {
            let next = &self.global_sessions_channel[0];
            assert(self@.global_sessions_channel[0] == session_view(*next));
            let latest = match self.latest_cosigned_block_number {
                Some(latest) => latest,
                None => 0,
            };
            if latest < u64::MAX && latest + 1 == next.1.start_block_number {
                return Some(next);
            }
        }
        self.currently_evaluated_global_session.as_ref()
    }

    /// The global session which cosigns are taken in under, with its identity: the
    /// session declared next, once the block before its first is the latest cosigned
    /// block, else the session which the evaluator works under, if any.
    ///
    /// Unlike [`Cosigning::currently_evaluated_global_session_strict`] this takes no
    /// session up and can be called at any time.
    pub fn currently_evaluated_global_session(&self) -> (session: Option<([u8; 32], GlobalSession)>)
        requires
            self.wf(),
        ensures
            session_option_view(session) == self@.current_session(),
    {
        match self.current_session() {
            Some(entry) => Some((entry.0, entry.1.clone())),
            None => None,
        }
    }

    /// Makes the first block waiting the latest cosigned block, found to be so at `now`.
    fn commit_block(&mut self, now: u64)
        requires
            old(self).wf(),
            old(self)@.block_events.len() > 0,
        ensures
            final(self).wf(),
            final(self)@ == old(self)@.commit_block(now),
    {
        proof {
            old(self)@.lemma_commit_block_wf(now);
        }
        let event = self.block_events.remove(0);
        self.latest_cosigned_block_number = Some(event.block_number);
        self.cosigned_blocks.push(
            CosignedBlock { block_number: event.block_number, time_evaluated: now },
        );
        proof {
            let next = old(self)@.commit_block(now);
            assert(self@ =~~= next);
        }
    }

    /// Evaluates the first block waiting, if one is, at the time `now`, in seconds since
    /// the Unix epoch.
    ///
    /// `known_cosign` is the lowest block known to be cosigned from an earlier evaluation,
    /// which spares later blocks the look at the cosigns. A block which is not found to be
    /// cosigned leaves the engine as it was.
    pub fn evaluate_block(&mut self, known_cosign: &mut Option<u64>, now: u64) -> (evaluation: Evaluation)
        requires
            old(self).wf(),
        ensures
            final(self).wf(),
            (final(self)@, *final(known_cosign), evaluation) == old(self)@.evaluate_block(
                *old(known_cosign),
                now,
            ),
    {
        if self.block_events.len() == 0 {
            return Evaluation::Idle;
        }
        let event = self.block_events[0];
        let block_number = event.block_number;
        let notable = match event.has_events {
            HasEvents::No => {
                self.commit_block(now);
                return Evaluation::Cosigned { block_number };
            },
            HasEvents::Notable => true,
            HasEvents::NonNotable => {
                if let Some(known) = *known_cosign {
                    if known >= block_number {
                        self.commit_block(now);
                        return Evaluation::Cosigned { block_number };
                    }
                }
                *known_cosign = None;
                false
            },
        };
        let tally = match self.peek_strict_session(block_number) {
            None => {
                return Evaluation::SessionUnresolved { block_number };
            },
            Some(entry) => {
                let Some(tally) = self.tally(&entry.0, &entry.1, block_number, notable) else {
                    return Evaluation::MissingStake { block_number };
                };
                if tally.weight_cosigned < supermajority_threshold(entry.1.total_stake) {
                    return Evaluation::NotCosigned {
                        block_number,
                        global_session: entry.0,
                        notable,
                    };
                }
                tally
            },
        };
        self.take_up_session(block_number);
        if !notable {
            *known_cosign = tally.lowest_common_block;
        }
        self.commit_block(now);
        Evaluation::Cosigned { block_number }
    }

    /// Evaluates the blocks waiting one after the other at the time `now`, in seconds
    /// since the Unix epoch, for as long as they are found to be cosigned.
    ///
    /// Returns whether any block was found to be cosigned, and how the evaluation which
    /// found none ended: with no block waiting, or with a block which is not cosigned yet
    /// and the global session whose notable cosigns are to be requested.
    pub fn evaluate(&mut self, now: u64) -> (outcome: (bool, Evaluation))
        requires
            old(self).wf(),
        ensures
            final(self).wf(),
            (final(self)@, outcome.0, outcome.1) == old(self)@.evaluate(None, now),
            !(outcome.1 is Cosigned),
    {
        let mut known_cosign: Option<u64> = None;
        let mut made_progress = false;
        loop
            invariant
                self.wf(),
                old(self)@.evaluate(None, now) == (
                    self@.evaluate(known_cosign, now).0,
                    made_progress || self@.evaluate(known_cosign, now).1,
                    self@.evaluate(known_cosign, now).2,
                ),
            decreases self@.block_events.len(),
        {
            proof {
                self@.lemma_evaluate_block_consumes(known_cosign, now);
            }
            let evaluation = self.evaluate_block(&mut known_cosign, now);
            match evaluation {
                Evaluation::Cosigned { .. } => {
                    made_progress = true;
                },
                _ => {
                    return (made_progress, evaluation);
                },
            }
        }
    }
}

} // verus!
