//! Everything the engine keeps: its indices and the channels between its tasks.

use crate::cosign::{CosignIntent, HasEvents, SignedCosign};
use crate::primitives::{networks, spec_networks, NetworkId, ValidatorSet};
use crate::session::{GlobalSession, NetworkMap, SessionInfo};
use crate::store::SessionTable;
use vstd::prelude::*;

verus! {

/// What the intend task says of a block to the evaluator.
#[derive(Clone, Copy, PartialEq, Eq, Debug, Structural)]
pub struct BlockEvent {
    pub block_number: u64,
    pub has_events: HasEvents,
}

/// What the evaluator says of a block to the delay task.
#[derive(Clone, Copy, PartialEq, Eq, Debug, Structural)]
pub struct CosignedBlock {
    pub block_number: u64,
    /// When the block was found to be cosigned, in seconds since the Unix epoch.
    pub time_evaluated: u64,
}

/// The error which says that the cosigning protocol has faulted.
#[derive(Clone, Copy, PartialEq, Eq, Debug, Structural)]
pub struct Faulted;

/// The state of the engine, as plain values.
#[verifier::ext_equal]
pub struct State {
    /// The number of the next block for the intend task, once it has handled one.
    pub scan_cosign_from: Option<u64>,
    /// The hash of every block which the intend task has handled, by its number.
    pub substrate_blocks: Map<u64, [u8; 32]>,
    /// The block which declared each global session and its hash, with the session.
    pub global_sessions: Map<[u8; 32], (u64, [u8; 32], SessionInfo)>,
    /// The last block of each global session which has a successor.
    pub global_sessions_last_block: Map<[u8; 32], u64>,
    /// The latest global session which the intend task has declared.
    pub latest_global_session_intended: Option<([u8; 32], SessionInfo)>,
    /// From the intend task to the evaluator: each block with its classification.
    pub block_events: Seq<BlockEvent>,
    /// From the intend task to the signers: the cosigns expected of each validator set.
    pub intended_cosigns: Seq<(ValidatorSet, CosignIntent)>,
    /// From the intend task to the evaluator: each global session declared.
    pub global_sessions_channel: Seq<([u8; 32], SessionInfo)>,
    /// From the evaluator to the delay task: each block found to be cosigned.
    pub cosigned_blocks: Seq<CosignedBlock>,
    /// The latest block found to be cosigned, once one was.
    pub latest_cosigned_block_number: Option<u64>,
    /// The global session which the evaluator works under, once it has adopted one.
    pub currently_evaluated_global_session: Option<([u8; 32], SessionInfo)>,
    /// The latest block acknowledged as cosigned, once one was.
    pub latest_acknowledged_block_number: Option<u64>,
    /// The latest cosign accepted from each network under each global session.
    pub networks_latest_cosigned_block: Map<([u8; 32], NetworkId), SignedCosign>,
    /// The cosigns under each global session for a block other than the one observed.
    pub faults: Map<[u8; 32], Seq<SignedCosign>>,
    /// The global session which faulted, once one has.
    pub faulted_session: Option<[u8; 32]>,
}

/// Whether no two cosigns of `cosigns` are by the same cosigner.
pub open spec fn distinct_cosigners(cosigns: Seq<SignedCosign>) -> bool {
    forall|i: int, j: int|
        0 <= i < j < cosigns.len() ==> (#[trigger] cosigns[i]).cosign.cosigner != (
        #[trigger] cosigns[j]).cosign.cosigner
}

impl State {
    /// The state before anything happened.
    pub open spec fn initial() -> State {
        State {
            scan_cosign_from: None,
            substrate_blocks: Map::empty(),
            global_sessions: Map::empty(),
            global_sessions_last_block: Map::empty(),
            latest_global_session_intended: None,
            block_events: Seq::empty(),
            intended_cosigns: Seq::empty(),
            global_sessions_channel: Seq::empty(),
            cosigned_blocks: Seq::empty(),
            latest_cosigned_block_number: None,
            currently_evaluated_global_session: None,
            latest_acknowledged_block_number: None,
            networks_latest_cosigned_block: Map::empty(),
            faults: Map::empty(),
            faulted_session: None,
        }
    }

    /// The number of the next block for the intend task: 1 at first.
    pub open spec fn next_block_to_intend(self) -> u64 {
        match self.scan_cosign_from {
            Some(number) => number,
            None => 1,
        }
    }

    /// The number of the latest block found to be cosigned: 0 at first.
    pub open spec fn latest_cosigned(self) -> u64 {
        match self.latest_cosigned_block_number {
            Some(number) => number,
            None => 0,
        }
    }

    /// The number of the latest block acknowledged as cosigned: 0 at first.
    pub open spec fn latest_acknowledged(self) -> u64 {
        match self.latest_acknowledged_block_number {
            Some(number) => number,
            None => 0,
        }
    }

    /// What holds of the state at all times.
    ///
    /// The blocks waiting for the evaluator are those after the latest cosigned one up to
    /// the last one intended, in order and without a gap. The blocks waiting to be
    /// acknowledged are those after the latest acknowledged one up to the latest cosigned
    /// one, in the same way. The hash of every block intended is known. No network has two
    /// faults under one global session, the session which faulted has faults, and each
    /// latest cosign is kept under its own global session and cosigner. The global
    /// sessions waiting for the evaluator were declared by blocks intended, and wait in the
    /// order of the blocks which declared them.
    pub open spec fn wf(self) -> bool {
        &&& forall|i: int|
            0 <= i < self.block_events.len() ==> (#[trigger] self.block_events[i]).block_number
                == self.latest_cosigned() + 1 + i
        &&& self.next_block_to_intend() == self.latest_cosigned() + 1 + self.block_events.len()
        &&& forall|i: int|
            0 <= i < self.cosigned_blocks.len() ==> (#[trigger] self.cosigned_blocks[i]).block_number
                == self.latest_acknowledged() + 1 + i
        &&& self.latest_cosigned() == self.latest_acknowledged() + self.cosigned_blocks.len()
        &&& forall|number: u64| #[trigger]
            self.substrate_blocks.contains_key(number) <==> 1 <= number
                < self.next_block_to_intend()
        &&& forall|id: [u8; 32]| #[trigger]
            self.faults.contains_key(id) ==> distinct_cosigners(self.faults[id])
        &&& self.faulted_session matches Some(id) ==> self.faults.contains_key(id)
        &&& forall|key: ([u8; 32], NetworkId)| #[trigger]
            self.networks_latest_cosigned_block.contains_key(key) ==> {
                &&& self.networks_latest_cosigned_block[key].cosign.global_session == key.0
                &&& self.networks_latest_cosigned_block[key].cosign.cosigner == key.1
            }
        &&& forall|i: int|
            0 <= i < self.global_sessions_channel.len() ==> (
            #[trigger] self.global_sessions_channel[i]).1.start_block_number
                < self.next_block_to_intend()
        &&& forall|i: int, j: int|
            0 <= i < j < self.global_sessions_channel.len() ==> (
            #[trigger] self.global_sessions_channel[i]).1.start_block_number < (
            #[trigger] self.global_sessions_channel[j]).1.start_block_number
    }

    /// The latest cosigns kept under the global session `id` for the first `n` networks, in
    /// the order of the networks.
    pub open spec fn latest_cosigns(self, id: [u8; 32], n: int) -> Seq<SignedCosign>
        decreases n,
    {
        if n <= 0 {
            Seq::empty()
        } else {
            let before = self.latest_cosigns(id, n - 1);
            let key = (id, spec_networks()[n - 1]);
            if self.networks_latest_cosigned_block.contains_key(key) {
                before.push(self.networks_latest_cosigned_block[key])
            } else {
                before
            }
        }
    }

    /// The latest cosign of each network under the global session `id`.
    pub open spec fn notable_cosigns(self, id: [u8; 32]) -> Seq<SignedCosign> {
        self.latest_cosigns(id, 4)
    }

    /// The cosigns to broadcast again every so often.
    ///
    /// Once a global session has faulted these are its faults, followed by the latest
    /// cosign of each network under it. Until then they are the latest cosign of each
    /// network under the latest global session intended.
    pub open spec fn cosigns_to_rebroadcast(self) -> Seq<SignedCosign> {
        match self.faulted_session {
            Some(faulted) => self.faults[faulted] + self.latest_cosigns(faulted, 4),
            None => match self.latest_global_session_intended {
                Some((id, _)) => self.latest_cosigns(id, 4),
                None => Seq::empty(),
            },
        }
    }

    /// The number of the latest block found to be cosigned, unless the protocol faulted.
    pub open spec fn latest_cosigned_block_number(self) -> Result<u64, Faulted> {
        if self.faulted_session is Some {
            Err(Faulted)
        } else {
            Ok(self.latest_cosigned())
        }
    }
}

/// The initial state is well formed.
pub proof fn lemma_initial_wf()
    ensures
        State::initial().wf(),
{
}

/// A global session as it was declared: by which block, and what it is.
#[derive(Debug)]
pub struct DeclaredSession {
    pub start_block_number: u64,
    pub start_block_hash: [u8; 32],
    pub session: GlobalSession,
}

/// The identity of a global session with the session.
pub open spec fn session_view(entry: ([u8; 32], GlobalSession)) -> ([u8; 32], SessionInfo) {
    (entry.0, entry.1@)
}

/// The identity of a global session with the session, if there is one.
pub open spec fn session_option_view(entry: Option<([u8; 32], GlobalSession)>) -> Option<
    ([u8; 32], SessionInfo),
> {
    match entry {
        Some(entry) => Some(session_view(entry)),
        None => None,
    }
}

/// The engine which cosigning is managed with.
pub struct Cosigning {
    pub(crate) scan_cosign_from: Option<u64>,
    pub(crate) substrate_blocks: Vec<[u8; 32]>,
    pub(crate) global_sessions: SessionTable<DeclaredSession>,
    pub(crate) global_sessions_last_block: SessionTable<u64>,
    pub(crate) latest_global_session_intended: Option<([u8; 32], GlobalSession)>,
    pub(crate) block_events: Vec<BlockEvent>,
    pub(crate) intended_cosigns: Vec<(ValidatorSet, CosignIntent)>,
    pub(crate) global_sessions_channel: Vec<([u8; 32], GlobalSession)>,
    pub(crate) cosigned_blocks: Vec<CosignedBlock>,
    pub(crate) latest_cosigned_block_number: Option<u64>,
    pub(crate) currently_evaluated_global_session: Option<([u8; 32], GlobalSession)>,
    pub(crate) latest_acknowledged_block_number: Option<u64>,
    pub(crate) networks_latest_cosigned_block: SessionTable<NetworkMap<SignedCosign>>,
    pub(crate) faults: SessionTable<Vec<SignedCosign>>,
    pub(crate) faulted_session: Option<[u8; 32]>,
}

impl View for Cosigning {
    type V = State;

    open(crate) spec fn view(&self) -> State {
        State {
            scan_cosign_from: self.scan_cosign_from,
            substrate_blocks: Map::new(
                |number: u64| 1 <= number <= self.substrate_blocks@.len(),
                |number: u64| self.substrate_blocks@[number - 1],
            ),
            global_sessions: Map::new(
                |id: [u8; 32]| self.global_sessions@.contains_key(id),
                |id: [u8; 32]|
                    (
                        self.global_sessions@[id].start_block_number,
                        self.global_sessions@[id].start_block_hash,
                        self.global_sessions@[id].session@,
                    ),
            ),
            global_sessions_last_block: self.global_sessions_last_block@,
            latest_global_session_intended: session_option_view(self.latest_global_session_intended),
            block_events: self.block_events@,
            intended_cosigns: self.intended_cosigns@,
            global_sessions_channel: Seq::new(
                self.global_sessions_channel@.len(),
                |i: int| session_view(self.global_sessions_channel@[i]),
            ),
            cosigned_blocks: self.cosigned_blocks@,
            latest_cosigned_block_number: self.latest_cosigned_block_number,
            currently_evaluated_global_session: session_option_view(
                self.currently_evaluated_global_session,
            ),
            latest_acknowledged_block_number: self.latest_acknowledged_block_number,
            networks_latest_cosigned_block: Map::new(
                |key: ([u8; 32], NetworkId)|
                    self.networks_latest_cosigned_block@.contains_key(key.0)
                        && self.networks_latest_cosigned_block@[key.0]@.contains_key(key.1),
                |key: ([u8; 32], NetworkId)| self.networks_latest_cosigned_block@[key.0]@[key.1],
            ),
            faults: Map::new(
                |id: [u8; 32]| self.faults@.contains_key(id),
                |id: [u8; 32]| self.faults@[id]@,
            ),
            faulted_session: self.faulted_session,
        }
    }
}

impl Cosigning {
    /// Whether the engine is in order: how it holds its state is in order, and so is the
    /// state.
    pub open(crate) spec fn wf(&self) -> bool {
        &&& self.tables_wf()
        &&& self@.wf()
    }

    /// Whether the tables which the engine holds its state in are in order.
    pub open(crate) spec fn tables_wf(&self) -> bool {
        &&& self.global_sessions.wf()
        &&& self.global_sessions_last_block.wf()
        &&& self.networks_latest_cosigned_block.wf()
        &&& self.faults.wf()
        &&& self.substrate_blocks@.len() + 1 == self@.next_block_to_intend()
    }

    /// An engine which has seen nothing yet.
    pub fn new() -> (engine: Cosigning)
        ensures
            engine.wf(),
            engine@ == State::initial(),
    {
        let engine = Cosigning {
            scan_cosign_from: None,
            substrate_blocks: Vec::new(),
            global_sessions: SessionTable::new(),
            global_sessions_last_block: SessionTable::new(),
            latest_global_session_intended: None,
            block_events: Vec::new(),
            intended_cosigns: Vec::new(),
            global_sessions_channel: Vec::new(),
            cosigned_blocks: Vec::new(),
            latest_cosigned_block_number: None,
            currently_evaluated_global_session: None,
            latest_acknowledged_block_number: None,
            networks_latest_cosigned_block: SessionTable::new(),
            faults: SessionTable::new(),
            faulted_session: None,
        };
        assert(engine@ =~~= State::initial());
        engine
    }

    /// The global session with the identity `id` as it was declared, if one was. Where two
    /// blocks declared a session with the same identity, this is the later one.
    pub fn global_session(&self, id: &[u8; 32]) -> (declared: Option<&DeclaredSession>)
        requires
            self.wf(),
        ensures
            match declared {
                Some(declared) => self@.global_sessions.contains_key(*id) && self@.global_sessions[*id]
                    == (
                    declared.start_block_number,
                    declared.start_block_hash,
                    declared.session@,
                ),
                None => !self@.global_sessions.contains_key(*id),
            },
    {
        self.global_sessions.get(id)
    }

    /// The last block of the global session with the identity `id`, once another session
    /// has been declared after it.
    pub fn global_session_last_block(&self, id: &[u8; 32]) -> (last: Option<u64>)
        requires
            self.wf(),
        ensures
            match last {
                Some(last) => self@.global_sessions_last_block.contains_key(*id)
                    && self@.global_sessions_last_block[*id] == last,
                None => !self@.global_sessions_last_block.contains_key(*id),
            },
    {
        match self.global_sessions_last_block.get(id) {
            Some(last) => Some(*last),
            None => None,
        }
    }

    /// The latest global session which a block has declared, with its identity.
    pub fn latest_global_session_intended(&self) -> (latest: Option<&([u8; 32], GlobalSession)>)
        ensures
            session_option_view(
                match latest {
                    Some(latest) => Some(*latest),
                    None => None,
                },
            ) == self@.latest_global_session_intended,
    {
        self.latest_global_session_intended.as_ref()
    }

    /// The latest cosign kept for `network` under the global session `id`, if one is.
    pub fn latest_cosign(&self, id: &[u8; 32], network: NetworkId) -> (cosign: Option<
        SignedCosign,
    >)
        requires
            self.wf(),
        ensures
            match cosign {
                Some(cosign) => self@.networks_latest_cosigned_block.contains_key((*id, network))
                    && self@.networks_latest_cosigned_block[(*id, network)] == cosign,
                None => !self@.networks_latest_cosigned_block.contains_key((*id, network)),
            },
    {
        match self.networks_latest_cosigned_block.get(id) {
            Some(by_network) => match by_network.get(network) {
                Some(cosign) => Some(*cosign),
                None => None,
            },
            None => None,
        }
    }

    /// Appends the latest cosign of each network under the global session `id` to `out`.
    fn push_latest_cosigns(&self, id: &[u8; 32], out: &mut Vec<SignedCosign>)
        requires
            self.wf(),
        ensures
            final(out)@ == old(out)@ + self@.latest_cosigns(*id, 4),
    {
        let all = networks();
        let mut i: usize = 0;
        assert(out@ =~= old(out)@ + self@.latest_cosigns(*id, 0));
        while i < 4
            invariant
                i <= 4,
                self.wf(),
                all@ == spec_networks(),
                out@ == old(out)@ + self@.latest_cosigns(*id, i as int),
            decreases 4 - i,
        {
            if let Some(cosign) = self.latest_cosign(id, all[i]) {
                out.push(cosign);
            }
            assert(out@ =~= old(out)@ + self@.latest_cosigns(*id, i + 1));
            i += 1;
        }
    }

    /// The number of the latest block found to be cosigned, which is 0 until one was.
    ///
    /// Once a global session has faulted, this is the error instead, from then on.
    pub fn latest_cosigned_block_number(&self) -> (number: Result<u64, Faulted>)
        requires
            self.wf(),
        ensures
            number == self@.latest_cosigned_block_number(),
    {
        if self.faulted_session.is_some() {
            return Err(Faulted);
        }
        match self.latest_cosigned_block_number {
            Some(number) => Ok(number),
            None => Ok(0),
        }
    }

    /// The latest cosign of each network under the global session `global_session`, to
    /// answer requests for its notable cosigns with. There is none for a global session
    /// under which no cosign was accepted.
    pub fn notable_cosigns(&self, global_session: [u8; 32]) -> (cosigns: Vec<SignedCosign>)
        requires
            self.wf(),
        ensures
            cosigns@ == self@.notable_cosigns(global_session),
    {
        let mut cosigns: Vec<SignedCosign> = Vec::new();
        self.push_latest_cosigns(&global_session, &mut cosigns);
        cosigns
    }

    /// The cosigns to broadcast again every so often: the most recent ones, in case their
    /// first broadcast failed, or after a fault the faulty ones, so that others find the
    /// fault, with the latest cosigns accepted under the session which faulted.
    pub fn cosigns_to_rebroadcast(&self) -> (cosigns: Vec<SignedCosign>)
        requires
            self.wf(),
        ensures
            cosigns@ == self@.cosigns_to_rebroadcast(),
    {
        if let Some(faulted) = self.faulted_session {
            let mut cosigns: Vec<SignedCosign> = match self.faults.get(&faulted) {
                Some(faults) => faults.clone(),
                None => Vec::new(),
            };
            assert(cosigns@ =~= self@.faults[faulted]);
            self.push_latest_cosigns(&faulted, &mut cosigns);
            cosigns
        } else {
            let mut cosigns: Vec<SignedCosign> = Vec::new();
            if let Some((id, _)) = &self.latest_global_session_intended {
                self.push_latest_cosigns(id, &mut cosigns);
            }
            cosigns
        }
    }
}

} // verus!
