//! Global sessions: the validator sets which cosign at a given moment.

use crate::bytes::{le_bytes, push_u32_le};
use crate::crypto::{blake2s256, blake2s256_digest};
use crate::primitives::{
    canonical_order, lemma_canonical_order_total, networks, sort_canonically, spec_networks,
    ExternalNetworkId, NetworkId, Session, ValidatorSet,
};
use vstd::prelude::*;
use vstd::seq_lib::lemma_sorted_unique;

verus! {

/// A value for some of the networks.
#[derive(Clone, Copy, Debug)]
pub struct NetworkMap<V> {
    pub serai: Option<V>,
    pub bitcoin: Option<V>,
    pub ethereum: Option<V>,
    pub monero: Option<V>,
}

impl<V> NetworkMap<V> {
    /// The value held for `network`, if one is.
    pub open spec fn slot(self, network: NetworkId) -> Option<V> {
        match network {
            NetworkId::Serai => self.serai,
            NetworkId::External(ExternalNetworkId::Bitcoin) => self.bitcoin,
            NetworkId::External(ExternalNetworkId::Ethereum) => self.ethereum,
            NetworkId::External(ExternalNetworkId::Monero) => self.monero,
        }
    }

    /// A map which holds no value.
    pub fn new() -> (map: Self)
        ensures
            map@ == Map::<NetworkId, V>::empty(),
    {
        let map = NetworkMap { serai: None, bitcoin: None, ethereum: None, monero: None };
        assert(map@ =~= Map::<NetworkId, V>::empty());
        map
    }

    /// The value held for `network`, if one is.
    pub fn get(&self, network: NetworkId) -> (value: Option<&V>)
        ensures
            match value {
                Some(value) => self@.contains_key(network) && self@[network] == *value,
                None => !self@.contains_key(network),
            },
    {
        match network {
            NetworkId::Serai => self.serai.as_ref(),
            NetworkId::External(ExternalNetworkId::Bitcoin) => self.bitcoin.as_ref(),
            NetworkId::External(ExternalNetworkId::Ethereum) => self.ethereum.as_ref(),
            NetworkId::External(ExternalNetworkId::Monero) => self.monero.as_ref(),
        }
    }

    /// Holds `value` for `network` from now on, in place of any value held for it before.
    pub fn insert(&mut self, network: NetworkId, value: V)
        ensures
            final(self)@ == old(self)@.insert(network, value),
    {
        match network {
            NetworkId::Serai => {
                self.serai = Some(value);
            },
            NetworkId::External(ExternalNetworkId::Bitcoin) => {
                self.bitcoin = Some(value);
            },
            NetworkId::External(ExternalNetworkId::Ethereum) => {
                self.ethereum = Some(value);
            },
            NetworkId::External(ExternalNetworkId::Monero) => {
                self.monero = Some(value);
            },
        }
        assert forall|other: NetworkId| self.slot(other) == (if other == network {
            Some(value)
        } else {
            old(self).slot(other)
        }) by {}
        assert(self@ =~= old(self)@.insert(network, value));
    }
}

impl<V> View for NetworkMap<V> {
    type V = Map<NetworkId, V>;

    open spec fn view(&self) -> Map<NetworkId, V> {
        Map::new(|network: NetworkId| self.slot(network) is Some, |network: NetworkId| self.slot(network)->0)
    }
}

/// What a global session is, as plain values.
#[verifier::ext_equal]
pub struct SessionInfo {
    /// The number of the block which declared the session.
    pub start_block_number: u64,
    /// The validator sets which cosign during the session.
    pub sets: Seq<ValidatorSet>,
    /// The key by which each network's cosigns are verified.
    pub keys: Map<NetworkId, [u8; 32]>,
    /// The stake allocated to each network when the session started.
    pub stakes: Map<NetworkId, u64>,
    /// The stake allocated to all of the session's networks together.
    pub total_stake: u64,
}

/// A global session: all validator sets which cosign at a given moment.
///
/// Cosigns are bound to a global session, whose keys and stakes are read as of the block
/// which declared it. So long as the validator sets agree on where a global session
/// starts, they can verify every cosign made under it, however the chain goes on.
#[derive(Debug)]
pub struct GlobalSession {
    /// The number of the block which declared the session.
    pub start_block_number: u64,
    /// The validator sets which cosign during the session.
    pub sets: Vec<ValidatorSet>,
    /// The key by which each network's cosigns are verified.
    pub keys: NetworkMap<[u8; 32]>,
    /// The stake allocated to each network when the session started.
    pub stakes: NetworkMap<u64>,
    /// The stake allocated to all of the session's networks together.
    pub total_stake: u64,
}

impl View for GlobalSession {
    type V = SessionInfo;

    open spec fn view(&self) -> SessionInfo {
        SessionInfo {
            start_block_number: self.start_block_number,
            sets: self.sets@,
            keys: self.keys@,
            stakes: self.stakes@,
            total_stake: self.total_stake,
        }
    }
}

impl Clone for GlobalSession {
    fn clone(&self) -> (copy: Self)
        ensures
            copy@ == self@,
    {
        let sets = self.sets.clone();
        assert(sets@ =~= self.sets@);
        GlobalSession {
            start_block_number: self.start_block_number,
            sets,
            keys: self.keys,
            stakes: self.stakes,
            total_stake: self.total_stake,
        }
    }
}

/// A validator set which cosigns, with the key its cosigns are verified by and the stake
/// allocated to its network.
#[derive(Clone, Copy, Debug)]
pub struct CosigningSet {
    pub set: ValidatorSet,
    pub key: [u8; 32],
    pub stake: u64,
}

/// The validator sets of `sets`, in their order.
pub open spec fn sets_of(sets: Seq<CosigningSet>) -> Seq<ValidatorSet> {
    Seq::new(sets.len(), |i: int| sets[i].set)
}

/// The key of each network of `sets`. Where a network occurs twice, the later key stands.
pub open spec fn keys_of(sets: Seq<CosigningSet>) -> Map<NetworkId, [u8; 32]>
    decreases sets.len(),
{
    if sets.len() == 0 {
        Map::empty()
    } else {
        keys_of(sets.drop_last()).insert(sets.last().set.network, sets.last().key)
    }
}

/// The stake of each network of `sets`. Where a network occurs twice, the later stake
/// stands.
pub open spec fn stakes_of(sets: Seq<CosigningSet>) -> Map<NetworkId, u64>
    decreases sets.len(),
{
    if sets.len() == 0 {
        Map::empty()
    } else {
        stakes_of(sets.drop_last()).insert(sets.last().set.network, sets.last().stake)
    }
}

/// The sum of the stakes of `sets`.
pub open spec fn total_stake_of(sets: Seq<CosigningSet>) -> nat
    decreases sets.len(),
{
    if sets.len() == 0 {
        0
    } else {
        total_stake_of(sets.drop_last()) + sets.last().stake as nat
    }
}

/// The stakes of the first sets sum to no more than those of all.
pub proof fn lemma_total_stake_of_prefix(sets: Seq<CosigningSet>, n: int)
    requires
        0 <= n <= sets.len(),
    ensures
        total_stake_of(sets.take(n)) <= total_stake_of(sets),
    decreases sets.len(),
{
    if n == sets.len() {
        assert(sets.take(n) =~= sets);
    } else {
        assert(sets.drop_last().take(n) =~= sets.take(n));
        lemma_total_stake_of_prefix(sets.drop_last(), n);
    }
}

/// The encodings of `sets` one after the other.
pub open spec fn spec_concat_sets(sets: Seq<ValidatorSet>) -> Seq<u8>
    decreases sets.len(),
{
    if sets.len() == 0 {
        Seq::empty()
    } else {
        spec_concat_sets(sets.drop_last()) + sets.last().spec_serialize()
    }
}

/// The canonical encoding of a list of validator sets: how many there are, in four bytes
/// with the least significant first, then the encoding of each.
pub open spec fn spec_serialize_sets(sets: Seq<ValidatorSet>) -> Seq<u8> {
    le_bytes(sets.len(), 4) + spec_concat_sets(sets)
}

/// The canonical encoding of a list of validator sets.
pub fn serialize_sets(sets: &Vec<ValidatorSet>) -> (bytes: Vec<u8>)
    requires
        sets@.len() <= u32::MAX,
    ensures
        bytes@ == spec_serialize_sets(sets@),
{
    let mut bytes: Vec<u8> = Vec::new();
    push_u32_le(&mut bytes, sets.len() as u32);
    let mut i: usize = 0;
    assert(sets@.take(0) =~= Seq::<ValidatorSet>::empty());
    while i < sets.len()
        invariant
            i <= sets@.len(),
            bytes@ == le_bytes(sets@.len(), 4) + spec_concat_sets(sets@.take(i as int)),
        decreases sets@.len() - i,
    {
        sets[i].serialize(&mut bytes);
        proof {
            assert(sets@.take(i + 1).drop_last() =~= sets@.take(i as int));
            assert(bytes@ =~= le_bytes(sets@.len(), 4) + spec_concat_sets(sets@.take(i + 1)));
        }
        i += 1;
    }
    assert(sets@.take(sets@.len() as int) =~= sets@);
    bytes
}

impl GlobalSession {
    /// The identity of the global session of `cosigners`: the BLAKE2s-256 digest of the
    /// canonical encoding of the validator sets in their canonical order.
    pub open spec fn spec_id(cosigners: Seq<ValidatorSet>) -> [u8; 32] {
        blake2s256(spec_serialize_sets(cosigners.sort_by(canonical_order())))
    }

    /// The identity of the global session of `cosigners`.
    ///
    /// There must be fewer than 2^32 validator sets, as their number is encoded in four
    /// bytes.
    pub fn id(cosigners: Vec<ValidatorSet>) -> (id: [u8; 32])
        requires
            cosigners@.len() <= u32::MAX,
        ensures
            id == GlobalSession::spec_id(cosigners@),
    {
        let sorted = sort_canonically(&cosigners);
        proof {
            lemma_canonical_order_total();
            cosigners@.lemma_sort_by_ensures(canonical_order());
            cosigners@.to_multiset_ensures();
            sorted@.to_multiset_ensures();
        }
        let bytes = serialize_sets(&sorted);
        blake2s256_digest(bytes.as_slice())
    }

    /// The identity of a global session does not depend on the order in which its
    /// validator sets are listed.
    pub proof fn lemma_id_of_permutation(a: Seq<ValidatorSet>, b: Seq<ValidatorSet>)
        requires
            a.to_multiset() == b.to_multiset(),
        ensures
            GlobalSession::spec_id(a) == GlobalSession::spec_id(b),
    {
        let leq = canonical_order();
        lemma_canonical_order_total();
        a.lemma_sort_by_ensures(leq);
        b.lemma_sort_by_ensures(leq);
        lemma_sorted_unique(a.sort_by(leq), b.sort_by(leq), leq);
    }

    /// The global session which `sets` declare at block `start_block_number`, unless their
    /// stakes sum to more than a `u64` holds.
    pub open spec fn spec_new(start_block_number: u64, sets: Seq<CosigningSet>) -> Option<SessionInfo> {
        if total_stake_of(sets) > u64::MAX {
            None
        } else {
            Some(
                SessionInfo {
                    start_block_number,
                    sets: sets_of(sets),
                    keys: keys_of(sets),
                    stakes: stakes_of(sets),
                    total_stake: total_stake_of(sets) as u64,
                },
            )
        }
    }

    /// The global session which `sets` declare at block `start_block_number`, unless their
    /// stakes sum to more than a `u64` holds.
    pub fn new(start_block_number: u64, sets: &Vec<CosigningSet>) -> (session: Option<GlobalSession>)
        ensures
            match session {
                Some(session) => Some(session@) == GlobalSession::spec_new(start_block_number, sets@),
                None => GlobalSession::spec_new(start_block_number, sets@) is None,
            },
    {
        let mut list: Vec<ValidatorSet> = Vec::new();
        let mut keys: NetworkMap<[u8; 32]> = NetworkMap::new();
        let mut stakes: NetworkMap<u64> = NetworkMap::new();
        let mut total_stake: u64 = 0;
        let mut i: usize = 0;
        assert(sets@.take(0) =~= Seq::<CosigningSet>::empty());
        while i < sets.len()
            invariant
                i <= sets@.len(),
                list@ == sets_of(sets@.take(i as int)),
                keys@ == keys_of(sets@.take(i as int)),
                stakes@ == stakes_of(sets@.take(i as int)),
                total_stake == total_stake_of(sets@.take(i as int)),
            decreases sets@.len() - i,
        {
            let entry = sets[i];
            proof {
                assert(sets@.take(i + 1).drop_last() =~= sets@.take(i as int));
                assert(sets@.take(i + 1).last() == entry);
                lemma_total_stake_of_prefix(sets@, i + 1);
            }
            let Some(sum) = total_stake.checked_add(entry.stake) else {
                return None;
            };
            total_stake = sum;
            list.push(entry.set);
            keys.insert(entry.set.network, entry.key);
            stakes.insert(entry.set.network, entry.stake);
            assert(list@ =~= sets_of(sets@.take(i + 1)));
            i += 1;
        }
        assert(sets@.take(sets@.len() as int) =~= sets@);
        Some(GlobalSession { start_block_number, sets: list, keys, stakes, total_stake })
    }
}

/// What the host chain says of the keys of one network as of some block.
#[derive(Clone, Copy, Debug)]
pub struct SessionKeys {
    /// The latest session declared for the network, if any was.
    pub latest_session: Option<Session>,
    /// The key of the latest session, if it has set one.
    pub latest_key: Option<[u8; 32]>,
    /// The key of the session before the latest, if there is such a session and it set one.
    pub prior_key: Option<[u8; 32]>,
}

impl SessionKeys {
    /// The session which cosigns for the network, with its key: the latest session if it
    /// has set its key, else the session before it if that one has.
    pub open spec fn spec_keys_for_network(self) -> Option<(Session, [u8; 32])> {
        match self.latest_session {
            None => None,
            Some(latest) => match self.latest_key {
                Some(key) => Some((latest, key)),
                None => if latest.0 >= 1 && self.prior_key is Some {
                    Some((Session((latest.0 - 1) as u32), self.prior_key->0))
                } else {
                    None
                },
            },
        }
    }

    /// The session which cosigns for the network, with its key.
    pub fn keys_for_network(&self) -> (keys: Option<(Session, [u8; 32])>)
        ensures
            keys == self.spec_keys_for_network(),
    {
        let Some(latest) = self.latest_session else {
            return None;
        };
        if let Some(key) = self.latest_key {
            return Some((latest, key));
        }
        if let Some(prior) = latest.0.checked_sub(1) {
            if let Some(key) = self.prior_key {
                return Some((Session(prior), key));
            }
        }
        None
    }
}

/// The validator sets which cosign among the first `n` networks, with their keys, given
/// what the host chain says of each network.
pub open spec fn spec_cosigning_sets(observed: Map<NetworkId, SessionKeys>, n: int) -> Seq<
    (ValidatorSet, [u8; 32]),
>
    decreases n,
{
    if n <= 0 {
        Seq::empty()
    } else {
        let network = spec_networks()[n - 1];
        let before = spec_cosigning_sets(observed, n - 1);
        if observed.contains_key(network) && observed[network].spec_keys_for_network() is Some {
            let keys = observed[network].spec_keys_for_network()->0;
            before.push((ValidatorSet { network, session: keys.0 }, keys.1))
        } else {
            before
        }
    }
}

/// The validator sets which cosign as of some block, with their keys: for each network,
/// in the order of the networks, the session which has usable keys, if one has.
pub fn cosigning_sets(observed: &NetworkMap<SessionKeys>) -> (sets: Vec<(ValidatorSet, [u8; 32])>)
    ensures
        sets@ == spec_cosigning_sets(observed@, 4),
{
    let all = networks();
    let mut sets: Vec<(ValidatorSet, [u8; 32])> = Vec::new();
    let mut i: usize = 0;
    while i < 4
        invariant
            i <= 4,
            all@ == spec_networks(),
            sets@ == spec_cosigning_sets(observed@, i as int),
        decreases 4 - i,
    {
        let network = all[i];
        if let Some(keys) = observed.get(network) {
            if let Some((session, key)) = keys.keys_for_network() {
                sets.push((ValidatorSet { network, session }, key));
            }
        }
        i += 1;
    }
    sets
}

} // verus!
