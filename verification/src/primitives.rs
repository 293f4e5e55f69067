//! Networks, sessions and validator sets.

use crate::bytes::{
    bytes_lex_le, le_bytes, lemma_le_bytes_len, lemma_le_bytes_round_trip, lemma_lex_le_antisymmetric,
    lemma_lex_le_reflexive, lemma_lex_le_total, lemma_lex_le_transitive, lemma_pow256_of_widths,
    lex_le, push_u32_le,
};
use vstd::prelude::*;
use vstd::relations::{sorted_by, total_ordering};
use vstd::seq_lib::lemma_sorted_unique;

verus! {

/// A network external to the host chain.
#[derive(Clone, Copy, PartialEq, Eq, Debug, Hash, Structural)]
pub enum ExternalNetworkId {
    Bitcoin,
    Ethereum,
    Monero,
}

/// A network taking part in the protocol.
#[derive(Clone, Copy, PartialEq, Eq, Debug, Hash, Structural)]
pub enum NetworkId {
    /// The host chain itself.
    Serai,
    /// A network connected to the host chain.
    External(ExternalNetworkId),
}

/// The number of a validator set's session on its network.
#[derive(Clone, Copy, PartialEq, Eq, Debug, Hash, Structural)]
pub struct Session(pub u32);

/// The validators of one network during one session.
#[derive(Clone, Copy, PartialEq, Eq, Debug, Hash, Structural)]
pub struct ValidatorSet {
    pub network: NetworkId,
    pub session: Session,
}

/// Every network, in the order in which they are enumerated.
pub open spec fn spec_networks() -> Seq<NetworkId> {
    seq![
        NetworkId::Serai,
        NetworkId::External(ExternalNetworkId::Bitcoin),
        NetworkId::External(ExternalNetworkId::Ethereum),
        NetworkId::External(ExternalNetworkId::Monero),
    ]
}

/// Every network, in the order in which they are enumerated.
pub fn networks() -> (list: [NetworkId; 4])
    ensures
        list@ == spec_networks(),
{
    let list = [
        NetworkId::Serai,
        NetworkId::External(ExternalNetworkId::Bitcoin),
        NetworkId::External(ExternalNetworkId::Ethereum),
        NetworkId::External(ExternalNetworkId::Monero),
    ];
    assert(list@ =~= spec_networks());
    list
}

/// An identifier for a block, a session or the like.
///
/// Identifiers are of a constant size, and `Default::default()` gives one of that size.
pub trait Id: Send + Sync + Clone + Default + PartialEq + Eq + core::hash::Hash + core::fmt::Debug {
}

impl<I: Send + Sync + Clone + Default + PartialEq + Eq + core::hash::Hash + core::fmt::Debug> Id for I {
}

impl ExternalNetworkId {
    /// The byte which stands for this network.
    pub open spec fn spec_tag(self) -> u8 {
        match self {
            ExternalNetworkId::Bitcoin => 0,
            ExternalNetworkId::Ethereum => 1,
            ExternalNetworkId::Monero => 2,
        }
    }

    /// The byte which stands for this network.
    pub fn tag(&self) -> (tag: u8)
        ensures
            tag == self.spec_tag(),
    {
        match self {
            ExternalNetworkId::Bitcoin => 0,
            ExternalNetworkId::Ethereum => 1,
            ExternalNetworkId::Monero => 2,
        }
    }

    /// The network which `tag` stands for, if it stands for one.
    pub fn from_tag(tag: u8) -> (network: Option<ExternalNetworkId>)
        ensures
            match network {
                Some(network) => network.spec_tag() == tag,
                None => forall|other: ExternalNetworkId| other.spec_tag() != tag,
            },
    {
        if tag == 0 {
            Some(ExternalNetworkId::Bitcoin)
        } else if tag == 1 {
            Some(ExternalNetworkId::Ethereum)
        } else if tag == 2 {
            Some(ExternalNetworkId::Monero)
        } else {
            None
        }
    }
}

impl NetworkId {
    /// The canonical encoding: a byte which tells the host chain from an external network,
    /// and for an external network the byte which stands for it.
    pub open spec fn spec_serialize(self) -> Seq<u8> {
        match self {
            NetworkId::Serai => seq![0u8],
            NetworkId::External(network) => seq![1u8, network.spec_tag()],
        }
    }

    /// Appends the canonical encoding to `out`.
    pub fn serialize(&self, out: &mut Vec<u8>)
        ensures
            final(out)@ == old(out)@ + self.spec_serialize(),
    {
        match self {
            NetworkId::Serai => {
                out.push(0);
                assert(out@ =~= old(out)@ + self.spec_serialize());
            },
            NetworkId::External(network) => {
                out.push(1);
                out.push(network.tag());
                assert(out@ =~= old(out)@ + self.spec_serialize());
            },
        }
    }

    /// The network which `bytes` are the canonical encoding of, if they are one.
    pub fn deserialize(bytes: &[u8]) -> (network: Option<NetworkId>)
        ensures
            match network {
                Some(network) => network.spec_serialize() == bytes@,
                None => forall|other: NetworkId| other.spec_serialize() != bytes@,
            },
    {
        if bytes.len() == 1 && bytes[0] == 0 {
            assert(bytes@ =~= NetworkId::Serai.spec_serialize());
            Some(NetworkId::Serai)
        } else if bytes.len() == 2 && bytes[0] == 1 {
            match ExternalNetworkId::from_tag(bytes[1]) {
                Some(network) => {
                    assert(bytes@ =~= NetworkId::External(network).spec_serialize());
                    Some(NetworkId::External(network))
                },
                None => {
                    assert forall|other: NetworkId| other.spec_serialize() != bytes@ by {
                        if let NetworkId::External(network) = other {
                            assert(other.spec_serialize()[1] == network.spec_tag());
                        }
                    }
                    None
                },
            }
        } else {
            assert forall|other: NetworkId| other.spec_serialize() != bytes@ by {
                match other {
                    NetworkId::Serai => {
                        assert(other.spec_serialize().len() == 1);
                        assert(other.spec_serialize()[0] == 0);
                    },
                    NetworkId::External(_) => {
                        assert(other.spec_serialize().len() == 2);
                        assert(other.spec_serialize()[0] == 1);
                    },
                }
            }
            None
        }
    }

    /// Two networks with the same canonical encoding are the same network.
    pub proof fn lemma_serialize_injective(self, other: NetworkId)
        requires
            self.spec_serialize() == other.spec_serialize(),
        ensures
            self == other,
    {
        let a = self.spec_serialize();
        let b = other.spec_serialize();
        assert(a.len() == b.len());
        assert(a[0] == b[0]);
        if let NetworkId::External(x) = self {
            if let NetworkId::External(y) = other {
                assert(a[1] == b[1]);
            }
        }
    }
}

impl ValidatorSet {
    /// The canonical encoding: the network's, then the session in four bytes, the least
    /// significant first.
    pub open spec fn spec_serialize(self) -> Seq<u8> {
        self.network.spec_serialize() + le_bytes(self.session.0 as nat, 4)
    }

    /// Appends the canonical encoding to `out`.
    pub fn serialize(&self, out: &mut Vec<u8>)
        ensures
            final(out)@ == old(out)@ + self.spec_serialize(),
    {
        self.network.serialize(out);
        push_u32_le(out, self.session.0);
        assert(out@ =~= old(out)@ + self.spec_serialize());
    }

    /// Two validator sets with the same canonical encoding are the same set.
    pub proof fn lemma_serialize_injective(self, other: ValidatorSet)
        requires
            self.spec_serialize() == other.spec_serialize(),
        ensures
            self == other,
    {
        let a = self.spec_serialize();
        let b = other.spec_serialize();
        let na = self.network.spec_serialize();
        let nb = other.network.spec_serialize();
        let sa = le_bytes(self.session.0 as nat, 4);
        let sb = le_bytes(other.session.0 as nat, 4);
        lemma_le_bytes_len(self.session.0 as nat, 4);
        lemma_le_bytes_len(other.session.0 as nat, 4);
        assert(sa.len() == 4 && sb.len() == 4);
        assert(a.len() == na.len() + sa.len());
        assert(b.len() == nb.len() + sb.len());
        assert(na.len() == nb.len());
        assert(na =~= a.subrange(0, na.len() as int));
        assert(nb =~= b.subrange(0, nb.len() as int));
        self.network.lemma_serialize_injective(other.network);
        assert(sa =~= a.subrange(na.len() as int, a.len() as int));
        assert(sb =~= b.subrange(nb.len() as int, b.len() as int));
        lemma_pow256_of_widths();
        lemma_le_bytes_round_trip(self.session.0 as nat, 4);
        lemma_le_bytes_round_trip(other.session.0 as nat, 4);
    }
}

/// Whether `a` stands no later than `b` in the canonical order of validator sets: the order
/// of their canonical encodings as byte strings.
pub open spec fn canonical_le(a: ValidatorSet, b: ValidatorSet) -> bool {
    lex_le(a.spec_serialize(), b.spec_serialize())
}

/// The canonical order of validator sets, as a relation.
pub open spec fn canonical_order() -> spec_fn(ValidatorSet, ValidatorSet) -> bool {
    |a: ValidatorSet, b: ValidatorSet| canonical_le(a, b)
}

/// The canonical order is a total order.
pub proof fn lemma_canonical_order_total()
    ensures
        total_ordering(canonical_order()),
{
    let leq = canonical_order();
    assert forall|x: ValidatorSet| #[trigger] leq(x, x) by {
        lemma_lex_le_reflexive(x.spec_serialize());
    }
    assert forall|x: ValidatorSet, y: ValidatorSet| #[trigger] leq(x, y) && #[trigger] leq(y, x)
        implies x == y by {
        lemma_lex_le_antisymmetric(x.spec_serialize(), y.spec_serialize());
        x.lemma_serialize_injective(y);
    }
    assert forall|x: ValidatorSet, y: ValidatorSet, z: ValidatorSet| #[trigger] leq(x, y)
        && #[trigger] leq(y, z) implies leq(x, z) by {
        lemma_lex_le_transitive(x.spec_serialize(), y.spec_serialize(), z.spec_serialize());
    }
    assert forall|x: ValidatorSet, y: ValidatorSet| #[trigger] leq(x, y) || #[trigger] leq(y, x) by {
        lemma_lex_le_total(x.spec_serialize(), y.spec_serialize());
    }
}

/// Whether `a` stands no later than `b` in the canonical order.
pub fn canonically_le(a: &ValidatorSet, b: &ValidatorSet) -> (le: bool)
    ensures
        le == canonical_le(*a, *b),
{
    let mut left: Vec<u8> = Vec::new();
    let mut right: Vec<u8> = Vec::new();
    a.serialize(&mut left);
    b.serialize(&mut right);
    assert(left@ =~= a.spec_serialize());
    assert(right@ =~= b.spec_serialize());
    bytes_lex_le(left.as_slice(), right.as_slice())
}

/// The validator sets of `sets` in the canonical order.
pub fn sort_canonically(sets: &Vec<ValidatorSet>) -> (sorted: Vec<ValidatorSet>)
    ensures
        sorted@ == sets@.sort_by(canonical_order()),
{
    broadcast use vstd::seq_lib::group_to_multiset_ensures;

    let ghost leq = canonical_order();
    proof {
        lemma_canonical_order_total();
    }
    let mut sorted: Vec<ValidatorSet> = Vec::new();
    let mut i: usize = 0;
    assert(sets@.take(0) =~= Seq::<ValidatorSet>::empty());
    while i < sets.len()
        invariant
            i <= sets@.len(),
            leq == canonical_order(),
            total_ordering(leq),
            sorted_by(sorted@, leq),
            sorted@.to_multiset() == sets@.take(i as int).to_multiset(),
        decreases sets@.len() - i,
    {
        let set = sets[i];
        let mut at: usize = 0;
        while at < sorted.len() && canonically_le(&sorted[at], &set)
            invariant
                at <= sorted@.len(),
                leq == canonical_order(),
                forall|j: int| 0 <= j < at ==> leq(#[trigger] sorted@[j], set),
            decreases sorted@.len() - at,
        {
            at += 1;
        }
        let ghost before = sorted@;
        sorted.insert(at, set);
        proof {
            assert(sorted@ == before.insert(at as int, set));
            assert forall|j: int, k: int| 0 <= j < k < sorted@.len() implies #[trigger] leq(
                sorted@[j],
                sorted@[k],
            ) by {
                if k == at {
                    assert(sorted@[j] == before[j]);
                } else if j == at {
                    assert(sorted@[k] == before[k - 1]);
                    assert(leq(set, before[at as int]) || leq(before[at as int], set));
                    if k - 1 > at {
                        assert(leq(before[at as int], before[k - 1]));
                    }
                } else {
                    let j0 = if j < at { j } else { j - 1 };
                    let k0 = if k < at { k } else { k - 1 };
                    assert(sorted@[j] == before[j0] && sorted@[k] == before[k0]);
                    assert(leq(before[j0], before[k0]));
                }
            }
            assert(sets@.take(i + 1) =~= sets@.take(i as int).push(set));
            vstd::seq_lib::to_multiset_insert(before, at as int, set);
            vstd::seq_lib::to_multiset_build(sets@.take(i as int), set);
        }
        i += 1;
    }
    proof {
        assert(sets@.take(sets@.len() as int) =~= sets@);
        sets@.lemma_sort_by_ensures(leq);
        lemma_sorted_unique(sorted@, sets@.sort_by(leq), leq);
    }
    sorted
}

} // verus!
