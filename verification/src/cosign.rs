//! Cosigns, and what is said of a block before anyone cosigned it.

use crate::bytes::{
    le_bytes, lemma_from_le_bytes_round_trip, lemma_le_bytes_len,
    lemma_le_bytes_round_trip, lemma_pow256_of_widths, push_bytes, push_u64_le, read_array,
    read_u64_le,
};
use crate::crypto::{
    is_public_key, is_signature, schnorrkel_public_key, schnorrkel_signature,
    schnorrkel_verify_simple, verify_simple,
};
use crate::primitives::NetworkId;
use vstd::prelude::*;
use vstd::slice::slice_subrange;

verus! {

/// The context which cosigns are signed under: the bytes of `serai-cosign`.
pub const COSIGN_CONTEXT: [u8; 12] = [115, 101, 114, 97, 105, 45, 99, 111, 115, 105, 103, 110];

/// Whether a block has events which call for it to be cosigned.
#[derive(Clone, Copy, PartialEq, Eq, Debug, Structural)]
pub enum HasEvents {
    /// The block generated keys for a validator set. It starts a new global session, and
    /// no later block is considered before this one was cosigned.
    Notable,
    /// The block has an event which calls for a cosign, yet none which changes the keys.
    NonNotable,
    /// The block has no event which calls for a cosign.
    No,
}

impl HasEvents {
    /// The classification of a block, from whether it has an event which generated keys
    /// and whether it has a burn with an instruction.
    pub open spec fn spec_classify(key_gen_events: bool, burn_with_instruction_events: bool) -> HasEvents {
        if key_gen_events {
            HasEvents::Notable
        } else if burn_with_instruction_events {
            HasEvents::NonNotable
        } else {
            HasEvents::No
        }
    }

    /// Classifies a block, from whether it has an event which generated keys and whether
    /// it has a burn with an instruction.
    pub fn classify(key_gen_events: bool, burn_with_instruction_events: bool) -> (has_events: HasEvents)
        ensures
            has_events == HasEvents::spec_classify(key_gen_events, burn_with_instruction_events),
    {
        if key_gen_events {
            HasEvents::Notable
        } else if burn_with_instruction_events {
            HasEvents::NonNotable
        } else {
            HasEvents::No
        }
    }
}

/// A cosign which a validator set is expected to produce.
#[derive(Clone, Copy, PartialEq, Eq, Debug)]
pub struct CosignIntent {
    /// The global session which the cosign is to be made under.
    pub global_session: [u8; 32],
    /// The number of the block to cosign.
    pub block_number: u64,
    /// The hash of the block to cosign.
    pub block_hash: [u8; 32],
    /// Whether this cosign has to be handled before any later one.
    pub notable: bool,
}

/// A cosign: a statement by a network that a block of the host chain is finalized.
#[derive(Clone, Copy, PartialEq, Eq, Debug)]
pub struct Cosign {
    /// The global session which the cosign is made under.
    pub global_session: [u8; 32],
    /// The number of the block cosigned.
    pub block_number: u64,
    /// The hash of the block cosigned.
    pub block_hash: [u8; 32],
    /// The network which cosigns.
    pub cosigner: NetworkId,
}

/// A cosign with its signature.
#[derive(Clone, Copy, PartialEq, Eq, Debug)]
pub struct SignedCosign {
    /// The cosign.
    pub cosign: Cosign,
    /// The signature of the cosigner over the cosign.
    pub signature: [u8; 64],
}

impl Cosign {
    /// The canonical encoding: the global session, the block number in eight bytes with
    /// the least significant first, the block hash, then the cosigner.
    pub open spec fn spec_serialize(self) -> Seq<u8> {
        self.global_session@ + le_bytes(self.block_number as nat, 8) + self.block_hash@
            + self.cosigner.spec_serialize()
    }

    /// Where each field stands in the canonical encoding.
    pub proof fn lemma_serialize_layout(self)
        ensures
            self.spec_serialize().len() == 72 + self.cosigner.spec_serialize().len(),
            self.spec_serialize().subrange(0, 32) == self.global_session@,
            self.spec_serialize().subrange(32, 40) == le_bytes(self.block_number as nat, 8),
            self.spec_serialize().subrange(40, 72) == self.block_hash@,
            self.spec_serialize().subrange(72, self.spec_serialize().len() as int)
                == self.cosigner.spec_serialize(),
            73 <= self.spec_serialize().len() <= 74,
    {
        let bytes = self.spec_serialize();
        lemma_le_bytes_len(self.block_number as nat, 8);
        assert(self.global_session@.len() == 32);
        assert(self.block_hash@.len() == 32);
        assert(bytes.subrange(0, 32) =~= self.global_session@);
        assert(bytes.subrange(32, 40) =~= le_bytes(self.block_number as nat, 8));
        assert(bytes.subrange(40, 72) =~= self.block_hash@);
        assert(bytes.subrange(72, bytes.len() as int) =~= self.cosigner.spec_serialize());
    }

    /// Two cosigns with the same canonical encoding are the same cosign.
    pub proof fn lemma_serialize_injective(self, other: Cosign)
        requires
            self.spec_serialize() == other.spec_serialize(),
        ensures
            self == other,
    {
        self.lemma_serialize_layout();
        other.lemma_serialize_layout();
        self.cosigner.lemma_serialize_injective(other.cosigner);
        lemma_pow256_of_widths();
        lemma_le_bytes_round_trip(self.block_number as nat, 8);
        lemma_le_bytes_round_trip(other.block_number as nat, 8);
        assert(self.global_session =~= other.global_session);
        assert(self.block_hash =~= other.block_hash);
    }

    /// The canonical encoding of this cosign.
    pub fn serialize(&self) -> (bytes: Vec<u8>)
        ensures
            bytes@ == self.spec_serialize(),
    {
        let mut bytes: Vec<u8> = Vec::new();
        push_bytes(&mut bytes, self.global_session.as_slice());
        push_u64_le(&mut bytes, self.block_number);
        push_bytes(&mut bytes, self.block_hash.as_slice());
        self.cosigner.serialize(&mut bytes);
        assert(bytes@ =~= self.spec_serialize());
        bytes
    }

    /// The cosign which `bytes` are the canonical encoding of, if they are one.
    pub fn deserialize(bytes: &[u8]) -> (cosign: Option<Cosign>)
        ensures
            match cosign {
                Some(cosign) => cosign.spec_serialize() == bytes@,
                None => forall|other: Cosign| other.spec_serialize() != bytes@,
            },
    {
        if bytes.len() < 73 {
            assert forall|other: Cosign| other.spec_serialize() != bytes@ by {
                other.lemma_serialize_layout();
            }
            return None;
        }
        let Some(cosigner) = NetworkId::deserialize(slice_subrange(bytes, 72, bytes.len())) else {
            assert forall|other: Cosign| other.spec_serialize() != bytes@ by {
                other.lemma_serialize_layout();
            }
            return None;
        };
        let cosign = Cosign {
            global_session: read_array::<32>(bytes, 0),
            block_number: read_u64_le(bytes, 32),
            block_hash: read_array::<32>(bytes, 40),
            cosigner,
        };
        proof {
            lemma_from_le_bytes_round_trip(bytes@.subrange(32, 40));
            assert(cosign.spec_serialize() =~= bytes@);
        }
        Some(cosign)
    }
}

impl SignedCosign {
    /// The canonical encoding: the cosign, then the signature.
    pub open spec fn spec_serialize(self) -> Seq<u8> {
        self.cosign.spec_serialize() + self.signature@
    }

    /// Two signed cosigns with the same canonical encoding are the same.
    pub proof fn lemma_serialize_injective(self, other: SignedCosign)
        requires
            self.spec_serialize() == other.spec_serialize(),
        ensures
            self == other,
    {
        let a = self.spec_serialize();
        let b = other.spec_serialize();
        assert(self.signature@.len() == 64 && other.signature@.len() == 64);
        assert(self.cosign.spec_serialize() =~= a.subrange(0, a.len() - 64));
        assert(other.cosign.spec_serialize() =~= b.subrange(0, b.len() - 64));
        assert(self.signature@ =~= a.subrange(a.len() - 64, a.len() as int));
        assert(other.signature@ =~= b.subrange(b.len() - 64, b.len() as int));
        self.cosign.lemma_serialize_injective(other.cosign);
        assert(self.signature =~= other.signature);
    }

    /// The canonical encoding of this signed cosign.
    pub fn serialize(&self) -> (bytes: Vec<u8>)
        ensures
            bytes@ == self.spec_serialize(),
    {
        let mut bytes = self.cosign.serialize();
        push_bytes(&mut bytes, self.signature.as_slice());
        bytes
    }

    /// The signed cosign which `bytes` are the canonical encoding of, if they are one.
    pub fn deserialize(bytes: &[u8]) -> (signed: Option<SignedCosign>)
        ensures
            match signed {
                Some(signed) => signed.spec_serialize() == bytes@,
                None => forall|other: SignedCosign| other.spec_serialize() != bytes@,
            },
    {
        if bytes.len() < 64 {
            assert forall|other: SignedCosign| other.spec_serialize() != bytes@ by {
                assert(other.signature@.len() == 64);
            }
            return None;
        }
        let split = bytes.len() - 64;
        let Some(cosign) = Cosign::deserialize(slice_subrange(bytes, 0, split)) else {
            assert forall|other: SignedCosign| other.spec_serialize() != bytes@ by {
                assert(other.signature@.len() == 64);
                if other.spec_serialize() == bytes@ {
                    assert(other.cosign.spec_serialize() =~= bytes@.subrange(0, split as int));
                }
            }
            return None;
        };
        let signed = SignedCosign { cosign, signature: read_array::<64>(bytes, split) };
        assert(signed.spec_serialize() =~= bytes@);
        Some(signed)
    }

    /// Whether the signature is one by `signer` over this cosign: `signer` decodes to a
    /// public key, the signature decodes, and it verifies for the canonical encoding of the
    /// cosign under [`COSIGN_CONTEXT`].
    pub open spec fn spec_verify_signature(self, signer: [u8; 32]) -> bool {
        &&& schnorrkel_public_key(signer@)
        &&& schnorrkel_signature(self.signature@)
        &&& schnorrkel_verify_simple(
            signer@,
            COSIGN_CONTEXT@,
            self.cosign.spec_serialize(),
            self.signature@,
        )
    }

    /// Verification depends on the bytes alone: two signed cosigns with the same canonical
    /// encoding are verified alike by the same key.
    pub proof fn lemma_verification_is_deterministic(
        self,
        other: SignedCosign,
        signer: [u8; 32],
        other_signer: [u8; 32],
    )
        requires
            self.spec_serialize() == other.spec_serialize(),
            signer@ == other_signer@,
        ensures
            self.spec_verify_signature(signer) == other.spec_verify_signature(other_signer),
    {
        self.lemma_serialize_injective(other);
    }

    /// Whether the signature is one by `signer` over this cosign.
    pub fn verify_signature(&self, signer: [u8; 32]) -> (valid: bool)
        ensures
            valid == self.spec_verify_signature(signer),
    {
        if !is_public_key(&signer) {
            return false;
        }
        if !is_signature(&self.signature) {
            return false;
        }
        let message = self.cosign.serialize();
        proof {
            self.cosign.lemma_serialize_layout();
        }
        let context = COSIGN_CONTEXT;
        verify_simple(&signer, context.as_slice(), message.as_slice(), &self.signature)
    }
}

} // verus!
