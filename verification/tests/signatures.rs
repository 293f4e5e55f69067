use serai_cosign::{Cosign, ExternalNetworkId, NetworkId, SignedCosign, COSIGN_CONTEXT};

fn keypair(seed: u8) -> schnorrkel::Keypair {
    schnorrkel::MiniSecretKey::from_bytes(&[seed; 32])
        .unwrap()
        .expand_to_keypair(schnorrkel::ExpansionMode::Ed25519)
}

fn cosign() -> Cosign {
    Cosign {
        global_session: [3; 32],
        block_number: 42,
        block_hash: [4; 32],
        cosigner: NetworkId::External(ExternalNetworkId::Monero),
    }
}

fn sign(keypair: &schnorrkel::Keypair, cosign: Cosign) -> SignedCosign {
    let signature = keypair.sign_simple(&COSIGN_CONTEXT, &cosign.serialize()).to_bytes();
    SignedCosign { cosign, signature }
}

#[test]
fn a_signature_by_the_signer_verifies() {
    let keypair = keypair(1);
    let signed = sign(&keypair, cosign());
    assert!(signed.verify_signature(keypair.public.to_bytes()));
}

#[test]
fn verification_gives_the_same_answer_each_time() {
    let keypair = keypair(1);
    let signed = sign(&keypair, cosign());
    let again = SignedCosign::deserialize(&signed.serialize()).unwrap();
    for _ in 0..3 {
        assert!(signed.verify_signature(keypair.public.to_bytes()));
        assert!(again.verify_signature(keypair.public.to_bytes()));
    }
    let mut forged = signed;
    forged.signature[0] ^= 1;
    for _ in 0..3 {
        assert!(!forged.verify_signature(keypair.public.to_bytes()));
    }
}

#[test]
fn a_signature_by_another_key_does_not_verify() {
    let signed = sign(&keypair(1), cosign());
    assert!(!signed.verify_signature(keypair(2).public.to_bytes()));
}

#[test]
fn a_signature_over_another_cosign_does_not_verify() {
    let keypair = keypair(1);
    let signed = sign(&keypair, cosign());
    let key = keypair.public.to_bytes();

    let mut other = signed;
    other.cosign.block_number = 43;
    assert!(!other.verify_signature(key));
    let mut other = signed;
    other.cosign.block_hash[0] = 5;
    assert!(!other.verify_signature(key));
    let mut other = signed;
    other.cosign.global_session[31] = 0;
    assert!(!other.verify_signature(key));
    let mut other = signed;
    other.cosign.cosigner = NetworkId::External(ExternalNetworkId::Bitcoin);
    assert!(!other.verify_signature(key));
}

#[test]
fn a_signature_under_another_context_does_not_verify() {
    let keypair = keypair(1);
    let cosign = cosign();
    let signature = keypair.sign_simple(b"another-context", &cosign.serialize()).to_bytes();
    let signed = SignedCosign { cosign, signature };
    assert!(!signed.verify_signature(keypair.public.to_bytes()));
}

#[test]
fn bytes_which_are_no_signature_do_not_verify() {
    let keypair = keypair(1);
    let key = keypair.public.to_bytes();
    let signed = sign(&keypair, cosign());

    // Without the bit which marks a signature of this scheme.
    let mut unmarked = signed;
    unmarked.signature[63] &= 127;
    assert!(!unmarked.verify_signature(key));
    assert!(!SignedCosign { cosign: cosign(), signature: [0; 64] }.verify_signature(key));
    assert!(!SignedCosign { cosign: cosign(), signature: [255; 64] }.verify_signature(key));
}

#[test]
fn bytes_which_are_no_key_do_not_verify() {
    let signed = sign(&keypair(1), cosign());
    assert!(schnorrkel::PublicKey::from_bytes(&[255; 32]).is_err());
    assert!(!signed.verify_signature([255; 32]));
}
