use serai_cosign::delay::{
    seconds_left, Acknowledgement, ACKNOWLEDGEMENT_DELAY, BROADCAST_FREQUENCY, SYNCHRONY_EXPECTATION,
};
use serai_cosign::evaluator::{supermajority_threshold, Evaluation, Tally};
use serai_cosign::intake::{fault_threshold, fault_weight};
use serai_cosign::intend::IntendError;
use serai_cosign::session::{CosigningSet, GlobalSession, NetworkMap};
use serai_cosign::state::BlockEvent;
use serai_cosign::{
    Cosign, CosignIntent, Cosigning, ExternalNetworkId, Faulted, HasEvents, NetworkId, Session,
    SignedCosign, ValidatorSet, COSIGN_CONTEXT,
};

fn n1() -> NetworkId {
    NetworkId::External(ExternalNetworkId::Bitcoin)
}

fn n2() -> NetworkId {
    NetworkId::External(ExternalNetworkId::Ethereum)
}

fn n3() -> NetworkId {
    NetworkId::External(ExternalNetworkId::Monero)
}

fn keypair(network: NetworkId) -> schnorrkel::Keypair {
    let seed = match network {
        NetworkId::Serai => 1,
        NetworkId::External(ExternalNetworkId::Bitcoin) => 2,
        NetworkId::External(ExternalNetworkId::Ethereum) => 3,
        NetworkId::External(ExternalNetworkId::Monero) => 4,
    };
    schnorrkel::MiniSecretKey::from_bytes(&[seed; 32])
        .unwrap()
        .expand_to_keypair(schnorrkel::ExpansionMode::Ed25519)
}

fn set(network: NetworkId, session: u32) -> ValidatorSet {
    ValidatorSet { network, session: Session(session) }
}

fn cosigning(network: NetworkId, session: u32, stake: u64) -> CosigningSet {
    CosigningSet { set: set(network, session), key: keypair(network).public.to_bytes(), stake }
}

fn hash(block: u8) -> [u8; 32] {
    [block; 32]
}

/// The sets S used throughout: N1 and N2, each in its session 1, with stakes 60 and 40.
fn sets_s() -> Vec<CosigningSet> {
    vec![cosigning(n1(), 1, 60), cosigning(n2(), 1, 40)]
}

fn validator_sets(sets: &[CosigningSet]) -> Vec<ValidatorSet> {
    sets.iter().map(|set| set.set).collect()
}

fn id_of(sets: &[CosigningSet]) -> [u8; 32] {
    GlobalSession::id(validator_sets(sets))
}

fn cosign_as(signer: NetworkId, cosign: Cosign) -> SignedCosign {
    let signature = keypair(signer).sign_simple(&COSIGN_CONTEXT, &cosign.serialize()).to_bytes();
    SignedCosign { cosign, signature }
}

fn cosign_of(network: NetworkId, global_session: [u8; 32], block_number: u64, block_hash: [u8; 32]) -> SignedCosign {
    cosign_as(network, Cosign { global_session, block_number, block_hash, cosigner: network })
}

fn intend_plain(engine: &mut Cosigning, block: u8) {
    assert_eq!(
        engine.intend_block(hash(block), HasEvents::No, &vec![], &vec![]),
        Ok(BlockEvent { block_number: block as u64, has_events: HasEvents::No })
    );
}

/// An engine in which block 1 is notable and declares the global session of S.
fn engine_with_block_1() -> Cosigning {
    let mut engine = Cosigning::new();
    let cosigners = validator_sets(&sets_s());
    assert_eq!(
        engine.intend_block(hash(1), HasEvents::Notable, &cosigners, &sets_s()),
        Ok(BlockEvent { block_number: 1, has_events: HasEvents::Notable })
    );
    engine
}

/// An engine in which block 1 was cosigned in full under the global session of S.
fn engine_with_block_1_cosigned() -> Cosigning {
    let mut engine = engine_with_block_1();
    let id = id_of(&sets_s());
    assert_eq!(engine.intake_cosign(&cosign_of(n1(), id, 1, hash(1))), Ok(true));
    assert_eq!(engine.intake_cosign(&cosign_of(n2(), id, 1, hash(1))), Ok(true));
    assert_eq!(engine.evaluate(0), (true, Evaluation::Idle));
    engine
}

#[test]
fn constants_are_as_documented() {
    assert_eq!(BROADCAST_FREQUENCY, 60);
    assert_eq!(SYNCHRONY_EXPECTATION, 10);
    assert_eq!(ACKNOWLEDGEMENT_DELAY, 70);
    assert_eq!(serai_cosign::BROADCAST_FREQUENCY, 60);
}

#[test]
fn supermajority_is_more_than_83_percent() {
    assert_eq!(supermajority_threshold(100), 84);
    assert_eq!(supermajority_threshold(0), 1);
    assert_eq!(supermajority_threshold(1), 1);
    assert_eq!(supermajority_threshold(2), 2);
    assert_eq!(supermajority_threshold(99), 83);
    assert_eq!(supermajority_threshold(101), 84);
    assert_eq!(supermajority_threshold(1000), 831);
    assert_eq!(supermajority_threshold(u64::MAX), (u64::MAX as u128 * 83) / 100 + 1);
    assert_eq!(supermajority_threshold(u64::MAX), 15310797581178927841);
}

#[test]
fn fault_threshold_is_17_percent() {
    assert_eq!(fault_threshold(100), 17);
    assert_eq!(fault_threshold(0), 0);
    assert_eq!(fault_threshold(5), 0);
    assert_eq!(fault_threshold(6), 1);
    assert_eq!(fault_threshold(99), 16);
    assert_eq!(fault_threshold(1000), 170);
    assert_eq!(fault_threshold(u64::MAX), 3135946492530623774);
}

#[test]
fn empty_chain_without_sessions() {
    let mut engine = Cosigning::new();
    assert_eq!(engine.latest_cosigned_block_number(), Ok(0));
    assert_eq!(engine.latest_acknowledged_block_number(), 0);
    assert_eq!(engine.next_block_to_intend(), 1);
    assert_eq!(engine.evaluate(1_000), (false, Evaluation::Idle));
    let mut known_cosign = None;
    assert_eq!(engine.evaluate_block(&mut known_cosign, 1_000), Evaluation::Idle);
    assert_eq!(known_cosign, None);
    assert_eq!(engine.acknowledge(1_000), Acknowledgement::Idle);
    assert_eq!(engine.latest_cosigned_block_number(), Ok(0));
    assert_eq!(engine.cosigns_to_rebroadcast(), vec![]);
    assert_eq!(engine.notable_cosigns([0; 32]), vec![]);
    assert!(engine.currently_evaluated_global_session().is_none());
    assert_eq!(engine.substrate_block(0), None);
    assert_eq!(engine.substrate_block(1), None);
    assert_eq!(engine.take_intended_cosign(set(n1(), 1)), None);
    assert!(engine.latest_global_session_intended().is_none());
    assert!(engine.global_session(&[0; 32]).is_none());
    assert_eq!(engine.global_session_last_block(&[0; 32]), None);
    assert_eq!(engine.latest_cosign(&[0; 32], n1()), None);
}

#[test]
fn single_notable_block_cosigned_in_full() {
    let mut engine = engine_with_block_1();
    let id = id_of(&sets_s());
    assert_eq!(supermajority_threshold(100), 84);
    assert_eq!(engine.next_block_to_intend(), 2);
    assert_eq!(engine.substrate_block(1), Some(hash(1)));
    assert_eq!(engine.substrate_block(2), None);

    // Each set was told to cosign the block.
    let intent =
        CosignIntent { global_session: id, block_number: 1, block_hash: hash(1), notable: true };
    assert_eq!(engine.take_intended_cosign(set(n2(), 1)), Some(intent));
    assert_eq!(engine.take_intended_cosign(set(n2(), 1)), None);
    assert_eq!(engine.take_intended_cosign(set(n1(), 2)), None);
    assert_eq!(engine.take_intended_cosign(set(n1(), 1)), Some(intent));

    // The session which block 1 declares is the one which cosigns are taken in under.
    let (current, session) = engine.currently_evaluated_global_session().unwrap();
    assert_eq!(current, id);
    assert_eq!(session.start_block_number, 1);
    assert_eq!(session.total_stake, 100);

    // Nobody has cosigned yet.
    assert_eq!(
        engine.evaluate(10),
        (false, Evaluation::NotCosigned { block_number: 1, global_session: id, notable: true })
    );
    assert_eq!(engine.latest_cosigned_block_number(), Ok(0));

    // 60 of 100 is no supermajority.
    let first = cosign_of(n1(), id, 1, hash(1));
    assert_eq!(engine.intake_cosign(&first), Ok(true));
    assert_eq!(engine.notable_cosigns(id), vec![first]);
    assert_eq!(
        engine.evaluate(10),
        (false, Evaluation::NotCosigned { block_number: 1, global_session: id, notable: true })
    );
    assert_eq!(engine.latest_cosigned_block_number(), Ok(0));

    let second = cosign_of(n2(), id, 1, hash(1));
    assert_eq!(engine.intake_cosign(&second), Ok(true));
    assert_eq!(engine.notable_cosigns(id), vec![first, second]);
    assert_eq!(engine.cosigns_to_rebroadcast(), vec![first, second]);

    let mut known_cosign = None;
    assert_eq!(engine.evaluate_block(&mut known_cosign, 10), Evaluation::Cosigned { block_number: 1 });
    assert_eq!(known_cosign, None);
    assert_eq!(engine.latest_cosigned_block_number(), Ok(1));
    assert_eq!(engine.evaluate(11), (false, Evaluation::Idle));
    assert_eq!(engine.latest_cosigned_block_number(), Ok(1));
}

#[test]
fn notable_block_needs_cosigns_of_that_very_block() {
    let mut engine = engine_with_block_1();
    let id = id_of(&sets_s());
    intend_plain(&mut engine, 2);
    // Both sets cosign block 2, and none block 1.
    assert_eq!(engine.intake_cosign(&cosign_of(n1(), id, 2, hash(2))), Ok(true));
    assert_eq!(engine.intake_cosign(&cosign_of(n2(), id, 2, hash(2))), Ok(true));
    assert_eq!(
        engine.evaluate(0),
        (false, Evaluation::NotCosigned { block_number: 1, global_session: id, notable: true })
    );
    assert_eq!(engine.latest_cosigned_block_number(), Ok(0));
}

#[test]
fn non_notable_block_satisfied_by_stored_advance() {
    let mut engine = engine_with_block_1_cosigned();
    let id = id_of(&sets_s());
    let cosigners = validator_sets(&sets_s());
    for block in [2u8, 3] {
        assert_eq!(
            engine.intend_block(hash(block), HasEvents::NonNotable, &cosigners, &vec![]),
            Ok(BlockEvent { block_number: block as u64, has_events: HasEvents::NonNotable })
        );
    }
    let intent =
        CosignIntent { global_session: id, block_number: 2, block_hash: hash(2), notable: false };
    // The intents of block 1 come first.
    assert_eq!(engine.take_intended_cosign(set(n1(), 1)).unwrap().block_number, 1);
    assert_eq!(engine.take_intended_cosign(set(n1(), 1)), Some(intent));

    // N1 has cosigned block 3 already: 60 of 100.
    assert_eq!(engine.intake_cosign(&cosign_of(n1(), id, 3, hash(3))), Ok(true));
    let mut known_cosign = None;
    assert_eq!(
        engine.evaluate_block(&mut known_cosign, 20),
        Evaluation::NotCosigned { block_number: 2, global_session: id, notable: false }
    );
    assert_eq!(known_cosign, None);
    assert_eq!(engine.latest_cosigned_block_number(), Ok(1));

    // Once N2 has cosigned block 3 as well, block 2 is cosigned, and block 3 is known to be.
    assert_eq!(engine.intake_cosign(&cosign_of(n2(), id, 3, hash(3))), Ok(true));
    assert_eq!(engine.evaluate_block(&mut known_cosign, 20), Evaluation::Cosigned { block_number: 2 });
    assert_eq!(known_cosign, Some(3));
    assert_eq!(engine.latest_cosigned_block_number(), Ok(2));
    assert_eq!(engine.evaluate_block(&mut known_cosign, 21), Evaluation::Cosigned { block_number: 3 });
    assert_eq!(known_cosign, Some(3));
    assert_eq!(engine.latest_cosigned_block_number(), Ok(3));
    assert_eq!(engine.evaluate_block(&mut known_cosign, 22), Evaluation::Idle);
}

#[test]
fn known_cosign_spares_the_look_at_the_cosigns() {
    let mut engine = engine_with_block_1_cosigned();
    let cosigners = validator_sets(&sets_s());
    for block in [2u8, 3] {
        engine.intend_block(hash(block), HasEvents::NonNotable, &cosigners, &vec![]).unwrap();
    }
    // Nobody has cosigned block 2 or 3, yet block 2 is known to be cosigned.
    let mut known_cosign = Some(2);
    assert_eq!(engine.evaluate_block(&mut known_cosign, 5), Evaluation::Cosigned { block_number: 2 });
    assert_eq!(known_cosign, Some(2));
    // Block 3 is not: what was known is exhausted and forgotten.
    assert_eq!(
        engine.evaluate_block(&mut known_cosign, 5),
        Evaluation::NotCosigned { block_number: 3, global_session: id_of(&sets_s()), notable: false }
    );
    assert_eq!(known_cosign, None);
    assert_eq!(engine.latest_cosigned_block_number(), Ok(2));
}

#[test]
fn lowest_common_block_is_the_lowest_of_the_latest_cosigns() {
    let mut engine = engine_with_block_1_cosigned();
    let id = id_of(&sets_s());
    let cosigners = validator_sets(&sets_s());
    for block in 2u8..=6 {
        engine.intend_block(hash(block), HasEvents::NonNotable, &cosigners, &vec![]).unwrap();
    }
    assert_eq!(engine.intake_cosign(&cosign_of(n1(), id, 6, hash(6))), Ok(true));
    assert_eq!(engine.intake_cosign(&cosign_of(n2(), id, 4, hash(4))), Ok(true));
    let session = engine.currently_evaluated_global_session().unwrap().1;
    assert_eq!(
        engine.tally(&id, &session, 2, false),
        Some(Tally { weight_cosigned: 100, lowest_common_block: Some(4) })
    );
    assert_eq!(
        engine.tally(&id, &session, 5, false),
        Some(Tally { weight_cosigned: 60, lowest_common_block: Some(4) })
    );
    assert_eq!(
        engine.tally(&id, &session, 6, true),
        Some(Tally { weight_cosigned: 60, lowest_common_block: Some(4) })
    );
    assert_eq!(
        engine.tally(&id, &session, 4, true),
        Some(Tally { weight_cosigned: 40, lowest_common_block: Some(4) })
    );
    assert_eq!(
        engine.tally(&[0; 32], &session, 2, false),
        Some(Tally { weight_cosigned: 0, lowest_common_block: None })
    );

    let mut known_cosign = None;
    assert_eq!(engine.evaluate_block(&mut known_cosign, 0), Evaluation::Cosigned { block_number: 2 });
    assert_eq!(known_cosign, Some(4));
    assert_eq!(
        engine.evaluate(0),
        (true, Evaluation::NotCosigned { block_number: 5, global_session: id, notable: false })
    );
    assert_eq!(engine.latest_cosigned_block_number(), Ok(4));
}

#[test]
fn a_set_without_stake_cannot_be_tallied() {
    let engine = engine_with_block_1_cosigned();
    let id = id_of(&sets_s());
    let mut session = engine.currently_evaluated_global_session().unwrap().1;
    session.stakes = NetworkMap::new();
    session.stakes.insert(n1(), 60);
    assert_eq!(engine.tally(&id, &session, 1, true), None);
    assert_eq!(engine.tally(&id, &session, 1, false), None);
    // A set which has not cosigned needs no stake.
    assert_eq!(
        engine.tally(&id, &session, 2, true),
        Some(Tally { weight_cosigned: 0, lowest_common_block: Some(1) })
    );
}

#[test]
fn fault_declared() {
    let mut engine = engine_with_block_1();
    let id = id_of(&sets_s());
    assert_eq!(fault_threshold(100), 17);

    let faulty = cosign_of(n1(), id, 1, [0xf1; 32]);
    assert_eq!(engine.intake_cosign(&faulty), Ok(true));
    assert_eq!(engine.latest_cosigned_block_number(), Err(Faulted));
    assert_eq!(engine.cosigns_to_rebroadcast(), vec![faulty]);
    assert_eq!(engine.notable_cosigns(id), vec![]);

    // The fault is terminal, whatever follows.
    let honest = cosign_of(n2(), id, 1, hash(1));
    assert_eq!(engine.intake_cosign(&honest), Ok(true));
    assert_eq!(engine.intake_cosign(&cosign_of(n1(), id, 1, hash(1))), Ok(true));
    intend_plain(&mut engine, 2);
    engine.evaluate(5);
    engine.acknowledge(500);
    assert_eq!(engine.latest_cosigned_block_number(), Err(Faulted));

    // The faulty cosign is broadcast with the honest ones of its session.
    assert_eq!(
        engine.cosigns_to_rebroadcast(),
        vec![faulty, cosign_of_same(&engine, id, n1()), honest]
    );
}

fn cosign_of_same(engine: &Cosigning, id: [u8; 32], network: NetworkId) -> SignedCosign {
    let found: Vec<SignedCosign> = engine
        .notable_cosigns(id)
        .into_iter()
        .filter(|cosign| cosign.cosign.cosigner == network)
        .collect();
    assert_eq!(found.len(), 1);
    found[0]
}

#[test]
fn a_small_fault_does_not_fault_the_session() {
    let mut engine = Cosigning::new();
    let sets = vec![cosigning(n1(), 1, 84), cosigning(n2(), 1, 16)];
    let id = id_of(&sets);
    engine.intend_block(hash(1), HasEvents::Notable, &validator_sets(&sets), &sets).unwrap();
    let faulty = cosign_of(n2(), id, 1, [0xf1; 32]);
    assert_eq!(engine.intake_cosign(&faulty), Ok(true));
    // 16 of 100 is below the threshold of 17.
    assert_eq!(engine.latest_cosigned_block_number(), Ok(0));
    assert_eq!(engine.cosigns_to_rebroadcast(), vec![]);

    // A second fault by the same cosigner is not recorded.
    assert_eq!(engine.intake_cosign(&cosign_of(n2(), id, 1, [0xf2; 32])), Ok(true));
    assert_eq!(engine.latest_cosigned_block_number(), Ok(0));

    // With the other cosigner at fault the weight is 100.
    let other = cosign_of(n1(), id, 1, [0xf3; 32]);
    assert_eq!(engine.intake_cosign(&other), Ok(true));
    assert_eq!(engine.latest_cosigned_block_number(), Err(Faulted));
    assert_eq!(engine.cosigns_to_rebroadcast(), vec![faulty, other]);
}

#[test]
fn fault_at_exactly_17_percent() {
    let mut engine = Cosigning::new();
    let sets = vec![cosigning(n1(), 1, 83), cosigning(n2(), 1, 17)];
    let id = id_of(&sets);
    engine.intend_block(hash(1), HasEvents::Notable, &validator_sets(&sets), &sets).unwrap();
    assert_eq!(engine.intake_cosign(&cosign_of(n2(), id, 1, [0xf1; 32])), Ok(true));
    assert_eq!(engine.latest_cosigned_block_number(), Err(Faulted));
}

#[test]
fn fault_weight_is_the_stake_of_the_cosigners() {
    let id = [9; 32];
    let faults = vec![cosign_of(n1(), id, 1, hash(1)), cosign_of(n3(), id, 1, hash(1))];
    let mut stakes: NetworkMap<u64> = NetworkMap::new();
    assert_eq!(fault_weight(&vec![], &stakes), Some(0));
    assert_eq!(fault_weight(&faults, &stakes), None);
    stakes.insert(n1(), 60);
    assert_eq!(fault_weight(&faults, &stakes), None);
    stakes.insert(n3(), u64::MAX);
    assert_eq!(fault_weight(&faults, &stakes), Some(60 + u64::MAX as u128));
    stakes.insert(n2(), 5);
    assert_eq!(fault_weight(&faults, &stakes), Some(60 + u64::MAX as u128));
}

#[test]
fn reintake_of_an_accepted_cosign_changes_nothing() {
    let mut engine = engine_with_block_1();
    let id = id_of(&sets_s());
    let cosign = cosign_of(n1(), id, 1, hash(1));
    assert_eq!(engine.intake_cosign(&cosign), Ok(true));
    let before = engine.notable_cosigns(id);
    assert_eq!(engine.intake_cosign(&cosign), Ok(true));
    assert_eq!(engine.notable_cosigns(id), before);
    assert_eq!(engine.cosigns_to_rebroadcast(), before);
    assert_eq!(engine.latest_cosigned_block_number(), Ok(0));

    // Nor does an older cosign replace a later one, whatever it says.
    intend_plain(&mut engine, 2);
    let later = cosign_of(n1(), id, 2, hash(2));
    assert_eq!(engine.intake_cosign(&later), Ok(true));
    assert_eq!(engine.notable_cosigns(id), vec![later]);
    assert_eq!(engine.intake_cosign(&cosign), Ok(true));
    assert_eq!(engine.intake_cosign(&cosign_of(n1(), id, 1, [0xf1; 32])), Ok(true));
    assert_eq!(engine.notable_cosigns(id), vec![later]);
    assert_eq!(engine.latest_cosigned_block_number(), Ok(0));
}

#[test]
fn cosigns_which_cannot_be_handled_yet_are_left_alone() {
    let mut engine = Cosigning::new();
    let id = id_of(&sets_s());
    // No block is known yet, and no session.
    assert_eq!(engine.intake_cosign(&cosign_of(n1(), id, 1, hash(1))), Ok(true));
    intend_plain(&mut engine, 1);
    assert_eq!(engine.intake_cosign(&cosign_of(n1(), id, 1, hash(1))), Ok(true));
    assert_eq!(engine.notable_cosigns(id), vec![]);

    let mut engine = engine_with_block_1();
    // A block which was not observed yet.
    assert_eq!(engine.intake_cosign(&cosign_of(n1(), id, 2, hash(2))), Ok(true));
    // Another global session than the current one, even with a bad signature.
    let mut other = cosign_of(n1(), [7; 32], 1, [0xf1; 32]);
    other.signature = [0; 64];
    assert_eq!(engine.intake_cosign(&other), Ok(true));
    assert_eq!(engine.notable_cosigns(id), vec![]);
    assert_eq!(engine.notable_cosigns([7; 32]), vec![]);
    assert_eq!(engine.latest_cosigned_block_number(), Ok(0));
}

#[test]
fn invalid_cosigns_are_rejected() {
    let mut engine = Cosigning::new();
    intend_plain(&mut engine, 1);
    let sets = sets_s();
    let id = id_of(&sets);
    engine.intend_block(hash(2), HasEvents::Notable, &vec![], &sets).unwrap();
    intend_plain(&mut engine, 3);
    assert_eq!(engine.evaluate(0), (true, Evaluation::Idle));
    assert_eq!(engine.latest_cosigned_block_number(), Ok(3));
    // No one could cosign block 2, so it was passed on as a block without events, and the
    // session which it declared is the next one.
    assert!(engine.currently_evaluated_global_session().is_none());

    let mut engine = Cosigning::new();
    intend_plain(&mut engine, 1);
    engine.intend_block(hash(2), HasEvents::Notable, &vec![], &sets).unwrap();
    intend_plain(&mut engine, 3);
    let mut known_cosign = None;
    assert_eq!(engine.evaluate_block(&mut known_cosign, 0), Evaluation::Cosigned { block_number: 1 });
    assert_eq!(engine.currently_evaluated_global_session().unwrap().0, id);

    // Before the session started.
    assert_eq!(engine.intake_cosign(&cosign_of(n1(), id, 1, hash(1))), Ok(false));
    // By a network without a key in the session.
    assert_eq!(engine.intake_cosign(&cosign_of(n3(), id, 2, hash(2))), Ok(false));
    assert_eq!(engine.intake_cosign(&cosign_of(NetworkId::Serai, id, 2, hash(2))), Ok(false));
    // Signed by another key.
    let forged = cosign_as(
        n2(),
        Cosign { global_session: id, block_number: 2, block_hash: hash(2), cosigner: n1() },
    );
    assert_eq!(engine.intake_cosign(&forged), Ok(false));
    // Signed over another block.
    let mut moved = cosign_of(n1(), id, 2, hash(2));
    moved.cosign.block_number = 3;
    assert_eq!(engine.intake_cosign(&moved), Ok(false));
    // A disagreeing hash with a bad signature is no fault.
    let mut unsigned = cosign_of(n1(), id, 2, [0xf1; 32]);
    unsigned.signature[5] ^= 0x10;
    assert_eq!(engine.intake_cosign(&unsigned), Ok(false));

    assert_eq!(engine.notable_cosigns(id), vec![]);
    assert_eq!(engine.latest_cosigned_block_number(), Ok(1));
    assert_eq!(engine.cosigns_to_rebroadcast(), vec![]);

    let valid = cosign_of(n1(), id, 3, hash(3));
    assert_eq!(engine.intake_cosign(&valid), Ok(true));
    assert_eq!(engine.notable_cosigns(id), vec![valid]);
}

#[test]
fn session_rotation() {
    let mut engine = engine_with_block_1_cosigned();
    let id = id_of(&sets_s());
    for block in 2u8..=4 {
        intend_plain(&mut engine, block);
    }
    let next_sets = vec![cosigning(n1(), 2, 30), cosigning(n2(), 1, 10)];
    let next_id = id_of(&next_sets);
    assert_ne!(id, next_id);
    assert_eq!(
        engine.intend_block(hash(5), HasEvents::Notable, &validator_sets(&sets_s()), &next_sets),
        Ok(BlockEvent { block_number: 5, has_events: HasEvents::Notable })
    );
    intend_plain(&mut engine, 6);

    // The session was recorded with the block which declared it, and ends the one before.
    let declared = engine.global_session(&next_id).unwrap();
    assert_eq!(declared.start_block_number, 5);
    assert_eq!(declared.start_block_hash, hash(5));
    assert_eq!(declared.session.sets, validator_sets(&next_sets));
    assert_eq!(declared.session.stakes.get(n1()), Some(&30));
    assert_eq!(engine.global_session(&id).unwrap().start_block_number, 1);
    assert!(engine.global_session(&[0; 32]).is_none());
    assert_eq!(engine.global_session_last_block(&id), Some(5));
    assert_eq!(engine.global_session_last_block(&next_id), None);
    assert_eq!(engine.latest_global_session_intended().unwrap().0, next_id);
    assert_eq!(engine.latest_cosign(&id, n1()).unwrap().cosign.block_number, 1);
    assert_eq!(engine.latest_cosign(&id, n3()), None);
    assert_eq!(engine.latest_cosign(&next_id, n1()), None);

    // The cosigns for block 5 are expected of the sets which cosign it, under their session.
    assert_eq!(engine.take_intended_cosign(set(n1(), 1)).unwrap().block_number, 1);
    assert_eq!(
        engine.take_intended_cosign(set(n1(), 1)),
        Some(CosignIntent { global_session: id, block_number: 5, block_hash: hash(5), notable: true })
    );
    assert_eq!(engine.take_intended_cosign(set(n1(), 2)), None);
    // The latest session intended is the one to broadcast for.
    assert_eq!(engine.cosigns_to_rebroadcast(), vec![]);
    assert_eq!(engine.notable_cosigns(id).len(), 2);

    // While block 4 is not cosigned, cosigns are taken in under the old session, which
    // ends with block 5.
    assert_eq!(engine.currently_evaluated_global_session().unwrap().0, id);
    assert_eq!(engine.intake_cosign(&cosign_of(n1(), id, 6, hash(6))), Ok(false));
    assert_eq!(engine.intake_cosign(&cosign_of(n1(), next_id, 5, hash(5))), Ok(true));
    assert_eq!(engine.notable_cosigns(next_id), vec![]);
    assert_eq!(engine.intake_cosign(&cosign_of(n1(), id, 5, hash(5))), Ok(true));
    assert_eq!(engine.notable_cosigns(id)[0].cosign.block_number, 5);

    // Blocks 2 to 4 have no events. Block 5 waits for cosigns under the new session.
    assert_eq!(
        engine.evaluate(100),
        (true, Evaluation::NotCosigned { block_number: 5, global_session: next_id, notable: true })
    );
    assert_eq!(engine.latest_cosigned_block_number(), Ok(4));
    let (current, session) = engine.currently_evaluated_global_session().unwrap();
    assert_eq!(current, next_id);
    assert_eq!(session.start_block_number, 5);
    assert_eq!(session.sets, validator_sets(&next_sets));
    assert_eq!(session.total_stake, 40);

    // 30 of 40 is 75%, which is no supermajority. 40 of 40 is one.
    assert_eq!(supermajority_threshold(40), 34);
    let first = cosign_of(n1(), next_id, 5, hash(5));
    assert_eq!(engine.intake_cosign(&first), Ok(true));
    assert_eq!(
        engine.evaluate(100),
        (false, Evaluation::NotCosigned { block_number: 5, global_session: next_id, notable: true })
    );
    let second = cosign_of(n2(), next_id, 5, hash(5));
    assert_eq!(engine.intake_cosign(&second), Ok(true));
    assert_eq!(engine.cosigns_to_rebroadcast(), vec![first, second]);
    assert_eq!(engine.evaluate(100), (true, Evaluation::Idle));
    assert_eq!(engine.latest_cosigned_block_number(), Ok(6));
    assert_eq!(engine.currently_evaluated_global_session().unwrap().0, next_id);

    // The old session is over.
    assert_eq!(engine.intake_cosign(&cosign_of(n2(), id, 5, hash(5))), Ok(true));
    assert_eq!(engine.notable_cosigns(id)[1].cosign.block_number, 1);
}

#[test]
fn strict_lookup_takes_up_the_session_of_the_block() {
    assert!(!Cosigning::new().strict_session_defined(1));
    let mut engine = engine_with_block_1();
    let id = id_of(&sets_s());
    // The session starts with block 1, so block 0 has none.
    assert!(!engine.strict_session_defined(0));
    assert!(engine.strict_session_defined(1));
    assert!(engine.strict_session_defined(7));
    let (current, session) = engine.currently_evaluated_global_session_strict(1);
    assert_eq!(current, id);
    assert_eq!(session.start_block_number, 1);
    assert_eq!(session.sets, validator_sets(&sets_s()));
    let (current, _) = engine.currently_evaluated_global_session_strict(1);
    assert_eq!(current, id);

    intend_plain(&mut engine, 2);
    let next_sets = vec![cosigning(n1(), 2, 30), cosigning(n2(), 1, 10)];
    engine.intend_block(hash(3), HasEvents::Notable, &validator_sets(&sets_s()), &next_sets).unwrap();
    // The next session starts with block 3: block 4 cannot be looked up before block 3.
    assert!(engine.strict_session_defined(2));
    assert!(engine.strict_session_defined(3));
    assert!(!engine.strict_session_defined(4));
    assert_eq!(engine.currently_evaluated_global_session_strict(2).0, id);
    let (current, session) = engine.currently_evaluated_global_session_strict(3);
    assert_eq!(current, id_of(&next_sets));
    assert_eq!(session.start_block_number, 3);
    // The evaluator has moved on, so block 2 cannot be looked up any more.
    assert!(!engine.strict_session_defined(2));
    assert!(engine.strict_session_defined(4));
    assert_eq!(engine.currently_evaluated_global_session_strict(4).0, id_of(&next_sets));
}

#[test]
fn a_block_whose_session_cannot_be_told_is_not_evaluated() {
    let mut engine = Cosigning::new();
    // A block which calls for cosigns while no session was ever declared.
    assert_eq!(
        engine.intend_block(hash(1), HasEvents::NonNotable, &vec![set(n1(), 1)], &vec![]),
        Ok(BlockEvent { block_number: 1, has_events: HasEvents::NonNotable })
    );
    assert_eq!(engine.evaluate(0), (false, Evaluation::SessionUnresolved { block_number: 1 }));
    assert_eq!(engine.latest_cosigned_block_number(), Ok(0));
}

#[test]
fn acknowledgement_delay() {
    let mut engine = Cosigning::new();
    for block in 1u8..=7 {
        intend_plain(&mut engine, block);
    }
    let mut known_cosign = None;
    for block in 1u64..=6 {
        assert_eq!(engine.evaluate_block(&mut known_cosign, 0), Evaluation::Cosigned { block_number: block });
    }
    let evaluated = 1_000_000;
    assert_eq!(engine.evaluate(evaluated), (true, Evaluation::Idle));
    assert_eq!(engine.latest_cosigned_block_number(), Ok(7));
    assert_eq!(engine.latest_acknowledged_block_number(), 0);

    // The first six blocks were evaluated long ago.
    for block in 1u64..=6 {
        assert_eq!(engine.acknowledge(evaluated), Acknowledgement::Acknowledged { block_number: block });
        assert_eq!(engine.latest_acknowledged_block_number(), block);
    }
    // Block 7 is acknowledged 70 seconds after its evaluation, and not before.
    assert_eq!(
        engine.acknowledge(evaluated),
        Acknowledgement::Wait { block_number: 7, seconds: 70 }
    );
    assert_eq!(
        engine.acknowledge(evaluated + 69),
        Acknowledgement::Wait { block_number: 7, seconds: 1 }
    );
    assert_eq!(engine.latest_cosigned_block_number(), Ok(7));
    assert_eq!(engine.latest_acknowledged_block_number(), 6);
    assert_eq!(
        engine.acknowledge(evaluated + 70),
        Acknowledgement::Acknowledged { block_number: 7 }
    );
    assert_eq!(engine.latest_acknowledged_block_number(), 7);
    assert_eq!(engine.acknowledge(evaluated + 71), Acknowledgement::Idle);
}

#[test]
fn seconds_left_until_acknowledgement() {
    assert_eq!(seconds_left(100, 100), 70);
    assert_eq!(seconds_left(100, 169), 1);
    assert_eq!(seconds_left(100, 170), 0);
    assert_eq!(seconds_left(100, 171), 0);
    assert_eq!(seconds_left(100, 0), 170);
    assert_eq!(seconds_left(0, u64::MAX), 0);
    assert_eq!(seconds_left(u64::MAX, u64::MAX), 70);
    assert_eq!(seconds_left(u64::MAX, 69), u64::MAX);
    assert_eq!(seconds_left(u64::MAX, 70), u64::MAX);
    assert_eq!(seconds_left(u64::MAX, 71), u64::MAX - 1);
}

#[test]
fn acknowledged_never_passes_cosigned() {
    let mut engine = engine_with_block_1_cosigned();
    for block in 2u8..=5 {
        intend_plain(&mut engine, block);
    }
    let mut known_cosign = None;
    for step in 0u64..12 {
        if step % 3 == 0 {
            engine.evaluate_block(&mut known_cosign, step);
        }
        engine.acknowledge(1_000 + step);
        let cosigned = engine.latest_cosigned_block_number().unwrap();
        assert!(engine.latest_acknowledged_block_number() <= cosigned);
    }
    assert_eq!(engine.latest_acknowledged_block_number(), 5);
}

#[test]
fn latest_cosigned_advances_one_block_at_a_time() {
    let mut engine = Cosigning::new();
    for block in 1u8..=5 {
        intend_plain(&mut engine, block);
        assert_eq!(engine.next_block_to_intend(), block as u64 + 1);
    }
    let mut known_cosign = None;
    for block in 1u64..=5 {
        assert_eq!(engine.latest_cosigned_block_number(), Ok(block - 1));
        assert_eq!(engine.evaluate_block(&mut known_cosign, 0), Evaluation::Cosigned { block_number: block });
        assert_eq!(engine.latest_cosigned_block_number(), Ok(block));
    }
    assert_eq!(engine.evaluate_block(&mut known_cosign, 0), Evaluation::Idle);
    assert_eq!(engine.latest_cosigned_block_number(), Ok(5));
}

#[test]
fn a_block_without_cosigners_calls_for_no_cosign() {
    let mut engine = Cosigning::new();
    assert_eq!(
        engine.intend_block(hash(1), HasEvents::NonNotable, &vec![], &vec![]),
        Ok(BlockEvent { block_number: 1, has_events: HasEvents::No })
    );
    assert_eq!(
        engine.intend_block(hash(2), HasEvents::Notable, &vec![], &sets_s()),
        Ok(BlockEvent { block_number: 2, has_events: HasEvents::No })
    );
    assert_eq!(engine.take_intended_cosign(set(n1(), 1)), None);
    assert_eq!(engine.evaluate(0), (true, Evaluation::Idle));
    assert_eq!(engine.latest_cosigned_block_number(), Ok(2));
}

#[test]
fn stakes_which_overflow_are_an_error() {
    let mut engine = Cosigning::new();
    let sets = vec![cosigning(n1(), 1, u64::MAX), cosigning(n2(), 1, 1)];
    assert_eq!(
        engine.intend_block(hash(1), HasEvents::Notable, &validator_sets(&sets), &sets),
        Err(IntendError::StakeOverflow)
    );
    assert_eq!(engine.next_block_to_intend(), 1);
    assert_eq!(engine.substrate_block(1), None);
    assert_eq!(engine.take_intended_cosign(set(n1(), 1)), None);
    // The stakes are only read for a notable block.
    assert_eq!(
        engine.intend_block(hash(1), HasEvents::NonNotable, &validator_sets(&sets), &sets),
        Ok(BlockEvent { block_number: 1, has_events: HasEvents::NonNotable })
    );
}
