use network_score::encoding::{generate_rating_id, generate_space_id};
use network_score::ledger::Ledger;
use network_score::types::{CallContext, EntryType, RatingError, RatingInput, RatingType};
use parity_scale_codec::Encode;
use sp_crypto_hashing::blake2_256;

const MAX_LENGTH: u32 = 32;

fn creator() -> Vec<u8> {
    vec![1u8; 32]
}

fn space_of(raw: u8) -> Vec<u8> {
    let space_digest = blake2_256(&vec![raw; 256].encode());
    let id_digest = blake2_256(&[&space_digest.to_vec().encode()[..], &creator().encode()[..]].concat());
    generate_space_id(&id_digest.to_vec())
}

fn ctx_in(space: &Vec<u8>) -> CallContext {
    CallContext { issuer: creator(), space: Some(space.clone()), block_number: 1 }
}

fn input(entity: u8, score: u64, txn: u64) -> RatingInput {
    RatingInput {
        entity_id: vec![entity; 10],
        provider_id: vec![74u8; 10],
        rating_type: RatingType::Overall,
        total_encoded_rating: score,
        count_of_txn: txn,
    }
}

fn digest_of(i: &RatingInput) -> Vec<u8> {
    let mut bytes = i.entity_id.encode();
    bytes.extend(i.provider_id.encode());
    bytes.extend(i.total_encoded_rating.encode());
    bytes.extend(i.count_of_txn.encode());
    blake2_256(&bytes).to_vec()
}

fn expected_id(digest: &Vec<u8>, entity: &Vec<u8>, m: &Vec<u8>, space: &Vec<u8>) -> Vec<u8> {
    let pre = [
        &digest.encode()[..],
        &entity.encode()[..],
        &m.encode()[..],
        &space.encode()[..],
        &creator().encode()[..],
    ]
    .concat();
    generate_rating_id(&blake2_256(&pre).to_vec())
}

#[test]
fn check_successful_rating_creation() {
    let space = space_of(2);
    let ctx = ctx_in(&space);
    let entry = input(73, 250, 7);
    let digest = digest_of(&entry);
    let m = vec![72u8; 10];
    let mut ledger = Ledger::new(MAX_LENGTH);
    let id = ledger.register_rating(entry.clone(), digest.clone(), m.clone(), &ctx).unwrap();
    assert_eq!(id, expected_id(&digest, &entry.entity_id, &m, &space));
    let stored = ledger.get(&id).unwrap();
    assert_eq!(stored.entry_type, EntryType::Credit);
    assert_eq!(stored.reference_id, None);
    assert_eq!(stored.total_encoded_rating, 250);
    assert_eq!(stored.count_of_txn, 7);
}

#[test]
fn register_rating_with_invalid_data_should_fail() {
    let space = space_of(2);
    let ctx = ctx_in(&space);
    let entry = input(73, 0, 0);
    let digest = digest_of(&entry);
    let mut ledger = Ledger::new(MAX_LENGTH);
    assert_eq!(
        ledger.register_rating(entry, digest, vec![], &ctx),
        Err(RatingError::InvalidRatingValue)
    );
}

#[test]
fn revise_rating_with_invalid_values_should_fail() {
    let space = space_of(2);
    let ctx = ctx_in(&space);
    let entry = input(73, 250, 7);
    let digest = digest_of(&entry);
    let m = vec![72u8; 10];
    let mut ledger = Ledger::new(MAX_LENGTH);
    let id = ledger.register_rating(entry.clone(), digest, m.clone(), &ctx).unwrap();
    let mut revised = entry.clone();
    revised.total_encoded_rating = 0;
    revised.count_of_txn = 0;
    let revised_digest = digest_of(&revised);
    assert_eq!(
        ledger.revise_rating(revised, revised_digest, m, &id, &ctx),
        Err(RatingError::InvalidRatingValue)
    );
}

#[test]
fn check_duplicate_message_id() {
    let space = space_of(2);
    let ctx = ctx_in(&space);
    let entry = input(73, 250, 7);
    let digest = digest_of(&entry);
    let m = vec![72u8; 10];
    let mut ledger = Ledger::new(MAX_LENGTH);
    assert!(ledger.register_rating(entry.clone(), digest.clone(), m.clone(), &ctx).is_ok());
    assert_eq!(
        ledger.register_rating(entry, digest, m, &ctx),
        Err(RatingError::MessageIdAlreadyExists)
    );
}

#[test]
fn revise_rating_with_entry_entity_mismatch_should_fail() {
    let space = space_of(2);
    let ctx = ctx_in(&space);
    let entry = input(73, 250, 7);
    let digest = digest_of(&entry);
    let mut ledger = Ledger::new(MAX_LENGTH);
    let id = ledger.register_rating(entry.clone(), digest.clone(), vec![72u8; 10], &ctx).unwrap();
    let debit = ledger.revoke_rating(&id, vec![84u8; 10], digest, &ctx).unwrap();
    let mismatched = input(80, 250, 7);
    let mismatched_digest = digest_of(&mismatched);
    assert_eq!(
        ledger.revise_rating(mismatched, mismatched_digest, vec![75u8; 10], &debit, &ctx),
        Err(RatingError::EntityMismatch)
    );
}

#[test]
fn register_rating_with_existing_rating_identifier_should_fail() {
    let space = space_of(2);
    let ctx = ctx_in(&space);
    let entry = input(73, 250, 7);
    let digest = digest_of(&entry);
    let m = vec![72u8; 10];
    let mut ledger = Ledger::new(MAX_LENGTH);
    assert!(ledger.register_rating(entry.clone(), digest.clone(), m.clone(), &ctx).is_ok());
    ledger.remove_message_id(&m, &creator());
    assert_eq!(
        ledger.register_rating(entry, digest, m, &ctx),
        Err(RatingError::RatingIdentifierAlreadyAdded)
    );
}

#[test]
fn revoke_rating_with_existing_rating_identifier_should_fail() {
    let space = space_of(2);
    let ctx = ctx_in(&space);
    let entry = input(73, 250, 7);
    let digest = digest_of(&entry);
    let m = vec![82u8; 10];
    let identifier = expected_id(&digest, &entry.entity_id, &m, &space);
    let mut ledger = Ledger::new(MAX_LENGTH);
    assert!(ledger.register_rating(entry, digest.clone(), m.clone(), &ctx).is_ok());
    ledger.remove_message_id(&m, &creator());
    assert_eq!(
        ledger.revoke_rating(&identifier, m, digest, &ctx),
        Err(RatingError::RatingIdentifierAlreadyAdded)
    );
}

#[test]
fn revise_rating_with_existing_rating_identifier_should_fail() {
    let space = space_of(2);
    let ctx = ctx_in(&space);
    let entry = input(73, 250, 7);
    let digest = digest_of(&entry);
    let entry_revise = input(73, 250, 7);
    let revise_digest = digest_of(&entry_revise);
    let m = vec![82u8; 10];
    let m_revoke = vec![84u8; 10];
    let m_revise = vec![75u8; 10];
    let identifier = expected_id(&digest, &entry.entity_id, &m, &space);
    let identifier_add = expected_id(&digest, &entry.entity_id, &m_revoke, &space);
    let mut ledger = Ledger::new(MAX_LENGTH);
    assert!(ledger.register_rating(entry, digest.clone(), m, &ctx).is_ok());
    assert_eq!(ledger.revoke_rating(&identifier, m_revoke, digest, &ctx), Ok(identifier_add.clone()));
    assert!(ledger
        .revise_rating(entry_revise.clone(), revise_digest.clone(), m_revise.clone(), &identifier_add, &ctx)
        .is_ok());
    ledger.remove_message_id(&m_revise, &creator());
    assert_eq!(
        ledger.revise_rating(entry_revise, revise_digest, m_revise, &identifier_add, &ctx),
        Err(RatingError::RatingIdentifierAlreadyAdded)
    );
}

#[test]
fn reference_identifier_not_debit_test() {
    let space = space_of(2);
    let ctx = ctx_in(&space);
    let entry = input(73, 250, 7);
    let digest = digest_of(&entry);
    let m = vec![82u8; 10];
    let identifier = expected_id(&digest, &entry.entity_id, &m, &space);
    let mut ledger = Ledger::new(MAX_LENGTH);
    assert!(ledger.register_rating(entry.clone(), digest.clone(), m.clone(), &ctx).is_ok());
    ledger.remove_message_id(&m, &creator());
    assert_eq!(
        ledger.revise_rating(entry, digest, vec![75u8; 10], &identifier, &ctx),
        Err(RatingError::ReferenceNotDebitIdentifier)
    );
}

#[test]
fn rating_identifier_not_found_test() {
    let space = space_of(2);
    let ctx = ctx_in(&space);
    let entry = input(73, 250, 7);
    let digest = digest_of(&entry);
    let m = vec![82u8; 10];
    let identifier = expected_id(&digest, &entry.entity_id, &m, &space);
    let mut ledger = Ledger::new(MAX_LENGTH);
    assert_eq!(
        ledger.revoke_rating(&identifier, m, digest, &ctx),
        Err(RatingError::RatingIdentifierNotFound)
    );
}

#[test]
fn reference_identifier_not_found_test() {
    let space = space_of(2);
    let ctx = ctx_in(&space);
    let entry = input(73, 250, 7);
    let digest = digest_of(&entry);
    let m = vec![82u8; 10];
    let m_revoke = vec![84u8; 10];
    let m_revise = vec![75u8; 10];
    let identifier = expected_id(&digest, &entry.entity_id, &m, &space);
    let missing = expected_id(&digest, &entry.entity_id, &vec![90u8; 10], &space);
    let mut ledger = Ledger::new(MAX_LENGTH);
    assert!(ledger.register_rating(entry.clone(), digest.clone(), m, &ctx).is_ok());
    assert!(ledger.revoke_rating(&identifier, m_revoke, digest.clone(), &ctx).is_ok());
    assert_eq!(
        ledger.revise_rating(entry, digest, m_revise, &missing, &ctx),
        Err(RatingError::ReferenceIdentifierNotFound)
    );
}

#[test]
fn revise_rating_with_space_mismatch_should_fail() {
    let space = space_of(2);
    let mismatch_space = space_of(3);
    let ctx = ctx_in(&space);
    let mismatch_ctx = ctx_in(&mismatch_space);
    let entry = input(73, 250, 7);
    let digest = digest_of(&entry);
    let m = vec![72u8; 10];
    let mut ledger = Ledger::new(MAX_LENGTH);
    assert!(ledger.register_rating(entry.clone(), digest, m.clone(), &ctx).is_ok());
    let orig_rating_id = ledger.message_identifier(&m, &creator()).unwrap().clone();
    let revoke_digest = blake2_256(&[50u8; 16]).to_vec();
    let debit = ledger.revoke_rating(&orig_rating_id, vec![80u8; 10], revoke_digest, &ctx).unwrap();
    let mismatch_digest = blake2_256(&[88u8; 16]).to_vec();
    assert_eq!(
        ledger.revise_rating(entry, mismatch_digest, vec![90u8; 10], &debit, &mismatch_ctx),
        Err(RatingError::SpaceMismatch)
    );
}
