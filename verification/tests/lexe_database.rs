use cdk_payment_processors::lexe::database::{
    MeltAttempt, QuoteDatabase, QuoteTables, RejectError, Table,
};
use cdk_payment_processors::payment::CurrencyUnit;

fn copy_texts(from: &Table<String>, to: &mut Table<String>) {
    for i in 0..from.len() {
        let key = from.key_at(i);
        to.insert(&key, from.get(&key).unwrap().clone());
    }
}

fn copy_attempts(from: &Table<MeltAttempt>, to: &mut Table<MeltAttempt>) {
    for i in 0..from.len() {
        let key = from.key_at(i);
        to.insert(&key, from.get(&key).unwrap().clone());
    }
}

fn reopen(db: &QuoteDatabase) -> QuoteDatabase {
    let old = db.tables();
    let mut new = QuoteTables::empty(old.attempts_migrated);
    copy_texts(&old.mint_quotes, &mut new.mint_quotes);
    copy_texts(&old.mint_payment_ids, &mut new.mint_payment_ids);
    copy_texts(&old.melt_quotes, &mut new.melt_quotes);
    copy_texts(&old.melt_payment_ids, &mut new.melt_payment_ids);
    copy_attempts(&old.melt_owners, &mut new.melt_owners);
    copy_attempts(&old.melt_attempts, &mut new.melt_attempts);
    QuoteDatabase::new(new)
}

fn database() -> QuoteDatabase {
    QuoteDatabase::new(QuoteTables::empty(false))
}

#[test]
fn persists_all_quote_mappings() {
    let hash = [42_u8; 32];
    let quote_id = "018f8b3e-8c1a-7d2e-9f4b-6a1c3e5d7f90";

    let mut db = database();
    db.insert_mint_quote(&hash, "lnbc1incoming-invoice");
    db.insert_mint_payment_id(&hash, "0001-ln_aabbcc");
    db.insert_melt_quote(&hash, "lnbc1outgoing-invoice");
    db.insert_melt_payment_id(&hash, "0002-ln_ddddeeff");
    assert!(db.begin_melt_attempt(&hash, quote_id, &CurrencyUnit::Msat));

    let db = reopen(&db);
    assert_eq!(
        db.get_mint_quote(&hash),
        Some("lnbc1incoming-invoice".to_string())
    );
    assert_eq!(
        db.get_mint_payment_id(&hash),
        Some("0001-ln_aabbcc".to_string())
    );
    assert_eq!(
        db.get_melt_quote(&hash),
        Some("lnbc1outgoing-invoice".to_string())
    );
    assert_eq!(
        db.get_melt_payment_id(&hash),
        Some("0002-ln_ddddeeff".to_string())
    );
    assert_eq!(
        db.get_melt_attempt(&hash),
        Some(MeltAttempt {
            quote_id: Some(quote_id.to_string()),
            unit: CurrencyUnit::Msat,
            submission_rejected: false,
        })
    );

    // Unknown hashes return None.
    let other = [7_u8; 32];
    assert_eq!(db.get_mint_quote(&other), None);
    assert_eq!(db.get_melt_payment_id(&other), None);
}

#[test]
fn upsert_overwrites_stale_values() {
    let hash = [9_u8; 32];

    let mut db = database();
    db.insert_melt_payment_id(&hash, "0001-ln_old");
    db.insert_melt_payment_id(&hash, "0002-ln_new");

    assert_eq!(
        db.get_melt_payment_id(&hash),
        Some("0002-ln_new".to_string())
    );
    assert_eq!(db.tables().melt_payment_ids.len(), 1);
}

#[test]
fn concurrent_claims_only_allow_one_submission() {
    let mut db = database();
    let claimed: usize = (0..8)
        .map(|n| {
            let quote_id = format!("quote-{n}");
            usize::from(db.begin_melt_attempt(&[1; 32], &quote_id, &CurrencyUnit::Sat))
        })
        .sum();
    assert_eq!(claimed, 1);
    assert_eq!(
        db.get_melt_attempt(&[1; 32]).unwrap().quote_id,
        Some("quote-0".to_string())
    );
}

#[test]
fn attempts_without_rejection_field_remain_ambiguous_after_upgrade() {
    let owner = "018f8b3e-8c1a-7d2e-9f4b-6a1c3e5d7f91".to_string();
    let mut tables = QuoteTables::empty(true);
    tables.melt_attempts.insert(
        &[1; 32],
        MeltAttempt::from_stored(Some(owner.clone()), CurrencyUnit::Sat, None),
    );
    let mut db = QuoteDatabase::new(tables);
    assert_eq!(
        db.get_melt_attempt(&[1; 32]).unwrap(),
        MeltAttempt {
            quote_id: Some(owner),
            unit: CurrencyUnit::Sat,
            submission_rejected: false,
        }
    );
    assert!(!db.begin_melt_attempt(&[1; 32], "other", &CurrencyUnit::Sat));
}

#[test]
fn rejection_requires_an_attempt_without_a_remote_index() {
    let mut db = database();
    let hash = [1; 32];
    assert!(db.reject_melt_attempt(&hash).is_err());
    assert_eq!(db.reject_melt_attempt(&hash), Err(RejectError::AttemptNotFound));
    assert!(db.get_melt_attempt(&hash).is_none());
    assert!(db.begin_melt_attempt(&hash, "quote", &CurrencyUnit::Sat));
    db.insert_melt_payment_id(&hash, "known remote index");
    assert!(db.reject_melt_attempt(&hash).is_err());
    assert_eq!(db.reject_melt_attempt(&hash), Err(RejectError::RemoteIndexKnown));
    assert!(!db.get_melt_attempt(&hash).unwrap().submission_rejected);
    assert_eq!(
        RejectError::RemoteIndexKnown.message(),
        "Cannot reject an attempt with a remote payment index"
    );
    assert_eq!(RejectError::AttemptNotFound.message(), "Outgoing attempt not found");
}

#[test]
fn rejections_keep_the_claim_and_its_owner() {
    let mut db = database();
    assert!(db.begin_melt_attempt(&[1; 32], "quote", &CurrencyUnit::Sat));
    assert_eq!(db.reject_melt_attempt(&[1; 32]), Ok(()));
    assert_eq!(
        db.get_melt_attempt(&[1; 32]),
        Some(MeltAttempt {
            quote_id: Some("quote".to_string()),
            unit: CurrencyUnit::Sat,
            submission_rejected: true,
        })
    );
    assert!(!db.begin_melt_attempt(&[1; 32], "other", &CurrencyUnit::Sat));
}

#[test]
fn migration_preserves_ambiguous_legacy_quotes_and_runs_only_once() {
    let owner = "018f8b3e-8c1a-7d2e-9f4b-6a1c3e5d7f92".to_string();
    let mut legacy = QuoteTables::empty(false);
    legacy.melt_quotes.insert(&[1; 32], "legacy quoted or submitted invoice".to_string());
    legacy.melt_quotes.insert(&[2; 32], "legacy quote without owner".to_string());
    legacy.melt_owners.insert(
        &[1; 32],
        MeltAttempt::from_stored(Some(owner.clone()), CurrencyUnit::Msat, None),
    );
    let mut db = QuoteDatabase::new(legacy);
    assert!(db.tables().attempts_migrated);
    assert_eq!(
        db.get_melt_attempt(&[1; 32]).unwrap(),
        MeltAttempt {
            quote_id: Some(owner),
            unit: CurrencyUnit::Msat,
            submission_rejected: false,
        }
    );
    assert!(db.get_melt_attempt(&[2; 32]).is_some());
    assert_eq!(
        db.get_melt_attempt(&[2; 32]),
        Some(MeltAttempt {
            quote_id: None,
            unit: CurrencyUnit::Sat,
            submission_rejected: false,
        })
    );
    assert!(!db.begin_melt_attempt(&[1; 32], "other", &CurrencyUnit::Sat));
    db.insert_melt_quote(&[3; 32], "new unattempted invoice");
    let db = reopen(&db);
    assert!(db.get_melt_attempt(&[3; 32]).is_none());
}

#[test]
fn mint_mappings_written_in_single_call() {
    let hash = [13_u8; 32];

    let mut db = database();
    db.insert_mint_mappings(&hash, "lnbc1incoming-invoice", "0001-ln_aabbcc");

    assert_eq!(
        db.get_mint_quote(&hash),
        Some("lnbc1incoming-invoice".to_string())
    );
    assert_eq!(
        db.get_mint_payment_id(&hash),
        Some("0001-ln_aabbcc".to_string())
    );
}
