use ledgerdb::append_log::AppendLogError;
use ledgerdb::db::DBError;
use ledgerdb::encoding::u64_to_be_bytes;
use ledgerdb::merkle_tree::hash_pair;
use ledgerdb::{AppendLog, MerkleTree, Tx, DB};

#[test]
fn single_slot_rejects_second_stage() {
    let mut db = DB::new();
    db.append(Tx::new(1, b"a".to_vec())).unwrap();
    let r = db.append(Tx::new(2, b"b".to_vec()));
    assert!(matches!(r, Err(DBError::TransactionPending)));
    // The first staged record is still the one committed.
    let committed = db.commit().unwrap();
    assert_eq!(committed.timestamp(), 1);
}

#[test]
fn commit_and_rollback_need_a_staged_record() {
    let mut db = DB::new();
    assert!(matches!(db.commit(), Err(DBError::NoTransactionPending)));
    assert!(matches!(db.rollback(), Err(DBError::NoTransactionPending)));
}

#[test]
fn commit_durability() {
    let mut db = DB::new();
    let tx = Tx::new(42, b"payload".to_vec());
    db.append(tx).unwrap();
    let committed = db.commit().unwrap();
    assert_eq!(committed.timestamp(), 42);
    let got = db.retrieve(0).unwrap();
    assert_eq!(got.timestamp(), 42);
    assert_eq!(got.data(), b"payload");
    assert_eq!(got.get_bytes(), committed.get_bytes());
}

#[test]
fn end_to_end_scenario() {
    let mut db = DB::new();

    db.append(Tx::new(1, b"a".to_vec())).unwrap();
    db.commit().unwrap();
    let got = db.retrieve(0).unwrap();
    assert_eq!(got.timestamp(), 1);
    assert_eq!(got.data(), b"a");

    db.append(Tx::new(2, b"b".to_vec())).unwrap();
    db.rollback().unwrap();
    db.append(Tx::new(2, b"b".to_vec())).unwrap();
    db.commit().unwrap();
    let got = db.retrieve(1).unwrap();
    assert_eq!(got.timestamp(), 2);
    assert_eq!(got.data(), b"b");

    assert!(matches!(
        db.retrieve(2),
        Err(DBError::Log(AppendLogError::NotFound))
    ));
}

#[test]
fn counts_stay_consistent() {
    let mut db = DB::new();
    assert_eq!(db.record_count(), 0);
    assert_eq!(db.leaves(), 0);
    for k in 0..5u64 {
        db.append(Tx::new(k, vec![k as u8])).unwrap();
        db.commit().unwrap();
        assert_eq!(db.record_count(), k + 1);
        assert_eq!(db.leaves(), k + 1);
    }
    // A rollback changes neither count.
    db.append(Tx::new(9, b"z".to_vec())).unwrap();
    db.rollback().unwrap();
    assert_eq!(db.record_count(), 5);
    assert_eq!(db.leaves(), 5);
}

#[test]
fn root_matches_an_accumulator_over_the_content_hashes() {
    let mut db = DB::new();
    let mut tree = MerkleTree::new();
    for k in 0..3u64 {
        let tx = Tx::new(k, vec![b'r', k as u8]);
        tree.append(tx.get_hash());
        db.append(tx).unwrap();
        db.commit().unwrap();
    }
    assert_eq!(db.root(), tree.root());

    let t0 = Tx::new(0, vec![b'r', 0]);
    let t1 = Tx::new(1, vec![b'r', 1]);
    let t2 = Tx::new(2, vec![b'r', 2]);
    let expected = hash_pair(
        &hash_pair(&t0.get_hash(), &t1.get_hash()),
        &t2.get_hash(),
    );
    assert_eq!(db.root(), expected);
}

#[test]
fn empty_db_root_is_all_zeroes() {
    let db = DB::new();
    assert_eq!(db.root(), [0u8; 32]);
}

#[test]
fn from_log_rebuilds_the_accumulator() {
    // Commit two records through one coordinator, then rebuild a second
    // coordinator from the persisted byte streams: same records, same root.
    let mut db = DB::new();
    let t0 = Tx::new(7, b"first".to_vec());
    let t1 = Tx::new(8, b"second".to_vec());
    db.append(t0.clone()).unwrap();
    db.commit().unwrap();
    db.append(t1.clone()).unwrap();
    db.commit().unwrap();

    let mut data = t0.get_bytes();
    data.extend_from_slice(&t1.get_bytes());
    let mut index = u64_to_be_bytes(0);
    index.extend_from_slice(&u64_to_be_bytes(t0.get_bytes().len() as u64));
    let log = AppendLog::from_files(data, index).unwrap();
    let mut reopened = DB::from_log(log);

    assert_eq!(reopened.record_count(), 2);
    assert_eq!(reopened.leaves(), 2);
    assert_eq!(reopened.root(), db.root());
    let got = reopened.retrieve(1).unwrap();
    assert_eq!(got.timestamp(), 8);
    assert_eq!(got.data(), b"second");
}
