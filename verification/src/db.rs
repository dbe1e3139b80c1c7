use vstd::prelude::*;
use vstd::pervasive::unreached;
use crate::HashType;
use crate::append_log::{AppendLog, AppendLogError};
use crate::encoding::spec_u64_from_be_bytes;
use crate::hashing::sha256;
use crate::merkle_tree::{accum_of, leaf_hashes, lemma_accum_of_push, spec_root, MerkleTree};
use crate::tx::{lemma_codec_round_trip, Tx, TxError};

verus! {

/// Failures of the transaction coordinator, tagged by the component that
/// raised them.
#[derive(Debug)]
pub enum DBError {
    /// `append` was called while a record was already staged.
    TransactionPending,
    /// `commit` or `rollback` was called with nothing staged.
    NoTransactionPending,
    /// The append log failed.
    Log(AppendLogError),
    /// A stored record could not be decoded.
    Codec(TxError),
}

/// The transaction coordinator: an owned append log, the committed
/// accumulator, and at most one staged record.
pub struct DB {
    append_log: AppendLog,
    merkle_tree: MerkleTree,
    tx: Option<Tx>,
}

impl DB {
    /// The committed records' wire forms, in commit order.
    pub closed spec fn log_records(self) -> Seq<Seq<u8>> {
        self.append_log.records()
    }

    /// How many leaves the committed accumulator has absorbed.
    pub closed spec fn leaf_count(self) -> nat {
        self.merkle_tree.leaf_count()
    }

    /// The staged record, if any.
    pub closed spec fn pending(self) -> Option<Tx> {
        self.tx
    }

    /// The log and accumulator are individually well formed, the accumulator
    /// absorbed exactly one leaf per committed record, and its frontier is the
    /// one built from the records' content hashes.
    pub closed spec fn wf(self) -> bool {
        &&& self.append_log.wf()
        &&& self.merkle_tree.wf()
        &&& self.merkle_tree.leaf_count() == self.append_log.record_count()
        &&& self.merkle_tree.frontier() == accum_of(leaf_hashes(self.append_log.records()))
    }

    /// A coordinator over an empty log, with nothing staged.
    pub fn new() -> (r: DB)
        ensures
            r.wf(),
            r.log_records() == Seq::<Seq<u8>>::empty(),
            r.pending() is None,
    {
        let r = DB { append_log: AppendLog::new(), merkle_tree: MerkleTree::new(), tx: None };
        proof {
            assert(leaf_hashes(r.log_records()) =~= Seq::<Seq<u8>>::empty());
        }
        r
    }

    /// A coordinator over an existing log: the accumulator is rebuilt by
    /// absorbing every stored record's content hash in order, so that the
    /// count and frontier invariants hold from the start.
    pub fn from_log(log: AppendLog) -> (r: DB)
        requires
            log.wf(),
        ensures
            r.wf(),
            r.log_records() == log.records(),
            r.pending() is None,
    {
        let n = log.count();
        let mut merkle_tree = MerkleTree::new();
        let mut i: u64 = 0;
        proof {
            assert(leaf_hashes(log.records().take(0)) =~= Seq::<Seq<u8>>::empty());
        }
        while i < n
            invariant
                i <= n,
                n == log.record_count(),
                log.record_count() <= usize::MAX,
                log.wf(),
                merkle_tree.wf(),
                merkle_tree.leaf_count() == i,
                merkle_tree.frontier() == accum_of(leaf_hashes(log.records().take(i as int))),
            decreases n - i,
        {
            let bytes = match log.at(i) {
                Ok(b) => b,
                Err(_) => unreached(),
            };
            let h = sha256(bytes.as_slice());
            proof {
                lemma_accum_of_push(log.records().take(i as int), log.records()[i as int]);
                assert(log.records().take(i as int).push(log.records()[i as int]) =~= log.records()
                    .take(i as int + 1));
            }
            merkle_tree.append(h);
            i = i + 1;
        }
        proof {
            assert(log.records().take(n as int) =~= log.records());
        }
        DB { append_log: log, merkle_tree, tx: None }
    }

    /// Stages a record in the single pending slot. Fails with
    /// `TransactionPending`, leaving everything unchanged, if a record is
    /// already staged.
    pub fn append(&mut self, tx: Tx) -> (r: Result<Tx, DBError>)
        ensures
            old(self).pending() is Some ==> r is Err && r->Err_0 == DBError::TransactionPending
                && *final(self) == *old(self),
            old(self).pending() is None ==> r is Ok && r->Ok_0 == tx,
            old(self).pending() is None ==> final(self).pending() is Some
                && final(self).pending()->Some_0.spec_timestamp() == tx.spec_timestamp()
                && final(self).pending()->Some_0.spec_data() == tx.spec_data(),
            final(self).log_records() == old(self).log_records(),
            final(self).leaf_count() == old(self).leaf_count(),
            old(self).wf() ==> final(self).wf(),
    {
        if self.tx.is_some() {
            return Err(DBError::TransactionPending);
        }
        self.tx = Some(tx.clone());
        Ok(tx)
    }

    /// Commits the staged record: appends its wire form to the log and, that
    /// done, folds its content hash into the accumulator; the slot is cleared
    /// whatever happens. Fails with `NoTransactionPending` if nothing is
    /// staged.
    pub fn commit(&mut self) -> (r: Result<Tx, DBError>)
        requires
            old(self).wf(),
        ensures
            final(self).wf(),
            final(self).pending() is None,
            old(self).pending() is None ==> r is Err && r->Err_0 == DBError::NoTransactionPending
                && *final(self) == *old(self),
            old(self).pending() matches Some(t) ==> r is Ok && r->Ok_0 == t
                && final(self).log_records() == old(self).log_records().push(t.spec_bytes())
                && final(self).leaf_count() == old(self).leaf_count() + 1,
    {
        match self.tx.take() {
            None => Err(DBError::NoTransactionPending),
            Some(tx) => {
                let bytes = tx.get_bytes();
                let hash = tx.get_hash();
                if let Err(e) = self.append_log.append(bytes.as_slice()) {
                    return Err(DBError::Log(e));
                }
                proof {
                    lemma_accum_of_push(old(self).log_records(), tx.spec_bytes());
                }
                self.merkle_tree.append(hash);
                Ok(tx)
            },
        }
    }

    /// Discards the staged record and returns it. Fails with
    /// `NoTransactionPending` if nothing is staged.
    pub fn rollback(&mut self) -> (r: Result<Tx, DBError>)
        ensures
            final(self).pending() is None,
            final(self).log_records() == old(self).log_records(),
            final(self).leaf_count() == old(self).leaf_count(),
            old(self).wf() ==> final(self).wf(),
            old(self).pending() is None ==> r is Err && r->Err_0 == DBError::NoTransactionPending
                && *final(self) == *old(self),
            old(self).pending() matches Some(t) ==> r is Ok && r->Ok_0 == t,
    {
        match self.tx.take() {
            None => Err(DBError::NoTransactionPending),
            Some(tx) => Ok(tx),
        }
    }

    /// Reads the record at `index` back from the log and decodes it. The
    /// accumulator is not consulted.
    pub fn retrieve(&mut self, index: u64) -> (r: Result<Tx, DBError>)
        requires
            old(self).wf(),
        ensures
            *final(self) == *old(self),
            ({
                let rs = old(self).log_records();
                &&& (index < rs.len() && rs[index as int].len() >= 8) ==> r is Ok
                    && r->Ok_0.spec_timestamp() == spec_u64_from_be_bytes(
                    rs[index as int].subrange(0, 8),
                ) && r->Ok_0.spec_data() == rs[index as int].skip(8)
                &&& index >= rs.len() ==> r is Err && r->Err_0 == DBError::Log(
                    AppendLogError::NotFound,
                )
                &&& (index < rs.len() && rs[index as int].len() < 8) ==> r is Err && r->Err_0
                    == DBError::Codec(TxError::MalformedRecord)
            }),
    {
        match self.append_log.at(index) {
            Err(_) => Err(DBError::Log(AppendLogError::NotFound)),
            Ok(bytes) => match Tx::from_bytes(bytes) {
                Ok(tx) => Ok(tx),
                Err(_) => Err(DBError::Codec(TxError::MalformedRecord)),
            },
        }
    }

    /// The committed accumulator's root: a digest over exactly the committed
    /// record sequence.
    pub fn root(&self) -> (r: HashType)
        requires
            self.wf(),
        ensures
            r@ == spec_root(accum_of(leaf_hashes(self.log_records()))),
    {
        self.merkle_tree.root()
    }

    /// How many records are committed.
    pub fn record_count(&self) -> (r: u64)
        ensures
            r == self.log_records().len(),
    {
        self.append_log.count()
    }

    /// How many leaves the committed accumulator has absorbed.
    pub fn leaves(&self) -> (r: u64)
        ensures
            r == self.leaf_count(),
    {
        self.merkle_tree.num_leaves()
    }
}

/// Commit/accumulator consistency: a well-formed coordinator's accumulator
/// has absorbed exactly one leaf per committed record.
pub proof fn lemma_counts_consistent(db: DB)
    requires
        db.wf(),
    ensures
        db.leaf_count() == db.log_records().len(),
{
}

/// Commit durability: the wire form a commit appends at the newly assigned
/// index decodes back to the committed record, field for field.
pub proof fn lemma_commit_durability(t: Tx, records: Seq<Seq<u8>>)
    ensures
        records.push(t.spec_bytes())[records.len() as int] == t.spec_bytes(),
        t.spec_bytes().len() >= 8,
        spec_u64_from_be_bytes(t.spec_bytes().subrange(0, 8)) == t.spec_timestamp(),
        t.spec_bytes().skip(8) == t.spec_data(),
{
    lemma_codec_round_trip(t);
}

} // verus!
