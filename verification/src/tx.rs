use vstd::prelude::*;
use crate::HashType;
use crate::encoding::{
    copy_range, lemma_u64_be_round_trip, push_bytes, spec_u64_from_be_bytes, spec_u64_to_be_bytes,
    u64_from_be_at, u64_to_be_bytes,
};
use crate::hashing::{sha256, sha256_of};

verus! {

/// Failures of the record codec.
#[derive(Debug)]
pub enum TxError {
    /// Fewer than 8 bytes: the timestamp prefix cannot be recovered.
    MalformedRecord,
}

/// A logical record: a timestamp and an opaque payload. Its wire form is the
/// 8-byte big-endian timestamp followed by the raw payload bytes.
pub struct Tx {
    timestamp: u64,
    data: Vec<u8>,
}

impl Tx {
    /// The record's timestamp.
    pub closed spec fn spec_timestamp(self) -> u64 {
        self.timestamp
    }

    /// The record's payload bytes.
    pub closed spec fn spec_data(self) -> Seq<u8> {
        self.data@
    }

    /// The record's wire form: big-endian timestamp, then the payload.
    pub open spec fn spec_bytes(self) -> Seq<u8> {
        spec_u64_to_be_bytes(self.spec_timestamp()) + self.spec_data()
    }

    pub fn new(timestamp: u64, data: Vec<u8>) -> (r: Tx)
        ensures
            r.spec_timestamp() == timestamp,
            r.spec_data() == data@,
    {
        Tx { timestamp, data }
    }

    /// The record's timestamp.
    pub fn timestamp(&self) -> (r: u64)
        ensures
            r == self.spec_timestamp(),
    {
        self.timestamp
    }

    /// The record's payload bytes.
    pub fn data(&self) -> (r: &Vec<u8>)
        ensures
            r@ == self.spec_data(),
    {
        &self.data
    }

    /// Serializes the record to its wire form.
    pub fn get_bytes(&self) -> (r: Vec<u8>)
        ensures
            r@ == self.spec_bytes(),
    {
        let mut r = u64_to_be_bytes(self.timestamp);
        push_bytes(&mut r, self.data.as_slice());
        r
    }

    /// The record's content hash: SHA-256 of its wire form.
    pub fn get_hash(&self) -> (r: HashType)
        ensures
            r@ == sha256_of(self.spec_bytes()),
    {
        let bytes = self.get_bytes();
        sha256(bytes.as_slice())
    }

    /// Deserializes a record from its wire form; anything shorter than the
    /// 8-byte timestamp prefix is rejected.
    pub fn from_bytes(bytes: Vec<u8>) -> (r: Result<Tx, TxError>)
        ensures
            bytes@.len() >= 8 <==> r is Ok,
            r is Ok ==> r->Ok_0.spec_timestamp() == spec_u64_from_be_bytes(
                bytes@.subrange(0, 8),
            ),
            r is Ok ==> r->Ok_0.spec_data() == bytes@.skip(8),
            r is Err ==> r->Err_0 == TxError::MalformedRecord,
    {
        let n = bytes.len();
        if n < 8 {
            return Err(TxError::MalformedRecord);
        }
        let timestamp = u64_from_be_at(&bytes, 0);
        let data = copy_range(&bytes, 8, n);
        proof {
            assert(bytes@.subrange(8, n as int) =~= bytes@.skip(8));
        }
        Ok(Tx { timestamp, data })
    }
}

impl Clone for Tx {
    /// A field-for-field copy of the record.
    fn clone(&self) -> (r: Tx)
        ensures
            r.spec_timestamp() == self.spec_timestamp(),
            r.spec_data() == self.spec_data(),
    {
        let mut data: Vec<u8> = Vec::new();
        push_bytes(&mut data, self.data.as_slice());
        proof {
            assert(data@ =~= self.data@);
        }
        Tx { timestamp: self.timestamp, data }
    }
}

/// Round trip: decoding a record's wire form recovers the record exactly.
/// The wire form is long enough to decode, its first 8 bytes read back as the
/// timestamp, and the rest is the payload.
pub proof fn lemma_codec_round_trip(t: Tx)
    ensures
        t.spec_bytes().len() >= 8,
        spec_u64_from_be_bytes(t.spec_bytes().subrange(0, 8)) == t.spec_timestamp(),
        t.spec_bytes().skip(8) == t.spec_data(),
{
    lemma_u64_be_round_trip(t.spec_timestamp());
    assert(t.spec_bytes().subrange(0, 8) =~= spec_u64_to_be_bytes(t.spec_timestamp()));
    assert(t.spec_bytes().skip(8) =~= t.spec_data());
}

} // verus!
