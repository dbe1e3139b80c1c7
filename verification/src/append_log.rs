use vstd::prelude::*;
use crate::encoding::{
    copy_range, push_bytes, spec_u64_from_be_bytes, u64_from_be_at,
};

verus! {

/// Failures of the append log.
#[derive(Debug)]
pub enum AppendLogError {
    /// The requested index lies beyond the last record.
    NotFound,
    /// The index bytes do not describe a valid offset table for the data bytes.
    MalformedIndex,
}

/// An append-only record store: the raw data bytes, plus one start offset per
/// record. A record's end offset is the next record's start offset, or the
/// data length for the newest record.
pub struct AppendLog {
    data: Vec<u8>,
    offsets: Vec<u64>,
}

impl AppendLog {
    /// The raw contents of the data stream.
    pub closed spec fn data_bytes(self) -> Seq<u8> {
        self.data@
    }

    /// The offset table, one start offset per record.
    pub closed spec fn offsets_seq(self) -> Seq<u64> {
        self.offsets@
    }

    /// The number of records stored.
    pub open spec fn record_count(self) -> nat {
        self.records().len()
    }

    /// Where record `i` ends: the next record's start, or the data length.
    pub closed spec fn end_at(self, i: int) -> int {
        if i + 1 < self.offsets@.len() {
            self.offsets@[i + 1] as int
        } else {
            self.data@.len() as int
        }
    }

    /// The records as byte sequences, in append order.
    pub closed spec fn records(self) -> Seq<Seq<u8>> {
        Seq::new(
            self.offsets@.len() as nat,
            |i: int| self.data@.subrange(self.offsets@[i] as int, self.end_at(i)),
        )
    }

    /// The offset table is within bounds and non-decreasing, starts at zero,
    /// and an empty table means empty data.
    pub closed spec fn wf(self) -> bool {
        &&& forall|i: int|
            0 <= i < self.offsets@.len() ==> (#[trigger] self.offsets@[i]) as int
                <= self.data@.len()
        &&& forall|i: int|
            0 <= i && i + 1 < self.offsets@.len() ==> (#[trigger] self.offsets@[i])
                <= self.offsets@[i + 1]
        &&& (self.offsets@.len() > 0 ==> self.offsets@[0] == 0)
        &&& (self.offsets@.len() == 0 ==> self.data@.len() == 0)
    }

    /// An empty log.
    pub fn new() -> (r: AppendLog)
        ensures
            r.wf(),
            r.records() == Seq::<Seq<u8>>::empty(),
            r.data_bytes() == Seq::<u8>::empty(),
    {
        let r = AppendLog { data: Vec::new(), offsets: Vec::new() };
        proof {
            assert(r.records() =~= Seq::<Seq<u8>>::empty());
            assert(r.data_bytes() =~= Seq::<u8>::empty());
        }
        r
    }

    /// Appends one record: its bytes go to the end of the data stream and its
    /// start offset (the old data length) to the end of the offset table.
    pub fn append(&mut self, data: &[u8]) -> (r: Result<(), AppendLogError>)
        requires
            old(self).wf(),
        ensures
            r is Ok,
            final(self).wf(),
            final(self).records() == old(self).records().push(data@),
            final(self).data_bytes() == old(self).data_bytes() + data@,
            final(self).record_count() == old(self).record_count() + 1,
            old(self).record_count() < usize::MAX,
    {
        let start = self.data.len() as u64;
        push_bytes(&mut self.data, data);
        self.offsets.push(start);
        let count = self.offsets.len();
        proof {
            let pre = *old(self);
            assert(pre.record_count() == count - 1);
            assert forall|i: int| 0 <= i < pre.offsets@.len() implies self.records()[i]
                == pre.records()[i] by {
                assert(self.offsets@[i] == pre.offsets@[i]);
                assert(self.end_at(i) == pre.end_at(i));
                assert(self.data@.subrange(pre.offsets@[i] as int, pre.end_at(i)) =~= pre.data@
                    .subrange(pre.offsets@[i] as int, pre.end_at(i)));
            }
            assert(self.records()[pre.offsets@.len() as int] =~= data@);
            assert(self.records() =~= pre.records().push(data@));
        }
        Ok(())
    }

    /// Reads back the record at `index`; fails with `NotFound` past the end.
    pub fn at(&self, index: u64) -> (r: Result<Vec<u8>, AppendLogError>)
        requires
            self.wf(),
        ensures
            index < self.record_count() <==> r is Ok,
            r is Ok ==> r->Ok_0@ == self.records()[index as int],
            r is Err ==> r->Err_0 == AppendLogError::NotFound,
    {
        let count = self.offsets.len();
        if index >= count as u64 {
            return Err(AppendLogError::NotFound);
        }
        let i = index as usize;
        let dlen = self.data.len();
        let start = self.offsets[i];
        let end: u64 = if i + 1 < count {
            self.offsets[i + 1]
        } else {
            dlen as u64
        };
        proof {
            assert(start as int <= self.data@.len());
            assert(end as int <= self.data@.len());
            assert(start <= end);
        }
        let bytes = copy_range(&self.data, start as usize, end as usize);
        Ok(bytes)
    }

    /// The current data length: the start offset the next append will record.
    pub fn top(&self) -> (r: Result<u64, AppendLogError>)
        ensures
            r is Ok,
            r->Ok_0 == self.data_bytes().len(),
    {
        Ok(self.data.len() as u64)
    }

    /// The number of records stored.
    pub fn count(&self) -> (r: u64)
        ensures
            r == self.record_count(),
            self.record_count() <= usize::MAX,
    {
        self.offsets.len() as u64
    }

    /// Rebuilds a log from the two persisted byte streams, validating that the
    /// index bytes form a well-formed offset table for the data bytes.
    pub fn from_files(data: Vec<u8>, index: Vec<u8>) -> (r: Result<AppendLog, AppendLogError>)
        ensures
            r is Ok <==> index_valid(data@, index@),
            r is Ok ==> r->Ok_0.wf(),
            r is Ok ==> r->Ok_0.data_bytes() == data@,
            r is Ok ==> r->Ok_0.offsets_seq() == spec_parse_index(index@),
            r is Err ==> r->Err_0 == AppendLogError::MalformedIndex,
    {
        let ilen = index.len();
        if ilen % 8 != 0 {
            return Err(AppendLogError::MalformedIndex);
        }
        let n = ilen / 8;
        let dlen = data.len();
        if n == 0 {
            if dlen != 0 {
                return Err(AppendLogError::MalformedIndex);
            }
            let log = AppendLog { data, offsets: Vec::new() };
            proof {
                assert(log.offsets_seq() =~= spec_parse_index(index@));
            }
            return Ok(log);
        }
        let mut offsets: Vec<u64> = Vec::new();
        let mut k: usize = 0;
        while k < n
            invariant
                k <= n,
                n == index@.len() / 8,
                index@.len() % 8 == 0,
                index@.len() == ilen,
                dlen == data@.len(),
                offsets@ == spec_parse_index(index@).take(k as int),
                forall|i: int| 0 <= i < k ==> (#[trigger] offsets@[i]) as int <= data@.len(),
                forall|i: int| 0 <= i && i + 1 < k ==> (#[trigger] offsets@[i]) <= offsets@[i + 1],
                k > 0 ==> offsets@[0] == 0,
            decreases n - k,
        {
            proof {
                assert(k * 8 + 8 <= n * 8) by (nonlinear_arith)
                    requires k < n;
                assert(n * 8 == index@.len());
            }
            let off = u64_from_be_at(&index, k * 8);
            proof {
                assert(spec_parse_index(index@)[k as int] == off);
            }
            if off > dlen as u64 {
                proof {
                    assert(!index_valid(data@, index@));
                }
                return Err(AppendLogError::MalformedIndex);
            }
            if k == 0 {
                if off != 0 {
                    proof {
                        assert(!index_valid(data@, index@));
                    }
                    return Err(AppendLogError::MalformedIndex);
                }
            } else {
                let prev = offsets[k - 1];
                if prev > off {
                    proof {
                        assert(spec_parse_index(index@)[k as int - 1] == prev);
                        assert(!index_valid(data@, index@));
                    }
                    return Err(AppendLogError::MalformedIndex);
                }
            }
            offsets.push(off);
            proof {
                assert(offsets@ =~= spec_parse_index(index@).take(k as int + 1));
            }
            k = k + 1;
        }
        let log = AppendLog { data, offsets };
        proof {
            assert(spec_parse_index(index@).take(n as int) =~= spec_parse_index(index@));
            assert(log.offsets_seq() =~= spec_parse_index(index@));
            assert(index_valid(log.data_bytes(), index@));
        }
        Ok(log)
    }
}

/// The offset table encoded in raw index bytes: one big-endian integer per
/// 8-byte group.
pub open spec fn spec_parse_index(index: Seq<u8>) -> Seq<u64>
    recommends
        index.len() % 8 == 0,
{
    Seq::new((index.len() / 8) as nat, |i: int| spec_u64_from_be_bytes(index.subrange(8 * i, 8 * i + 8)))
}

/// Whether raw index bytes form a valid offset table for the given data bytes:
/// whole 8-byte entries, in-bounds and non-decreasing offsets starting at zero,
/// and no data bytes at all when there is no record.
pub open spec fn index_valid(data: Seq<u8>, index: Seq<u8>) -> bool {
    let offs = spec_parse_index(index);
    &&& index.len() % 8 == 0
    &&& forall|i: int| 0 <= i < offs.len() ==> (#[trigger] offs[i]) as int <= data.len()
    &&& forall|i: int| 0 <= i && i + 1 < offs.len() ==> (#[trigger] offs[i]) <= offs[i + 1]
    &&& (offs.len() > 0 ==> offs[0] == 0)
    &&& (offs.len() == 0 ==> data.len() == 0)
}

/// The total byte length of a record sequence.
pub open spec fn sum_len(rs: Seq<Seq<u8>>) -> nat
    decreases rs.len(),
{
    if rs.len() == 0 {
        0
    } else {
        sum_len(rs.drop_last()) + rs.last().len()
    }
}

/// The total length of the first `n` records telescopes to where record
/// `n - 1` ends, because each record starts where its predecessor ends.
proof fn lemma_sum_len_prefix(log: AppendLog, n: int)
    requires
        log.wf(),
        0 <= n <= log.records().len(),
    ensures
        sum_len(log.records().take(n)) == if n == 0 {
            0
        } else {
            log.end_at(n - 1)
        },
    decreases n,
{
    if n > 0 {
        lemma_sum_len_prefix(log, n - 1);
        let rs = log.records();
        assert(rs.take(n).drop_last() =~= rs.take(n - 1));
        assert(rs.take(n).last() == rs[n - 1]);
        assert(rs[n - 1].len() == log.end_at(n - 1) - log.offsets@[n - 1]);
        if n - 1 > 0 {
            assert(log.end_at(n - 2) == log.offsets@[n - 1]);
        }
    }
}

/// The data length — what `top` reports — always equals the total byte length
/// of the stored records: appends account for every data byte.
pub proof fn lemma_top_is_total_length(log: AppendLog)
    requires
        log.wf(),
    ensures
        log.data_bytes().len() == sum_len(log.records()),
{
    let n = log.records().len() as int;
    lemma_sum_len_prefix(log, n);
    assert(log.records().take(n) =~= log.records());
}

} // verus!
