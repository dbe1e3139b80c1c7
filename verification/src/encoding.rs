use vstd::prelude::*;

verus! {

/// The 8-byte big-endian encoding of a 64-bit integer: most significant byte first.
pub open spec fn spec_u64_to_be_bytes(x: u64) -> Seq<u8> {
    seq![
        ((x >> 56) & 0xff) as u8,
        ((x >> 48) & 0xff) as u8,
        ((x >> 40) & 0xff) as u8,
        ((x >> 32) & 0xff) as u8,
        ((x >> 24) & 0xff) as u8,
        ((x >> 16) & 0xff) as u8,
        ((x >> 8) & 0xff) as u8,
        (x & 0xff) as u8,
    ]
}

/// The integer read from 8 bytes in big-endian order.
pub open spec fn spec_u64_from_be_bytes(s: Seq<u8>) -> u64
    recommends
        s.len() == 8,
{
    (((s[0] as u64) << 56) | ((s[1] as u64) << 48) | ((s[2] as u64) << 40) | ((s[3] as u64) << 32)
        | ((s[4] as u64) << 24) | ((s[5] as u64) << 16) | ((s[6] as u64) << 8) | (s[7] as u64))
}

/// Reading back the big-endian encoding of an integer recovers it exactly.
pub proof fn lemma_u64_be_round_trip(x: u64)
    ensures
        spec_u64_to_be_bytes(x).len() == 8,
        spec_u64_from_be_bytes(spec_u64_to_be_bytes(x)) == x,
{
    assert((x >> 56) & 0xff < 256 && (x >> 48) & 0xff < 256 && (x >> 40) & 0xff < 256 && (x >> 32)
        & 0xff < 256 && (x >> 24) & 0xff < 256 && (x >> 16) & 0xff < 256 && (x >> 8) & 0xff < 256
        && x & 0xff < 256) by (bit_vector);
    assert((((((x >> 56) & 0xff) as u64) << 56) | ((((x >> 48) & 0xff) as u64) << 48) | ((((x >> 40)
        & 0xff) as u64) << 40) | ((((x >> 32) & 0xff) as u64) << 32) | ((((x >> 24) & 0xff)
        as u64) << 24) | ((((x >> 16) & 0xff) as u64) << 16) | ((((x >> 8) & 0xff) as u64) << 8) | (
    (x & 0xff) as u64)) == x) by (bit_vector);
}

/// Builds the 8 big-endian bytes of an integer.
pub fn u64_to_be_bytes(x: u64) -> (s: Vec<u8>)
    ensures
        s@ == spec_u64_to_be_bytes(x),
        s@.len() == 8,
{
    proof {
        assert((x >> 56) & 0xff < 256 && (x >> 48) & 0xff < 256 && (x >> 40) & 0xff < 256 && (x
            >> 32) & 0xff < 256 && (x >> 24) & 0xff < 256 && (x >> 16) & 0xff < 256 && (x >> 8)
            & 0xff < 256 && x & 0xff < 256) by (bit_vector);
    }
    let mut s: Vec<u8> = Vec::new();
    s.push(((x >> 56) & 0xff) as u8);
    s.push(((x >> 48) & 0xff) as u8);
    s.push(((x >> 40) & 0xff) as u8);
    s.push(((x >> 32) & 0xff) as u8);
    s.push(((x >> 24) & 0xff) as u8);
    s.push(((x >> 16) & 0xff) as u8);
    s.push(((x >> 8) & 0xff) as u8);
    s.push((x & 0xff) as u8);
    proof {
        assert(s@ =~= spec_u64_to_be_bytes(x));
    }
    s
}

/// Reads the big-endian integer stored at byte position `off`.
pub fn u64_from_be_at(bytes: &Vec<u8>, off: usize) -> (x: u64)
    requires
        off + 8 <= bytes@.len(),
    ensures
        x == spec_u64_from_be_bytes(bytes@.subrange(off as int, off as int + 8)),
{
    let n = bytes.len();
    assert(off + 8 <= n);
    let x = (((bytes[off] as u64) << 56) | ((bytes[off + 1] as u64) << 48) | ((bytes[off + 2]
        as u64) << 40) | ((bytes[off + 3] as u64) << 32) | ((bytes[off + 4] as u64) << 24) | ((
    bytes[off + 5] as u64) << 16) | ((bytes[off + 6] as u64) << 8) | (bytes[off + 7] as u64));
    proof {
        let s = bytes@.subrange(off as int, off as int + 8);
        assert(s[0] == bytes@[off as int]);
        assert(s[1] == bytes@[off as int + 1]);
        assert(s[2] == bytes@[off as int + 2]);
        assert(s[3] == bytes@[off as int + 3]);
        assert(s[4] == bytes@[off as int + 4]);
        assert(s[5] == bytes@[off as int + 5]);
        assert(s[6] == bytes@[off as int + 6]);
        assert(s[7] == bytes@[off as int + 7]);
    }
    x
}

/// Appends every byte of `src` to `dst`, in order.
pub fn push_bytes(dst: &mut Vec<u8>, src: &[u8])
    ensures
        final(dst)@ == old(dst)@ + src@,
{
    let n = src.len();
    let mut j: usize = 0;
    proof {
        assert(dst@ =~= dst@ + src@.subrange(0, 0));
    }
    while j < n
        invariant
            j <= n,
            n == src@.len(),
            dst@ == old(dst)@ + src@.subrange(0, j as int),
        decreases n - j,
    {
        dst.push(src[j]);
        proof {
            assert(old(dst)@ + src@.subrange(0, j as int + 1) =~= (old(dst)@ + src@.subrange(
                0,
                j as int,
            )).push(src@[j as int]));
        }
        j = j + 1;
    }
    proof {
        assert(src@.subrange(0, n as int) =~= src@);
    }
}

/// Copies the byte range `[start, end)` out of `src`.
pub fn copy_range(src: &Vec<u8>, start: usize, end: usize) -> (r: Vec<u8>)
    requires
        start <= end,
        end <= src@.len(),
    ensures
        r@ == src@.subrange(start as int, end as int),
{
    let mut r: Vec<u8> = Vec::new();
    let mut j: usize = start;
    while j < end
        invariant
            start <= j <= end,
            end <= src@.len(),
            r@ == src@.subrange(start as int, j as int),
        decreases end - j,
    {
        r.push(src[j]);
        proof {
            assert(src@.subrange(start as int, j as int + 1) =~= src@.subrange(
                start as int,
                j as int,
            ).push(src@[j as int]));
        }
        j = j + 1;
    }
    r
}

} // verus!
