use vstd::prelude::*;
use crate::HashType;
use crate::hashing::{sha256, sha256_of, pair_hash_spec, zero_digest};

verus! {

/// The content hash of each byte record, in order: the leaves the accumulator
/// absorbs for a record sequence.
pub open spec fn leaf_hashes(rs: Seq<Seq<u8>>) -> Seq<Seq<u8>> {
    Seq::new(rs.len(), |i: int| sha256_of(rs[i]))
}

/// How many bits are set in the binary representation of `n`. A well-formed
/// accumulator holds exactly one frontier digest per set bit of its leaf count.
pub open spec fn count_ones(n: nat) -> nat
    decreases n,
{
    if n == 0 {
        0
    } else {
        n % 2 + count_ones(n / 2)
    }
}

/// The frontier after absorbing one more leaf, as a binary-counter carry chain:
/// while the trailing bit of `count` is set, the newest frontier digest is
/// popped and combined with the carry (the older digest on the left); once a
/// clear bit is reached the carry is pushed as the newest frontier entry.
pub open spec fn spec_accum_push(frontier: Seq<Seq<u8>>, count: nat, carry: Seq<u8>) -> Seq<
    Seq<u8>,
>
    decreases count,
{
    if count % 2 == 1 && frontier.len() > 0 {
        spec_accum_push(frontier.drop_last(), count / 2, pair_hash_spec(frontier.last(), carry))
    } else {
        frontier.push(carry)
    }
}

/// The frontier reached by absorbing `leaves` in order, starting empty.
pub open spec fn accum_of(leaves: Seq<Seq<u8>>) -> Seq<Seq<u8>>
    decreases leaves.len(),
{
    if leaves.len() == 0 {
        Seq::empty()
    } else {
        spec_accum_push(accum_of(leaves.drop_last()), (leaves.len() - 1) as nat, leaves.last())
    }
}

/// Folds a non-empty frontier into one digest: the newest entry seeds the
/// fold, and each older entry is combined with the running digest on the left.
pub open spec fn spec_fold_frontier(frontier: Seq<Seq<u8>>) -> Seq<u8>
    recommends
        frontier.len() >= 1,
    decreases frontier.len(),
{
    if frontier.len() <= 1 {
        frontier[0]
    } else {
        pair_hash_spec(frontier[0], spec_fold_frontier(frontier.drop_first()))
    }
}

/// The root digest certified by a frontier: all zeroes when nothing was absorbed.
pub open spec fn spec_root(frontier: Seq<Seq<u8>>) -> Seq<u8> {
    if frontier.len() == 0 {
        zero_digest()
    } else {
        spec_fold_frontier(frontier)
    }
}

/// The root digest certified for a whole leaf sequence.
pub open spec fn root_of_leaves(leaves: Seq<Seq<u8>>) -> Seq<u8> {
    spec_root(accum_of(leaves))
}

/// A streaming Merkle accumulator: one digest per completed subtree, oldest
/// first, plus the number of leaves absorbed so far.
pub struct MerkleTree {
    nodes: Vec<HashType>,
    size: usize,
}

impl MerkleTree {
    /// The completed-subtree digests, oldest first.
    pub closed spec fn frontier(self) -> Seq<Seq<u8>> {
        Seq::new(self.nodes@.len() as nat, |i: int| self.nodes@[i]@)
    }

    /// The number of leaves absorbed so far.
    pub closed spec fn leaf_count(self) -> nat {
        self.size as nat
    }

    /// The frontier mirrors the binary representation of the leaf count.
    pub closed spec fn wf(self) -> bool {
        self.frontier().len() == count_ones(self.leaf_count())
    }

    pub fn new() -> (r: MerkleTree)
        ensures
            r.wf(),
            r.leaf_count() == 0,
            r.frontier() == Seq::<Seq<u8>>::empty(),
    {
        let r = MerkleTree { nodes: Vec::new(), size: 0 };
        proof {
            assert(r.frontier() =~= Seq::<Seq<u8>>::empty());
        }
        r
    }

    /// Absorbs one leaf digest, carrying completed subtrees upward.
    pub fn append(&mut self, leaf: HashType)
        requires
            old(self).wf(),
            old(self).leaf_count() < usize::MAX,
        ensures
            final(self).wf(),
            final(self).leaf_count() == old(self).leaf_count() + 1,
            final(self).frontier() == spec_accum_push(
                old(self).frontier(),
                old(self).leaf_count(),
                leaf@,
            ),
    {
        let ghost f0 = old(self).frontier();
        let ghost c0 = old(self).leaf_count();
        let mut carry: HashType = leaf;
        let mut i: usize = self.size;
        while i % 2 == 1
            invariant
                self.frontier().len() == count_ones(i as nat),
                count_ones(i as nat + 1) == count_ones(c0 + 1),
                spec_accum_push(self.frontier(), i as nat, carry@) == spec_accum_push(f0, c0, leaf@),
                self.size == old(self).size,
            decreases i,
        {
            proof {
                lemma_count_ones_odd(i as nat);
                assert(count_ones(i as nat) >= 1);
            }
            let ghost fpre = self.frontier();
            let ghost cpre = carry@;
            let top = self.nodes.pop().unwrap();
            proof {
                assert(self.frontier() =~= fpre.drop_last());
                assert(top@ == fpre.last());
                assert(spec_accum_push(fpre, i as nat, cpre) == spec_accum_push(
                    fpre.drop_last(),
                    i as nat / 2,
                    pair_hash_spec(fpre.last(), cpre),
                ));
            }
            carry = hash_pair(&top, &carry);
            i = i / 2;
        }
        let ghost fend = self.frontier();
        self.nodes.push(carry);
        self.size = self.size + 1;
        proof {
            lemma_count_ones_even(i as nat);
            assert(self.frontier() =~= fend.push(carry@));
            assert(spec_accum_push(fend, i as nat, carry@) == fend.push(carry@));
        }
    }

    /// How many leaves were absorbed so far.
    pub fn num_leaves(&self) -> (r: u64)
        ensures
            r == self.leaf_count(),
    {
        self.size as u64
    }

    /// The root digest over everything absorbed so far.
    pub fn root(&self) -> (r: HashType)
        ensures
            r@ == spec_root(self.frontier()),
    {
        let n = self.nodes.len();
        if n == 0 {
            let z = [0u8; 32];
            proof {
                assert(z@ =~= zero_digest());
            }
            return z;
        }
        let mut acc: HashType = self.nodes[n - 1];
        proof {
            assert(self.frontier().subrange(n - 1, n as int)[0] == acc@);
        }
        let mut j: usize = n - 1;
        while j > 0
            invariant
                j < n,
                n == self.nodes@.len(),
                acc@ == spec_fold_frontier(self.frontier().subrange(j as int, n as int)),
            decreases j,
        {
            j = j - 1;
            acc = hash_pair(&self.nodes[j], &acc);
            proof {
                let f = self.frontier();
                let sub = f.subrange(j as int, n as int);
                assert(sub.drop_first() =~= f.subrange(j as int + 1, n as int));
                assert(sub[0] == f[j as int]);
            }
        }
        proof {
            assert(self.frontier().subrange(0, n as int) =~= self.frontier());
        }
        acc
    }
}

/// Combines two digests into their parent node: SHA-256 of the left digest's
/// bytes followed by the right digest's bytes.
pub fn hash_pair(left: &HashType, right: &HashType) -> (r: HashType)
    ensures
        r@ == pair_hash_spec(left@, right@),
{
    let mut payload: Vec<u8> = Vec::new();
    crate::hashing::push_digest(&mut payload, left);
    crate::hashing::push_digest(&mut payload, right);
    proof {
        assert(payload@ =~= left@ + right@);
    }
    let r = sha256(payload.as_slice());
    r
}

/// Absorbing one more record's hash steps the accumulated frontier exactly as
/// one accumulator append does.
pub proof fn lemma_accum_of_push(rs: Seq<Seq<u8>>, b: Seq<u8>)
    ensures
        accum_of(leaf_hashes(rs.push(b))) == spec_accum_push(
            accum_of(leaf_hashes(rs)),
            rs.len(),
            sha256_of(b),
        ),
{
    let lh = leaf_hashes(rs.push(b));
    assert(lh.len() == rs.len() + 1);
    assert(lh.drop_last() =~= leaf_hashes(rs));
    assert(lh.last() == sha256_of(b));
}

proof fn lemma_accum_one(h0: Seq<u8>)
    ensures
        accum_of(seq![h0]) == seq![h0],
{
    let l = seq![h0];
    assert(l.drop_last() =~= Seq::<Seq<u8>>::empty());
    assert(l.last() == h0);
    assert(accum_of(Seq::<Seq<u8>>::empty()) == Seq::<Seq<u8>>::empty());
    assert(accum_of(l) == spec_accum_push(Seq::<Seq<u8>>::empty(), 0, h0));
    assert(accum_of(l) =~= seq![h0]);
}

proof fn lemma_accum_two(h0: Seq<u8>, h1: Seq<u8>)
    ensures
        accum_of(seq![h0, h1]) == seq![pair_hash_spec(h0, h1)],
{
    lemma_accum_one(h0);
    let l = seq![h0, h1];
    assert(l.drop_last() =~= seq![h0]);
    assert(accum_of(l) == spec_accum_push(seq![h0], 1, h1));
    assert(seq![h0].drop_last() =~= Seq::<Seq<u8>>::empty());
    assert(seq![h0].last() == h0);
    assert(spec_accum_push(seq![h0], 1, h1) == spec_accum_push(
        Seq::<Seq<u8>>::empty(),
        0,
        pair_hash_spec(h0, h1),
    ));
    assert(accum_of(l) =~= seq![pair_hash_spec(h0, h1)]);
}

proof fn lemma_accum_three(h0: Seq<u8>, h1: Seq<u8>, h2: Seq<u8>)
    ensures
        accum_of(seq![h0, h1, h2]) == seq![pair_hash_spec(h0, h1), h2],
{
    lemma_accum_two(h0, h1);
    let l = seq![h0, h1, h2];
    assert(l.drop_last() =~= seq![h0, h1]);
    assert(accum_of(l) == spec_accum_push(seq![pair_hash_spec(h0, h1)], 2, h2));
    assert(accum_of(l) =~= seq![pair_hash_spec(h0, h1), h2]);
}

proof fn lemma_accum_four(h0: Seq<u8>, h1: Seq<u8>, h2: Seq<u8>, h3: Seq<u8>)
    ensures
        accum_of(seq![h0, h1, h2, h3]) == seq![
            pair_hash_spec(pair_hash_spec(h0, h1), pair_hash_spec(h2, h3)),
        ],
{
    lemma_accum_three(h0, h1, h2);
    let p01 = pair_hash_spec(h0, h1);
    let p23 = pair_hash_spec(h2, h3);
    let l = seq![h0, h1, h2, h3];
    assert(l.drop_last() =~= seq![h0, h1, h2]);
    assert(accum_of(l) == spec_accum_push(seq![p01, h2], 3, h3));
    assert(seq![p01, h2].drop_last() =~= seq![p01]);
    assert(seq![p01, h2].last() == h2);
    assert(spec_accum_push(seq![p01, h2], 3, h3) == spec_accum_push(seq![p01], 1, p23));
    assert(seq![p01].drop_last() =~= Seq::<Seq<u8>>::empty());
    assert(seq![p01].last() == p01);
    assert(spec_accum_push(seq![p01], 1, p23) == spec_accum_push(
        Seq::<Seq<u8>>::empty(),
        0,
        pair_hash_spec(p01, p23),
    ));
    assert(accum_of(l) =~= seq![pair_hash_spec(p01, p23)]);
}

/// One leaf: the root is that leaf itself.
pub proof fn lemma_root_one_leaf(h0: Seq<u8>)
    ensures
        root_of_leaves(seq![h0]) == h0,
{
    lemma_accum_one(h0);
}

/// Two leaves: the root is their pair hash.
pub proof fn lemma_root_two_leaves(h0: Seq<u8>, h1: Seq<u8>)
    ensures
        root_of_leaves(seq![h0, h1]) == pair_hash_spec(h0, h1),
{
    lemma_accum_two(h0, h1);
}

/// Three leaves: the completed pair is combined with the lone newest leaf,
/// older digest on the left.
pub proof fn lemma_root_three_leaves(h0: Seq<u8>, h1: Seq<u8>, h2: Seq<u8>)
    ensures
        root_of_leaves(seq![h0, h1, h2]) == pair_hash_spec(pair_hash_spec(h0, h1), h2),
{
    lemma_accum_three(h0, h1, h2);
    let p01 = pair_hash_spec(h0, h1);
    let f = seq![p01, h2];
    assert(f.drop_first() =~= seq![h2]);
    assert(f[0] == p01);
    assert(spec_fold_frontier(seq![h2]) == h2);
    assert(spec_fold_frontier(f) == pair_hash_spec(p01, h2));
}

/// Four leaves: a perfect tree whose root pairs the two subtree pair hashes.
pub proof fn lemma_root_four_leaves(h0: Seq<u8>, h1: Seq<u8>, h2: Seq<u8>, h3: Seq<u8>)
    ensures
        root_of_leaves(seq![h0, h1, h2, h3]) == pair_hash_spec(
            pair_hash_spec(h0, h1),
            pair_hash_spec(h2, h3),
        ),
{
    lemma_accum_four(h0, h1, h2, h3);
}

/// Five leaves: the perfect four-leaf subtree digest is combined with the
/// newest lone leaf, older digest on the left.
pub proof fn lemma_root_five_leaves(h0: Seq<u8>, h1: Seq<u8>, h2: Seq<u8>, h3: Seq<u8>, h4: Seq<u8>)
    ensures
        root_of_leaves(seq![h0, h1, h2, h3, h4]) == pair_hash_spec(
            pair_hash_spec(pair_hash_spec(h0, h1), pair_hash_spec(h2, h3)),
            h4,
        ),
{
    lemma_accum_four(h0, h1, h2, h3);
    let quad = pair_hash_spec(pair_hash_spec(h0, h1), pair_hash_spec(h2, h3));
    let l = seq![h0, h1, h2, h3, h4];
    assert(l.drop_last() =~= seq![h0, h1, h2, h3]);
    assert(accum_of(l) == spec_accum_push(seq![quad], 4, h4));
    assert(accum_of(l) =~= seq![quad, h4]);
    let f = seq![quad, h4];
    assert(f.drop_first() =~= seq![h4]);
    assert(f[0] == quad);
    assert(spec_fold_frontier(seq![h4]) == h4);
    assert(spec_fold_frontier(f) == pair_hash_spec(quad, h4));
}

proof fn lemma_count_ones_odd(n: nat)
    requires
        n % 2 == 1,
    ensures
        count_ones(n) == count_ones(n / 2) + 1,
        count_ones(n + 1) == count_ones(n / 2 + 1),
{
    assert(n == 2 * (n / 2) + 1);
    assert((n + 1) % 2 == 0);
    assert((n + 1) / 2 == n / 2 + 1);
}

proof fn lemma_count_ones_even(n: nat)
    requires
        n % 2 == 0,
    ensures
        count_ones(n + 1) == count_ones(n) + 1,
{
    assert(n == 2 * (n / 2));
    assert((n + 1) % 2 == 1);
    assert((n + 1) / 2 == n / 2);
}

} // verus!
