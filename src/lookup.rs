//! A side index that finds the positions of a key in a sequence of keyed
//! records without walking the whole sequence: the positions are kept in
//! buckets by a hash of the key's UTF-8 bytes.
use std::collections::HashMap;
use vstd::prelude::*;
use vstd::utf8::encode_utf8;

verus! {

broadcast use vstd::std_specs::hash::group_hash_axioms;

pub const HASH_MODULUS: u64 = 4294967291;

/// A hash of bytes, below `HASH_MODULUS`.
pub open spec fn bytes_hash(b: Seq<u8>) -> u64
    decreases b.len(),
{
    if b.len() == 0 {
        0
    } else {
        ((bytes_hash(b.drop_last()) as int * 31 + b.last() as int) % (HASH_MODULUS as int)) as u64
    }
}

/// The hash of a key: that of its UTF-8 encoding.
pub open spec fn key_hash(k: Seq<char>) -> u64 {
    bytes_hash(encode_utf8(k))
}

pub fn hash_key(k: &str) -> (r: u64)
    ensures
        r == key_hash(k@),
{
    let b = k.as_bytes();
    let mut h: u64 = 0;
    let mut i: usize = 0;
    while i < b.len()
        invariant
            i <= b@.len(),
            b@ == encode_utf8(k@),
            h == bytes_hash(b@.subrange(0, i as int)),
            h < HASH_MODULUS,
        decreases b.len() - i,
    {
        assert(b@.subrange(0, i + 1).drop_last() =~= b@.subrange(0, i as int));
        h = (h * 31 + b[i] as u64) % HASH_MODULUS;
        i = i + 1;
    }
    assert(b@.subrange(0, i as int) =~= b@);
    h
}

/// Positions of keys, in buckets by the hash of the key.
pub struct KeyIndex {
    buckets: HashMap<u64, Vec<usize>>,
}

impl KeyIndex {
    /// Every position of `keys` is in the bucket of its key's hash, and every
    /// position in a bucket is one of `keys`.
    pub closed spec fn indexes(&self, keys: Seq<Seq<char>>) -> bool {
        &&& forall|i: int|
            0 <= i < keys.len() ==> self.buckets@.contains_key(key_hash(#[trigger] keys[i]))
                && self.buckets@[key_hash(keys[i])]@.contains(i as usize)
        &&& forall|h: u64, j: usize|
            self.buckets@.contains_key(h) && #[trigger] self.buckets@[h]@.contains(j) ==> j
                < keys.len()
    }

    pub fn new() -> (r: KeyIndex)
        ensures
            r.indexes(Seq::empty()),
    {
        KeyIndex { buckets: HashMap::new() }
    }

    /// Records that position `pos` holds the key `k`.
    pub fn add(&mut self, k: &str, pos: usize, keys: Ghost<Seq<Seq<char>>>)
        requires
            old(self).indexes(keys@),
            pos == keys@.len(),
        ensures
            final(self).indexes(keys@.push(k@)),
    {
        let h = hash_key(k);
        let ghost old_b = self.buckets@;
        let bucket = match self.buckets.remove(&h) {
            Some(mut b) => {
                b.push(pos);
                b
            },
            None => vec![pos],
        };
        let ghost nb = bucket@;
        assert(nb.contains(pos)) by {
            assert(nb[nb.len() - 1] == pos);
        }
        assert(forall|j: usize| old_b.contains_key(h) && old_b[h]@.contains(j) ==> #[trigger] nb.contains(j)) by {
            assert forall|j: usize| old_b.contains_key(h) && old_b[h]@.contains(j) implies #[trigger] nb.contains(j) by {
                let m = choose|m: int| 0 <= m < old_b[h]@.len() && old_b[h]@[m] == j;
                assert(nb[m] == j);
            }
        }
        assert(forall|j: usize| #[trigger] nb.contains(j) ==> j == pos || (old_b.contains_key(h) && old_b[h]@.contains(j))) by {
            assert forall|j: usize| #[trigger] nb.contains(j) implies j == pos || (old_b.contains_key(h) && old_b[h]@.contains(j)) by {
                let m = choose|m: int| 0 <= m < nb.len() && nb[m] == j;
                if m < nb.len() - 1 {
                    assert(old_b[h]@[m] == j);
                }
            }
        }
        self.buckets.insert(h, bucket);
        let ghost nk = keys@.push(k@);
        assert forall|i: int| 0 <= i < nk.len() implies self.buckets@.contains_key(key_hash(#[trigger] nk[i]))
            && self.buckets@[key_hash(nk[i])]@.contains(i as usize) by {
            if i < keys@.len() {
                assert(nk[i] == keys@[i]);
            }
        }
    }

    /// The positions that may hold `k`: all that do are among them.
    pub fn candidates(&self, k: &str, keys: Ghost<Seq<Seq<char>>>) -> (r: Vec<usize>)
        requires
            self.indexes(keys@),
        ensures
            forall|i: int| 0 <= i < keys@.len() && keys@[i] == k@ ==> r@.contains(i as usize),
            forall|m: int| 0 <= m < r@.len() ==> r@[m] < keys@.len(),
    {
        let h = hash_key(k);
        match self.buckets.get(&h) {
            Some(b) => {
                let mut out: Vec<usize> = Vec::new();
                let mut m: usize = 0;
                while m < b.len()
                    invariant
                        m <= b@.len(),
                        self.buckets@.contains_key(h),
                        self.buckets@[h] == *b,
                        out@ == b@.subrange(0, m as int),
                    decreases b.len() - m,
                {
                    out.push(b[m]);
                    m = m + 1;
                }
                assert(out@ =~= b@);
                assert forall|m: int| 0 <= m < out@.len() implies out@[m] < keys@.len() by {
                    assert(self.buckets@[h]@.contains(out@[m]));
                }
                out
            },
            None => Vec::new(),
        }
    }
}

} // verus!
