//! Keyed indices: a sequence of records with pairwise distinct keys, where
//! a later record replaces an earlier one with the same key.
use crate::fields::same_text;
use crate::lookup::KeyIndex;
use vstd::prelude::*;

verus! {

/// A record with a textual key.
pub trait Keyed {
    spec fn spec_key(&self) -> Seq<char>;

    fn key(&self) -> (r: &str)
        ensures
            r@ == self.spec_key(),
    ;
}

/// The position of the first record with key `k`, from position `i` on.
pub open spec fn find_from<T: Keyed>(s: Seq<T>, k: Seq<char>, i: int) -> Option<int>
    decreases s.len() - i,
{
    if i < 0 || i >= s.len() {
        None
    } else if s[i].spec_key() == k {
        Some(i)
    } else {
        find_from(s, k, i + 1)
    }
}

pub open spec fn find_key<T: Keyed>(s: Seq<T>, k: Seq<char>) -> Option<int> {
    find_from(s, k, 0)
}

pub open spec fn has_key<T: Keyed>(s: Seq<T>, k: Seq<char>) -> bool {
    exists|i: int| 0 <= i < s.len() && (#[trigger] s[i]).spec_key() == k
}

pub open spec fn keys_distinct<T: Keyed>(s: Seq<T>) -> bool {
    forall|i: int, j: int|
        0 <= i < s.len() && 0 <= j < s.len() && i != j ==> (#[trigger] s[i]).spec_key() != (
        #[trigger] s[j]).spec_key()
}

/// Puts `t` in place of the record with its key, or after all records where none has it.
pub open spec fn upsert<T: Keyed>(s: Seq<T>, t: T) -> Seq<T> {
    match find_key(s, t.spec_key()) {
        Some(i) => s.update(i, t),
        None => s.push(t),
    }
}

/// The index of a sequence of records: each key once, in the order in which
/// keys first appear, with the last record that has it.
pub open spec fn index_all<T: Keyed>(s: Seq<T>) -> Seq<T>
    decreases s.len(),
{
    if s.len() == 0 {
        Seq::empty()
    } else {
        upsert(index_all(s.drop_last()), s.last())
    }
}

pub proof fn lemma_find_from<T: Keyed>(s: Seq<T>, k: Seq<char>, i: int)
    requires
        0 <= i,
    ensures
        match find_from(s, k, i) {
            Some(j) => i <= j < s.len() && s[j].spec_key() == k && forall|m: int|
                i <= m < j ==> (#[trigger] s[m]).spec_key() != k,
            None => forall|m: int| i <= m < s.len() ==> (#[trigger] s[m]).spec_key() != k,
        },
    decreases s.len() - i,
{
    if i < s.len() {
        lemma_find_from(s, k, i + 1);
    }
}

pub proof fn lemma_find_key<T: Keyed>(s: Seq<T>, k: Seq<char>)
    ensures
        find_key(s, k) is Some <==> has_key(s, k),
        find_key(s, k) matches Some(j) ==> 0 <= j < s.len() && s[j].spec_key() == k,
{
    lemma_find_from(s, k, 0);
}

pub proof fn lemma_upsert<T: Keyed>(s: Seq<T>, t: T)
    requires
        keys_distinct(s),
    ensures
        keys_distinct(upsert(s, t)),
        has_key(upsert(s, t), t.spec_key()),
        forall|k: Seq<char>| #[trigger]
            has_key(upsert(s, t), k) <==> (has_key(s, k) || k == t.spec_key()),
        forall|x: T| #[trigger]
            upsert(s, t).contains(x) ==> (s.contains(x) || x == t),
{
    lemma_find_key(s, t.spec_key());
    let u = upsert(s, t);
    match find_key(s, t.spec_key()) {
        Some(i) => {
            assert(u[i] == t);
            assert forall|k: Seq<char>| #[trigger] has_key(u, k) <==> (has_key(s, k) || k == t.spec_key()) by {
                if has_key(s, k) {
                    let j = choose|j: int| 0 <= j < s.len() && (#[trigger] s[j]).spec_key() == k;
                    assert(u[j].spec_key() == k);
                }
                if has_key(u, k) {
                    let j = choose|j: int| 0 <= j < u.len() && (#[trigger] u[j]).spec_key() == k;
                    if j != i {
                        assert(s[j] == u[j]);
                    }
                }
            }
            assert forall|x: T| u.contains(x) implies (s.contains(x) || x == t) by {
                let j = choose|j: int| 0 <= j < u.len() && u[j] == x;
                if j != i {
                    assert(s[j] == x);
                }
            }
        },
        None => {
            assert(u[s.len() as int] == t);
            assert forall|k: Seq<char>| #[trigger] has_key(u, k) <==> (has_key(s, k) || k == t.spec_key()) by {
                if has_key(s, k) {
                    let j = choose|j: int| 0 <= j < s.len() && (#[trigger] s[j]).spec_key() == k;
                    assert(u[j] == s[j]);
                }
                if has_key(u, k) {
                    let j = choose|j: int| 0 <= j < u.len() && (#[trigger] u[j]).spec_key() == k;
                    if j < s.len() {
                        assert(s[j] == u[j]);
                    }
                }
            }
            assert forall|x: T| u.contains(x) implies (s.contains(x) || x == t) by {
                let j = choose|j: int| 0 <= j < u.len() && u[j] == x;
                if j < s.len() {
                    assert(s[j] == x);
                }
            }
        },
    }
}

/// The index holds each key of the records once, and only records of the input.
pub proof fn lemma_index_all<T: Keyed>(s: Seq<T>)
    ensures
        keys_distinct(index_all(s)),
        forall|k: Seq<char>| #[trigger] has_key(index_all(s), k) <==> has_key(s, k),
        forall|x: T| #[trigger] index_all(s).contains(x) ==> s.contains(x),
    decreases s.len(),
{
    if s.len() > 0 {
        let p = s.drop_last();
        lemma_index_all(p);
        lemma_upsert(index_all(p), s.last());
        assert forall|k: Seq<char>| #[trigger] has_key(index_all(s), k) <==> has_key(s, k) by {
            if has_key(p, k) {
                let j = choose|j: int| 0 <= j < p.len() && (#[trigger] p[j]).spec_key() == k;
                assert(s[j] == p[j]);
            }
            if has_key(s, k) {
                let j = choose|j: int| 0 <= j < s.len() && (#[trigger] s[j]).spec_key() == k;
                if j < p.len() {
                    assert(s[j] == p[j]);
                }
            }
        }
        assert forall|x: T| index_all(s).contains(x) implies s.contains(x) by {
            if p.contains(x) {
                let j = choose|j: int| 0 <= j < p.len() && p[j] == x;
                assert(s[j] == x);
            } else {
                assert(s[s.len() - 1] == x);
            }
        }
    }
}

pub fn position_of<T: Keyed>(v: &Vec<T>, k: &str) -> (r: Option<usize>)
    ensures
        match r {
            Some(i) => find_key(v@, k@) == Some(i as int),
            None => find_key(v@, k@) is None,
        },
{
    let mut i: usize = 0;
    while i < v.len()
        invariant
            i <= v.len(),
            find_key(v@, k@) == find_from(v@, k@, i as int),
        decreases v.len() - i,
    {
        if same_text(v[i].key(), k) {
            return Some(i);
        }
        i = i + 1;
    }
    None
}

pub fn contains_key<T: Keyed>(v: &Vec<T>, k: &str) -> (r: bool)
    ensures
        r == has_key(v@, k@),
{
    proof {
        lemma_find_key(v@, k@);
    }
    position_of(v, k).is_some()
}

/// The record with key `k`, if there is one.
pub fn get_keyed<'a, T: Keyed>(v: &'a Vec<T>, k: &str) -> (r: Option<&'a T>)
    ensures
        match r {
            Some(t) => find_key(v@, k@) matches Some(i) && *t == v@[i],
            None => !has_key(v@, k@),
        },
{
    proof {
        lemma_find_key(v@, k@);
    }
    match position_of(v, k) {
        Some(i) => Some(&v[i]),
        None => None,
    }
}

pub fn insert_keyed<T: Keyed>(v: &mut Vec<T>, t: T)
    ensures
        final(v)@ == upsert(old(v)@, t),
{
    match position_of(v, t.key()) {
        Some(i) => {
            proof {
                lemma_find_key(v@, t.spec_key());
            }
            v.set(i, t);
        },
        None => v.push(t),
    }
}

/// The same items in the opposite order.
pub fn reversed<T>(items: Vec<T>) -> (r: Vec<T>)
    ensures
        r@.len() == items@.len(),
        forall|j: int| 0 <= j < r@.len() ==> r@[j] == items@[items@.len() - 1 - j],
{
    let ghost s = items@;
    let mut rest = items;
    let mut out: Vec<T> = Vec::new();
    while rest.len() > 0
        invariant
            out@.len() + rest@.len() == s.len(),
            rest@ == s.subrange(0, rest@.len() as int),
            forall|j: int| 0 <= j < out@.len() ==> out@[j] == s[s.len() - 1 - j],
        decreases rest.len(),
    {
        let t = rest.pop().unwrap();
        out.push(t);
    }
    out
}

/// The keys of the records, in order.
pub open spec fn keys_of<T: Keyed>(s: Seq<T>) -> Seq<Seq<char>> {
    s.map_values(|t: T| t.spec_key())
}

/// `position_of`, through a side index of the keys.
pub fn position_indexed<T: Keyed>(v: &Vec<T>, idx: &KeyIndex, k: &str) -> (r: Option<usize>)
    requires
        idx.indexes(keys_of(v@)),
        keys_distinct(v@),
    ensures
        match r {
            Some(i) => find_key(v@, k@) == Some(i as int),
            None => find_key(v@, k@) is None,
        },
{
    let ghost keys = keys_of(v@);
    let cands = idx.candidates(k, Ghost(keys));
    proof {
        lemma_find_key(v@, k@);
    }
    let mut m: usize = 0;
    while m < cands.len()
        invariant
            m <= cands@.len(),
            keys == keys_of(v@),
            keys.len() == v@.len(),
            keys_distinct(v@),
            forall|i: int| 0 <= i < keys.len() && keys[i] == k@ ==> cands@.contains(i as usize),
            forall|n: int| 0 <= n < cands@.len() ==> cands@[n] < keys.len(),
            forall|n: int| 0 <= n < m ==> v@[cands@[n] as int].spec_key() != k@,
        decreases cands.len() - m,
    {
        let j = cands[m];
        if same_text(v[j].key(), k) {
            proof {
                lemma_find_key(v@, k@);
                assert(v@[j as int].spec_key() == k@);
                assert(has_key(v@, k@));
                let f = find_key(v@, k@)->Some_0;
                assert(v@[f].spec_key() == k@);
                if f != j as int {
                    assert(v@[f].spec_key() != v@[j as int].spec_key());
                }
            }
            return Some(j);
        }
        m = m + 1;
    }
    let total = v.len();
    proof {
        lemma_find_key(v@, k@);
        if has_key(v@, k@) {
            let i = choose|i: int| 0 <= i < v@.len() && (#[trigger] v@[i]).spec_key() == k@;
            assert(keys[i] == k@);
            assert(cands@.contains(i as usize));
            let n = choose|n: int| 0 <= n < cands@.len() && cands@[n] == i as usize;
            assert(m == cands@.len());
            assert(i < total);
            assert(cands@[n] as int == i);
            assert(v@[cands@[n] as int].spec_key() != k@);
            assert(false);
        }
    }
    None
}

/// `contains_key`, through a side index of the keys.
pub fn contains_indexed<T: Keyed>(v: &Vec<T>, idx: &KeyIndex, k: &str) -> (r: bool)
    requires
        idx.indexes(keys_of(v@)),
    ensures
        r == has_key(v@, k@),
{
    let ghost keys = keys_of(v@);
    let cands = idx.candidates(k, Ghost(keys));
    let mut m: usize = 0;
    while m < cands.len()
        invariant
            m <= cands@.len(),
            keys == keys_of(v@),
            keys.len() == v@.len(),
            forall|i: int| 0 <= i < keys.len() && keys[i] == k@ ==> cands@.contains(i as usize),
            forall|n: int| 0 <= n < cands@.len() ==> cands@[n] < keys.len(),
            forall|n: int| 0 <= n < m ==> v@[cands@[n] as int].spec_key() != k@,
        decreases cands.len() - m,
    {
        let j = cands[m];
        if same_text(v[j].key(), k) {
            assert(v@[j as int].spec_key() == k@);
            return true;
        }
        m = m + 1;
    }
    let total = v.len();
    proof {
        if has_key(v@, k@) {
            let i = choose|i: int| 0 <= i < v@.len() && (#[trigger] v@[i]).spec_key() == k@;
            assert(keys[i] == k@);
            assert(cands@.contains(i as usize));
            let n = choose|n: int| 0 <= n < cands@.len() && cands@[n] == i as usize;
            assert(i < total);
            assert(cands@[n] as int == i);
            assert(v@[cands@[n] as int].spec_key() != k@);
        }
    }
    false
}

/// A side index of the keys of `v`.
pub fn build_index<T: Keyed>(v: &Vec<T>) -> (r: KeyIndex)
    ensures
        r.indexes(keys_of(v@)),
{
    let mut idx = KeyIndex::new();
    let mut i: usize = 0;
    assert(keys_of(v@).subrange(0, 0) =~= Seq::<Seq<char>>::empty());
    while i < v.len()
        invariant
            i <= v.len(),
            idx.indexes(keys_of(v@).subrange(0, i as int)),
        decreases v.len() - i,
    {
        idx.add(v[i].key(), i, Ghost(keys_of(v@).subrange(0, i as int)));
        assert(keys_of(v@).subrange(0, i as int).push(v@[i as int].spec_key()) =~= keys_of(v@).subrange(
            0,
            i + 1,
        ));
        i = i + 1;
    }
    assert(keys_of(v@).subrange(0, i as int) =~= keys_of(v@));
    idx
}

/// `insert_keyed`, keeping the side index of the keys up to date.
pub fn insert_indexed<T: Keyed>(v: &mut Vec<T>, idx: &mut KeyIndex, t: T)
    requires
        old(idx).indexes(keys_of(old(v)@)),
        keys_distinct(old(v)@),
    ensures
        final(v)@ == upsert(old(v)@, t),
        final(idx).indexes(keys_of(final(v)@)),
        keys_distinct(final(v)@),
{
    proof {
        lemma_upsert(v@, t);
        lemma_find_key(v@, t.spec_key());
    }
    match position_indexed(v, idx, t.key()) {
        Some(i) => {
            let ghost before = v@;
            v.set(i, t);
            assert(keys_of(v@) =~= keys_of(before));
        },
        None => {
            let ghost before = v@;
            let pos = v.len();
            idx.add(t.key(), pos, Ghost(keys_of(before)));
            v.push(t);
            assert(keys_of(v@) =~= keys_of(before).push(t.spec_key()));
        },
    }
}

/// Builds the index of `items`.
pub fn index_records<T: Keyed>(items: Vec<T>) -> (r: Vec<T>)
    ensures
        r@ == index_all(items@),
{
    let ghost s = items@;
    let n = items.len();
    let mut out: Vec<T> = Vec::new();
    let mut idx = KeyIndex::new();
    let mut rest = reversed(items);
    assert(s.subrange(0, 0) =~= Seq::<T>::empty());
    assert(keys_of(out@) =~= Seq::<Seq<char>>::empty());
    let mut i: usize = 0;
    while rest.len() > 0
        invariant
            i + rest.len() == s.len(),
            s.len() == n,
            forall|j: int| 0 <= j < rest.len() ==> rest@[j] == s[s.len() - 1 - j],
            out@ == index_all(s.subrange(0, i as int)),
            idx.indexes(keys_of(out@)),
            keys_distinct(out@),
        decreases rest.len(),
    {
        let t = rest.pop().unwrap();
        assert(s.subrange(0, i + 1).drop_last() =~= s.subrange(0, i as int));
        insert_indexed(&mut out, &mut idx, t);
        i = i + 1;
    }
    assert(s.subrange(0, i as int) =~= s);
    out
}

} // verus!
