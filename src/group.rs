//! Two-level indices: records grouped under a textual id, each group kept
//! once, in the order in which ids first appear.
use crate::fields::same_text;
use crate::lookup::KeyIndex;
use vstd::prelude::*;

verus! {

/// How a record joins the records already in its group.
pub trait Slot: Sized {
    spec fn spec_put(items: Seq<Self>, t: Self) -> Seq<Self>;

    fn put(items: &mut Vec<Self>, t: Self)
        ensures
            final(items)@ == Self::spec_put(old(items)@, t),
    ;

    /// A group holds only the records that were put into it.
    proof fn lemma_put_contains(items: Seq<Self>, t: Self)
        ensures
            forall|x: Self| #[trigger] Self::spec_put(items, t).contains(x) ==> items.contains(x) || x == t,
    ;
}

/// Each record in a group after an addition was there before, or is the
/// added one, in the group of its id.
pub proof fn lemma_group_items<T: Slot>(gs: Seq<GroupView<T>>, k: Seq<char>, t: T)
    ensures
        forall|i: int, x: T|
            0 <= i < add_to_groups(gs, k, t).len() && #[trigger] add_to_groups(gs, k, t)[i].1.contains(x)
                ==> (i < gs.len() && gs[i].0 == add_to_groups(gs, k, t)[i].0 && gs[i].1.contains(x)) || (x == t
                && add_to_groups(gs, k, t)[i].0 == k),
{
    lemma_find_group(gs, k);
    let u = add_to_groups(gs, k, t);
    match find_group(gs, k) {
        Some(j) => {
            T::lemma_put_contains(gs[j].1, t);
        },
        None => {
            T::lemma_put_contains(Seq::empty(), t);
        },
    }
}

/// The records that share one id.
#[derive(Debug)]
pub struct Group<T> {
    pub id: String,
    pub items: Vec<T>,
}

/// A group as its id and its records.
pub type GroupView<T> = (Seq<char>, Seq<T>);

pub open spec fn group_view<T>(g: Group<T>) -> GroupView<T> {
    (g.id@, g.items@)
}

pub open spec fn groups_view<T>(gs: Seq<Group<T>>) -> Seq<GroupView<T>> {
    gs.map_values(|g: Group<T>| group_view(g))
}

/// The position of the group with id `k`, from position `i` on.
pub open spec fn find_group_from<T>(gs: Seq<GroupView<T>>, k: Seq<char>, i: int) -> Option<int>
    decreases gs.len() - i,
{
    if i < 0 || i >= gs.len() {
        None
    } else if gs[i].0 == k {
        Some(i)
    } else {
        find_group_from(gs, k, i + 1)
    }
}

pub open spec fn find_group<T>(gs: Seq<GroupView<T>>, k: Seq<char>) -> Option<int> {
    find_group_from(gs, k, 0)
}

pub open spec fn has_group<T>(gs: Seq<GroupView<T>>, k: Seq<char>) -> bool {
    exists|i: int| 0 <= i < gs.len() && (#[trigger] gs[i]).0 == k
}

pub open spec fn ids_distinct<T>(gs: Seq<GroupView<T>>) -> bool {
    forall|i: int, j: int|
        0 <= i < gs.len() && 0 <= j < gs.len() && i != j ==> (#[trigger] gs[i]).0 != (
        #[trigger] gs[j]).0
}

/// Puts `t` into the group with id `k`, which is made after all others where
/// there is none yet.
pub open spec fn add_to_groups<T: Slot>(gs: Seq<GroupView<T>>, k: Seq<char>, t: T) -> Seq<
    GroupView<T>,
> {
    match find_group(gs, k) {
        Some(i) => gs.update(i, (k, T::spec_put(gs[i].1, t))),
        None => gs.push((k, T::spec_put(Seq::empty(), t))),
    }
}

pub proof fn lemma_find_group_from<T>(gs: Seq<GroupView<T>>, k: Seq<char>, i: int)
    requires
        0 <= i,
    ensures
        match find_group_from(gs, k, i) {
            Some(j) => i <= j < gs.len() && gs[j].0 == k,
            None => forall|m: int| i <= m < gs.len() ==> (#[trigger] gs[m]).0 != k,
        },
    decreases gs.len() - i,
{
    if i < gs.len() {
        lemma_find_group_from(gs, k, i + 1);
    }
}

pub proof fn lemma_find_group<T>(gs: Seq<GroupView<T>>, k: Seq<char>)
    ensures
        find_group(gs, k) is Some <==> has_group(gs, k),
        find_group(gs, k) matches Some(j) ==> 0 <= j < gs.len() && gs[j].0 == k,
{
    lemma_find_group_from(gs, k, 0);
}

/// Adding a record keeps the ids distinct, adds its id, and leaves every
/// other group as it was.
pub proof fn lemma_add_to_groups<T: Slot>(gs: Seq<GroupView<T>>, k: Seq<char>, t: T)
    requires
        ids_distinct(gs),
    ensures
        ids_distinct(add_to_groups(gs, k, t)),
        forall|m: Seq<char>| #[trigger]
            has_group(add_to_groups(gs, k, t), m) <==> (has_group(gs, m) || m == k),
        forall|i: int|
            0 <= i < add_to_groups(gs, k, t).len() && (#[trigger] add_to_groups(gs, k, t)[i]).0
                != k ==> i < gs.len() && gs[i] == add_to_groups(gs, k, t)[i],
        forall|i: int|
            0 <= i < add_to_groups(gs, k, t).len() && (#[trigger] add_to_groups(gs, k, t)[i]).0
                == k ==> add_to_groups(gs, k, t)[i].1 == T::spec_put(
                if i < gs.len() {
                    gs[i].1
                } else {
                    Seq::empty()
                },
                t,
            ),
        forall|i: int| 0 <= i < gs.len() ==> (#[trigger] add_to_groups(gs, k, t)[i]).0 == gs[i].0,
        add_to_groups(gs, k, t).len() == gs.len() + if has_group(gs, k) {
            0int
        } else {
            1int
        },
{
    lemma_find_group(gs, k);
    let u = add_to_groups(gs, k, t);
    match find_group(gs, k) {
        Some(i) => {
            assert forall|m: Seq<char>| #[trigger] has_group(u, m) <==> (has_group(gs, m) || m == k) by {
                if has_group(gs, m) {
                    let j = choose|j: int| 0 <= j < gs.len() && (#[trigger] gs[j]).0 == m;
                    assert(u[j].0 == m);
                }
                if has_group(u, m) {
                    let j = choose|j: int| 0 <= j < u.len() && (#[trigger] u[j]).0 == m;
                    if j != i {
                        assert(gs[j] == u[j]);
                    }
                }
                if m == k {
                    assert(u[i].0 == m);
                }
            }
        },
        None => {
            assert forall|m: Seq<char>| #[trigger] has_group(u, m) <==> (has_group(gs, m) || m == k) by {
                if has_group(gs, m) {
                    let j = choose|j: int| 0 <= j < gs.len() && (#[trigger] gs[j]).0 == m;
                    assert(u[j] == gs[j]);
                }
                if has_group(u, m) {
                    let j = choose|j: int| 0 <= j < u.len() && (#[trigger] u[j]).0 == m;
                    if j < gs.len() {
                        assert(gs[j] == u[j]);
                    }
                }
                if m == k {
                    assert(u[gs.len() as int].0 == m);
                }
            }
        },
    }
}

/// An addition keeps the id of every group in its place, and a new group
/// comes last.
pub proof fn lemma_group_ids<T: Slot>(gs: Seq<GroupView<T>>, k: Seq<char>, t: T)
    ensures
        forall|i: int|
            0 <= i < add_to_groups(gs, k, t).len() ==> (#[trigger] add_to_groups(gs, k, t)[i]).0 == if i
                < gs.len() {
                gs[i].0
            } else {
                k
            },
{
    lemma_find_group(gs, k);
}

pub fn group_position<T>(gs: &Vec<Group<T>>, k: &str) -> (r: Option<usize>)
    ensures
        match r {
            Some(i) => find_group(groups_view(gs@), k@) == Some(i as int),
            None => find_group(groups_view(gs@), k@) is None,
        },
{
    let ghost v = groups_view(gs@);
    let mut i: usize = 0;
    while i < gs.len()
        invariant
            i <= gs.len(),
            v == groups_view(gs@),
            find_group(v, k@) == find_group_from(v, k@, i as int),
        decreases gs.len() - i,
    {
        assert(v[i as int] == group_view(gs@[i as int]));
        if same_text(gs[i].id.as_str(), k) {
            return Some(i);
        }
        i = i + 1;
    }
    None
}

/// The records of the group with id `k`, if there is one.
pub fn get_group<'a, T>(gs: &'a Vec<Group<T>>, k: &str) -> (r: Option<&'a Vec<T>>)
    ensures
        match r {
            Some(items) => find_group(groups_view(gs@), k@) matches Some(i) && items@ == gs@[i].items@,
            None => !has_group(groups_view(gs@), k@),
        },
{
    proof {
        lemma_find_group(groups_view(gs@), k@);
    }
    match group_position(gs, k) {
        Some(i) => Some(&gs[i].items),
        None => None,
    }
}

/// The ids of the groups, in order.
pub open spec fn ids_of<T>(gs: Seq<GroupView<T>>) -> Seq<Seq<char>> {
    gs.map_values(|g: GroupView<T>| g.0)
}

/// A side index of the ids of `gs`.
pub fn build_group_index<T>(gs: &Vec<Group<T>>) -> (r: KeyIndex)
    ensures
        r.indexes(ids_of(groups_view(gs@))),
{
    let ghost ids = ids_of(groups_view(gs@));
    let mut idx = KeyIndex::new();
    let mut i: usize = 0;
    assert(ids.subrange(0, 0) =~= Seq::<Seq<char>>::empty());
    while i < gs.len()
        invariant
            i <= gs.len(),
            ids == ids_of(groups_view(gs@)),
            idx.indexes(ids.subrange(0, i as int)),
        decreases gs.len() - i,
    {
        idx.add(gs[i].id.as_str(), i, Ghost(ids.subrange(0, i as int)));
        assert(ids.subrange(0, i as int).push(gs@[i as int].id@) =~= ids.subrange(0, i + 1));
        i = i + 1;
    }
    assert(ids.subrange(0, i as int) =~= ids);
    idx
}

/// `contains_group` when the index is given, or `group_position` when the
/// ids are distinct as well.
pub fn group_position_indexed<T>(gs: &Vec<Group<T>>, idx: &KeyIndex, k: &str) -> (r: Option<usize>)
    requires
        idx.indexes(ids_of(groups_view(gs@))),
    ensures
        r is Some <==> has_group(groups_view(gs@), k@),
        r matches Some(i) ==> i < gs@.len() && gs@[i as int].id@ == k@,
        ids_distinct(groups_view(gs@)) ==> match r {
            Some(i) => find_group(groups_view(gs@), k@) == Some(i as int),
            None => find_group(groups_view(gs@), k@) is None,
        },
{
    let ghost v = groups_view(gs@);
    let ghost ids = ids_of(v);
    let cands = idx.candidates(k, Ghost(ids));
    let mut m: usize = 0;
    while m < cands.len()
        invariant
            m <= cands@.len(),
            v == groups_view(gs@),
            ids == ids_of(v),
            ids.len() == gs@.len(),
            forall|i: int| 0 <= i < ids.len() && ids[i] == k@ ==> cands@.contains(i as usize),
            forall|n: int| 0 <= n < cands@.len() ==> cands@[n] < ids.len(),
            forall|n: int| 0 <= n < m ==> gs@[cands@[n] as int].id@ != k@,
        decreases cands.len() - m,
    {
        let j = cands[m];
        if same_text(gs[j].id.as_str(), k) {
            proof {
                lemma_find_group(v, k@);
                assert(v[j as int].0 == k@);
                if ids_distinct(v) {
                    let f = find_group(v, k@)->Some_0;
                    if f != j as int {
                        assert(v[f].0 != v[j as int].0);
                    }
                }
            }
            return Some(j);
        }
        m = m + 1;
    }
    let total = gs.len();
    proof {
        lemma_find_group(v, k@);
        if has_group(v, k@) {
            let i = choose|i: int| 0 <= i < v.len() && (#[trigger] v[i]).0 == k@;
            assert(ids[i] == k@);
            assert(cands@.contains(i as usize));
            let n = choose|n: int| 0 <= n < cands@.len() && cands@[n] == i as usize;
            assert(i < total);
            assert(cands@[n] as int == i);
            assert(gs@[cands@[n] as int].id@ != k@);
            assert(false);
        }
    }
    None
}

/// `add_to_group`, keeping a side index of the ids up to date.
pub fn add_to_group_indexed<T: Slot>(gs: &mut Vec<Group<T>>, idx: &mut KeyIndex, k: &str, t: T)
    requires
        old(idx).indexes(ids_of(groups_view(old(gs)@))),
        ids_distinct(groups_view(old(gs)@)),
    ensures
        groups_view(final(gs)@) == add_to_groups(groups_view(old(gs)@), k@, t),
        final(idx).indexes(ids_of(groups_view(final(gs)@))),
        ids_distinct(groups_view(final(gs)@)),
{
    let ghost v = groups_view(gs@);
    proof {
        lemma_add_to_groups(v, k@, t);
        lemma_find_group(v, k@);
    }
    match group_position_indexed(gs, idx, k) {
        Some(i) => {
            let mut g = Group { id: String::new(), items: Vec::new() };
            gs.set_and_swap(i, &mut g);
            T::put(&mut g.items, t);
            gs.set(i, g);
            assert(groups_view(gs@) =~= v.update(i as int, (k@, T::spec_put(v[i as int].1, t))));
            assert(ids_of(groups_view(gs@)) =~= ids_of(v));
        },
        None => {
            let mut items: Vec<T> = Vec::new();
            T::put(&mut items, t);
            let pos = gs.len();
            idx.add(k, pos, Ghost(ids_of(v)));
            gs.push(Group { id: k.to_owned(), items });
            assert(groups_view(gs@) =~= v.push((k@, T::spec_put(Seq::empty(), t))));
            assert(ids_of(groups_view(gs@)) =~= ids_of(v).push(k@));
        },
    }
}

} // verus!
