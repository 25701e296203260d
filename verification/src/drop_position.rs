//! Where a dropped or newly created node goes among the children of its
//! new parent.

use vstd::prelude::*;

verus! {

/// A place among the children of a node, relative to the node ids there.
#[derive(Clone, Copy, Debug, PartialEq, Eq, Structural)]
pub enum DropPosition {
    First,
    Last,
    After(u128),
    Before(u128),
}

/// Something that carries a node id.
pub trait Keyed {
    spec fn key(&self) -> u128;

    fn id(&self) -> (r: u128)
        ensures
            r == self.key(),
    ;
}

/// The ids of a sequence of keyed values, in order.
pub open spec fn keys_of<T: Keyed>(s: Seq<T>) -> Seq<u128> {
    s.map_values(|t: T| t.key())
}

/// `i` is the first index at which `id` occurs in `ids`.
pub open spec fn is_first_index(ids: Seq<u128>, id: u128, i: int) -> bool {
    &&& 0 <= i < ids.len()
    &&& ids[i] == id
    &&& forall|j: int| 0 <= j < i ==> ids[j] != id
}

/// The first index at which `id` occurs in `ids`, if it occurs.
pub open spec fn first_index(ids: Seq<u128>, id: u128) -> Option<int> {
    if exists|i: int| is_first_index(ids, id, i) {
        Some(choose|i: int| is_first_index(ids, id, i))
    } else {
        None
    }
}

/// The index at which a value dropped at `pos` is inserted into a list
/// whose ids are `ids`. A position relative to an id that is not in the
/// list places the value at the end.
pub open spec fn insertion_index(ids: Seq<u128>, pos: DropPosition) -> int {
    match pos {
        DropPosition::First => 0,
        DropPosition::Last => ids.len() as int,
        DropPosition::After(id) => match first_index(ids, id) {
            Some(i) => i + 1,
            None => ids.len() as int,
        },
        DropPosition::Before(id) => match first_index(ids, id) {
            Some(i) => i,
            None => ids.len() as int,
        },
    }
}

/// The list `s` with `e` placed at `pos`.
pub open spec fn placed<T: Keyed>(s: Seq<T>, pos: DropPosition, e: T) -> Seq<T> {
    s.insert(insertion_index(keys_of(s), pos), e)
}

pub proof fn lemma_first_index_unique(ids: Seq<u128>, id: u128, i: int)
    requires
        is_first_index(ids, id, i),
    ensures
        first_index(ids, id) == Some(i),
{
    let k = choose|k: int| is_first_index(ids, id, k);
    assert(is_first_index(ids, id, k));
    if k < i {
        assert(ids[k] != id);
    } else if i < k {
        assert(ids[i] != id);
    }
}

/// The place `pos` describes index `k` of `ids`: first, last, right after
/// the id `s`, or right before it.
pub open spec fn sits_at(ids: Seq<u128>, k: int, pos: DropPosition) -> bool {
    &&& 0 <= k < ids.len()
    &&& match pos {
        DropPosition::First => k == 0,
        DropPosition::Last => k == ids.len() - 1,
        DropPosition::After(s) => k > 0 && ids[k - 1] == s,
        DropPosition::Before(s) => k + 1 < ids.len() && ids[k + 1] == s,
    }
}

/// No id occurs twice in `ids`.
pub open spec fn ids_distinct(ids: Seq<u128>) -> bool {
    forall|i: int, j: int| 0 <= i < j < ids.len() ==> ids[i] != ids[j]
}

/// Taking out the value at `k` and inserting at a place that described
/// `k` puts it back at `k`, when no id occurs twice.
pub proof fn lemma_insertion_index_of_removed(ids: Seq<u128>, k: int, pos: DropPosition)
    requires
        ids_distinct(ids),
        sits_at(ids, k, pos),
    ensures
        insertion_index(ids.remove(k), pos) == k,
{
    let rest = ids.remove(k);
    match pos {
        DropPosition::After(s) => {
            assert(rest[k - 1] == s);
            assert(is_first_index(rest, s, k - 1)) by {
                assert forall|j: int| 0 <= j < k - 1 implies rest[j] != s by {
                    assert(rest[j] == ids[j]);
                }
            }
            lemma_first_index_unique(rest, s, k - 1);
        },
        DropPosition::Before(s) => {
            assert(rest[k] == ids[k + 1]);
            assert(is_first_index(rest, s, k)) by {
                assert forall|j: int| 0 <= j < k implies rest[j] != s by {
                    assert(rest[j] == ids[j]);
                }
            }
            lemma_first_index_unique(rest, s, k);
        },
        _ => {},
    }
}

proof fn lemma_first_below(ids: Seq<u128>, id: u128, m: int)
    requires
        0 <= m < ids.len(),
        ids[m] == id,
    ensures
        first_index(ids, id) is Some,
    decreases m,
{
    if exists|j: int| 0 <= j < m && ids[j] == id {
        let j = choose|j: int| 0 <= j < m && ids[j] == id;
        lemma_first_below(ids, id, j);
    } else {
        assert(is_first_index(ids, id, m));
    }
}

/// An id that occurs has a first index, and that index holds the id.
pub proof fn lemma_contains_first_index(ids: Seq<u128>, id: u128)
    ensures
        ids.contains(id) <==> first_index(ids, id) is Some,
        first_index(ids, id) matches Some(i) ==> is_first_index(ids, id, i),
{
    if ids.contains(id) {
        let m = choose|m: int| 0 <= m < ids.len() && ids[m] == id;
        lemma_first_below(ids, id, m);
    }
    if first_index(ids, id) is Some {
        let i = choose|i: int| is_first_index(ids, id, i);
        assert(is_first_index(ids, id, i));
        assert(ids[i] == id);
    }
}

pub proof fn lemma_insertion_index_bounds(ids: Seq<u128>, pos: DropPosition)
    ensures
        0 <= insertion_index(ids, pos) <= ids.len(),
{
    match pos {
        DropPosition::After(id) | DropPosition::Before(id) => {
            if exists|i: int| is_first_index(ids, id, i) {
                let k = choose|i: int| is_first_index(ids, id, i);
                assert(is_first_index(ids, id, k));
            }
        },
        _ => {},
    }
}

/// Finds the first index of a value whose id is `id`.
pub fn position_of<T: Keyed>(v: &Vec<T>, id: u128) -> (r: Option<usize>)
    ensures
        match r {
            Some(i) => i < v.len() && first_index(keys_of(v@), id) == Some(i as int),
            None => first_index(keys_of(v@), id) is None,
        },
{
    let ghost ids = keys_of(v@);
    let mut i: usize = 0;
    while i < v.len()
        invariant
            ids == keys_of(v@),
            i <= v.len(),
            forall|j: int| 0 <= j < i ==> ids[j] != id,
        decreases v.len() - i,
    {
        if v[i].id() == id {
            proof {
                lemma_first_index_unique(ids, id, i as int);
            }
            return Some(i);
        }
        i = i + 1;
    }
    assert(!exists|k: int| is_first_index(ids, id, k)) by {
        if exists|k: int| is_first_index(ids, id, k) {
            let k = choose|k: int| is_first_index(ids, id, k);
            assert(ids[k] == id);
        }
    }
    None
}

/// Inserts `element` into `v` at the place that `position` names: at the
/// front, at the end, or right after or before the first value with the
/// given id (at the end when there is none).
pub fn insert_at_position<T: Keyed>(v: &mut Vec<T>, position: DropPosition, element: T)
    ensures
        final(v)@ == placed(old(v)@, position, element),
{
    proof {
        lemma_insertion_index_bounds(keys_of(v@), position);
    }
    match position {
        DropPosition::First => v.insert(0, element),
        DropPosition::Last => v.push(element),
        DropPosition::After(id) => {
            match position_of(v, id) {
                Some(index) => v.insert(index + 1, element),
                None => v.push(element),
            }
        },
        DropPosition::Before(id) => {
            match position_of(v, id) {
                Some(index) => v.insert(index, element),
                None => v.push(element),
            }
        },
    }
}

/// Where a placed value lands: `placed(s, pos, e)` is `s` with `e` put in
/// at one place `k`, the other values keeping their order, and `k` is the
/// front, the end, right before the first value with the id `y`, or right
/// after it; next to an id that `s` lacks, `e` lands at the end.
pub proof fn law_placed_lands_at_its_place<T: Keyed>(s: Seq<T>, pos: DropPosition, e: T)
    ensures
        ({
            let r = placed(s, pos, e);
            &&& r.len() == s.len() + 1
            &&& exists|k: int|
                0 <= k < r.len() && #[trigger] r[k] == e && r.remove(k) == s && (
                    match pos {
                        DropPosition::First => k == 0,
                        DropPosition::Last => k == s.len(),
                        DropPosition::Before(y) => if keys_of(s).contains(y) {
                            &&& k + 1 < r.len()
                            &&& r[k + 1].key() == y
                            &&& forall|j: int| 0 <= j < k ==> r[j].key() != y
                        } else {
                            k == s.len()
                        },
                        DropPosition::After(y) => if keys_of(s).contains(y) {
                            &&& k > 0
                            &&& r[k - 1].key() == y
                            &&& forall|j: int| 0 <= j < k - 1 ==> r[j].key() != y
                        } else {
                            k == s.len()
                        },
                    }
                )
        }),
{
    let ks = keys_of(s);
    lemma_insertion_index_bounds(ks, pos);
    let k = insertion_index(ks, pos);
    let r = s.insert(k, e);
    assert(r == placed(s, pos, e));
    assert(r.remove(k) =~= s);
    assert(r[k] == e);
    match pos {
        DropPosition::Before(y) => {
            lemma_contains_first_index(ks, y);
            if ks.contains(y) {
                let j = first_index(ks, y).unwrap();
                assert(ks[j] == s[j].key());
                assert(r[k + 1] == s[j]);
                assert forall|jj: int| 0 <= jj < k implies r[jj].key() != y by {
                    assert(r[jj] == s[jj]);
                    assert(ks[jj] == s[jj].key());
                }
            }
        },
        DropPosition::After(y) => {
            lemma_contains_first_index(ks, y);
            if ks.contains(y) {
                let j = first_index(ks, y).unwrap();
                assert(ks[j] == s[j].key());
                assert(r[k - 1] == s[j]);
                assert forall|jj: int| 0 <= jj < k - 1 implies r[jj].key() != y by {
                    assert(r[jj] == s[jj]);
                    assert(ks[jj] == s[jj].key());
                }
            }
        },
        _ => {},
    }
}

/// The first index of an id holds that id and no earlier index does; an id
/// that does not occur has none.
pub proof fn law_first_index_is_first(ids: Seq<u128>, id: u128)
    ensures
        first_index(ids, id) matches Some(i) ==> 0 <= i < ids.len() && ids[i] == id
            && forall|j: int| 0 <= j < i ==> ids[j] != id,
        first_index(ids, id) is None <==> !ids.contains(id),
{
    lemma_contains_first_index(ids, id);
}

} // verus!
