//! How the renderer batches cells for instanced drawing: each cell goes to
//! its first render layer, and within a layer the cells, sorted by depth
//! and texture, are cut into runs that share a texture.

use vstd::prelude::*;

verus! {

/// The number of render layers.
pub const TOTAL_LAYERS: u32 = 32;

/// The render layer mask `mask` holds layer `i`.
pub open spec fn has_layer(mask: u32, i: u32) -> bool {
    mask & (1u32 << i) != 0
}

/// The layer a cell is drawn on: the lowest layer in its mask, or none
/// when the mask holds no layer.
pub fn first_layer(mask: u32) -> (r: Option<u32>)
    ensures
        match r {
            Some(i) => i < TOTAL_LAYERS && has_layer(mask, i) && forall|j: u32| j < i ==> !has_layer(mask, j),
            None => forall|j: u32| j < TOTAL_LAYERS ==> !has_layer(mask, j),
        },
{
    let mut i: u32 = 0;
    while i < TOTAL_LAYERS
        invariant
            i <= TOTAL_LAYERS,
            forall|j: u32| j < i ==> !has_layer(mask, j),
        decreases TOTAL_LAYERS - i,
    {
        if mask & (1u32 << i) != 0 {
            return Some(i);
        }
        i = i + 1;
    }
    None
}

/// `b` is the lowest render layer of `mask`.
pub open spec fn lowest_layer_is(mask: u32, b: u32) -> bool {
    &&& b < TOTAL_LAYERS
    &&& has_layer(mask, b)
    &&& forall|j: u32| j < b ==> !has_layer(mask, j)
}

/// The indices below `n` of the masks whose lowest layer is `b`, in order.
pub open spec fn indices_on_layer(masks: Seq<u32>, n: int, b: u32) -> Seq<usize>
    decreases n,
{
    if n <= 0 {
        Seq::empty()
    } else if lowest_layer_is(masks[n - 1], b) {
        indices_on_layer(masks, n - 1, b).push((n - 1) as usize)
    } else {
        indices_on_layer(masks, n - 1, b)
    }
}

/// A layer's group holds, in increasing order, exactly the indices below
/// `n` of the masks whose lowest layer it is.
pub proof fn law_layer_groups(masks: Seq<u32>, n: int, b: u32)
    requires
        0 <= n <= masks.len(),
        masks.len() <= usize::MAX,
    ensures
        forall|k: int| 0 <= k < indices_on_layer(masks, n, b).len() ==> {
            &&& 0 <= #[trigger] indices_on_layer(masks, n, b)[k] < n
            &&& lowest_layer_is(masks[indices_on_layer(masks, n, b)[k] as int], b)
        },
        forall|k1: int, k2: int| 0 <= k1 < k2 < indices_on_layer(masks, n, b).len()
            ==> #[trigger] indices_on_layer(masks, n, b)[k1] < #[trigger] indices_on_layer(masks, n, b)[k2],
        forall|i: int| 0 <= i < n && lowest_layer_is(#[trigger] masks[i], b)
            ==> indices_on_layer(masks, n, b).contains(i as usize),
    decreases n,
{
    if n > 0 {
        law_layer_groups(masks, n - 1, b);
        let prev = indices_on_layer(masks, n - 1, b);
        let cur = indices_on_layer(masks, n, b);
        if lowest_layer_is(masks[n - 1], b) {
            assert(cur == prev.push((n - 1) as usize));
            assert forall|k: int| 0 <= k < prev.len() implies cur[k] == prev[k] by {}
            assert forall|k: int| 0 <= k < cur.len() implies {
                &&& 0 <= #[trigger] cur[k] < n
                &&& lowest_layer_is(masks[cur[k] as int], b)
            } by {
                if k < prev.len() {
                    assert(cur[k] == prev[k]);
                    assert(0 <= prev[k] < n - 1);
                } else {
                    assert(cur[k] as int == n - 1);
                }
            }
            assert forall|k1: int, k2: int| 0 <= k1 < k2 < cur.len() implies #[trigger] cur[k1] < #[trigger] cur[k2] by {
                assert(cur[k1] == prev[k1]);
                assert(0 <= prev[k1] < n - 1);
                if k2 < prev.len() {
                    assert(cur[k2] == prev[k2]);
                } else {
                    assert(cur[k2] as int == n - 1);
                }
            }
            assert forall|i: int| 0 <= i < n && lowest_layer_is(#[trigger] masks[i], b)
                implies cur.contains(i as usize) by {
                if i < n - 1 {
                    let k = choose|k: int| 0 <= k < prev.len() && prev[k] == i as usize;
                    assert(cur[k] == prev[k]);
                } else {
                    assert(cur[prev.len() as int] == (n - 1) as usize);
                }
            }
        } else {
            assert(cur == prev);
            assert forall|k: int| 0 <= k < cur.len() implies 0 <= #[trigger] cur[k] < n by {
                assert(0 <= prev[k] < n - 1);
            }
        }
    }
}

/// Groups cells by render layer: group `b` holds, in order, the indices of
/// the cells whose lowest render layer is `b`. A cell belongs to one layer
/// only, and a cell without any layer is in no group.
pub fn group_by_layer(masks: &Vec<u32>) -> (groups: Vec<Vec<usize>>)
    ensures
        groups@.len() == TOTAL_LAYERS,
        forall|b: int| 0 <= b < TOTAL_LAYERS ==> #[trigger] groups@[b]@ == indices_on_layer(masks@, masks@.len() as int, b as u32),
{
    let n = masks.len();
    let mut layers: Vec<Option<u32>> = Vec::new();
    for i in 0..n
        invariant
            n == masks@.len(),
            layers@.len() == i,
            forall|k: int| 0 <= k < i ==> match #[trigger] layers@[k] {
                Some(b) => lowest_layer_is(masks@[k], b),
                None => forall|c: u32| !lowest_layer_is(masks@[k], c),
            },
    {
        let l = first_layer(masks[i]);
        proof {
            match l {
                Some(b) => {},
                None => {
                    assert forall|c: u32| !lowest_layer_is(masks@[i as int], c) by {
                        if c < TOTAL_LAYERS {
                            assert(!has_layer(masks@[i as int], c));
                        }
                    }
                },
            }
        }
        layers.push(l);
    }
    let mut groups: Vec<Vec<usize>> = Vec::new();
    for b in 0..TOTAL_LAYERS
        invariant
            n == masks@.len(),
            layers@.len() == n,
            forall|k: int| 0 <= k < n ==> match #[trigger] layers@[k] {
                Some(c) => lowest_layer_is(masks@[k], c),
                None => forall|c: u32| !lowest_layer_is(masks@[k], c),
            },
            groups@.len() == b,
            forall|c: int| 0 <= c < b ==> #[trigger] groups@[c]@ == indices_on_layer(masks@, n as int, c as u32),
    {
        let mut group: Vec<usize> = Vec::new();
        for i in 0..n
            invariant
                n == masks@.len(),
                layers@.len() == n,
                b < TOTAL_LAYERS,
                forall|k: int| 0 <= k < n ==> match #[trigger] layers@[k] {
                    Some(c) => lowest_layer_is(masks@[k], c),
                    None => forall|c: u32| !lowest_layer_is(masks@[k], c),
                },
                group@ == indices_on_layer(masks@, i as int, b),
        {
            let on_b = match layers[i] {
                Some(c) => c == b,
                None => false,
            };
            proof {
                let m = masks@[i as int];
                match layers@[i as int] {
                    Some(c) => {
                        assert(lowest_layer_is(m, c));
                        if c < b {
                            assert(!lowest_layer_is(m, b)) by {
                                assert(has_layer(m, c));
                            }
                        } else if b < c {
                            assert(!lowest_layer_is(m, b));
                        }
                    },
                    None => {
                        assert(!lowest_layer_is(m, b));
                    },
                }
                assert(on_b == lowest_layer_is(m, b));
            }
            if on_b {
                group.push(i);
            }
        }
        groups.push(group);
    }
    groups
}

/// `runs` cuts `hashes` into its maximal runs of equal values: the runs are
/// non-empty index ranges `[start, end)` that follow each other from 0 to
/// the end, every value in a run equals the run's first, and neighbouring
/// runs differ.
pub open spec fn is_maximal_runs(hashes: Seq<u64>, runs: Seq<(usize, usize)>) -> bool {
    &&& (hashes.len() == 0 <==> runs.len() == 0)
    &&& (runs.len() > 0 ==> runs[0].0 == 0 && runs.last().1 == hashes.len())
    &&& forall|k: int| 0 <= k < runs.len() ==> #[trigger] runs[k].0 < runs[k].1 <= hashes.len()
    &&& forall|k: int| 0 <= k < runs.len() - 1 ==> #[trigger] runs[k].1 == runs[k + 1].0
    &&& forall|k: int, j: int|
        0 <= k < runs.len() && runs[k].0 <= j < runs[k].1 ==> #[trigger] hashes[j] == hashes[(#[trigger] runs[k]).0 as int]
    &&& forall|k: int| 0 <= k < runs.len() - 1 ==> hashes[#[trigger] runs[k + 1].0 as int] != hashes[runs[k].0 as int]
}

/// Cuts the texture hashes of the sorted cells of one layer into the runs
/// that are drawn together, each with one texture.
pub fn group_runs(hashes: &Vec<u64>) -> (runs: Vec<(usize, usize)>)
    ensures
        is_maximal_runs(hashes@, runs@),
{
    let mut runs: Vec<(usize, usize)> = Vec::new();
    let n = hashes.len();
    if n == 0 {
        return runs;
    }
    let mut start: usize = 0;
    let mut i: usize = 1;
    while i < n
        invariant
            n == hashes.len(),
            0 <= start < i <= n,
            forall|j: int| start <= j < i ==> hashes@[j] == hashes@[start as int],
            runs@.len() == 0 ==> start == 0,
            runs@.len() > 0 ==> runs@.last().1 == start && hashes@[start as int] != hashes@[runs@.last().0 as int],
            runs@.len() > 0 ==> runs@[0].0 == 0,
            forall|k: int| 0 <= k < runs@.len() ==> #[trigger] runs@[k].0 < runs@[k].1 <= start,
            forall|k: int| 0 <= k < runs@.len() - 1 ==> #[trigger] runs@[k].1 == runs@[k + 1].0,
            forall|k: int, j: int|
                0 <= k < runs@.len() && runs@[k].0 <= j < runs@[k].1 ==> #[trigger] hashes@[j] == hashes@[(#[trigger] runs@[k]).0 as int],
            forall|k: int| 0 <= k < runs@.len() - 1 ==> hashes@[#[trigger] runs@[k + 1].0 as int] != hashes@[runs@[k].0 as int],
        decreases n - i,
    {
        if hashes[i] != hashes[start] {
            runs.push((start, i));
            start = i;
        }
        i = i + 1;
    }
    runs.push((start, n));
    runs
}

} // verus!
