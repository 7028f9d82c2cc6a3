use vstd::prelude::*;
use crate::map::{TileMap, TileType, NUM_TILES};

verus! {

/// Number of floor cells among the first `n` cells.
pub open spec fn count_floor_to(t: Seq<TileType>, n: int) -> int
    decreases n,
{
    if n <= 0 {
        0
    } else {
        count_floor_to(t, n - 1) + if t[n - 1] == TileType::Floor { 1int } else { 0int }
    }
}

/// Number of floor cells of a whole grid.
pub open spec fn floor_count(t: Seq<TileType>) -> int {
    count_floor_to(t, t.len() as int)
}

pub fn count_floor(map: &TileMap) -> (c: usize)
    requires
        map.wf(),
    ensures
        c == floor_count(map@),
{
    let mut c: usize = 0;
    let mut i: usize = 0;
    while i < NUM_TILES
        invariant
            map.wf(),
            i <= NUM_TILES,
            c == count_floor_to(map@, i as int),
            c <= i,
        decreases NUM_TILES - i,
    {
        if map.tile(i) == TileType::Floor {
            c += 1;
        }
        i += 1;
    }
    c
}

/// Number of true cells among the first `n` of a visited vector.
pub open spec fn count_true_to(v: Seq<bool>, n: int) -> int
    decreases n,
{
    if n <= 0 {
        0
    } else {
        count_true_to(v, n - 1) + if v[n - 1] { 1int } else { 0int }
    }
}

pub open spec fn count_true(v: Seq<bool>) -> int {
    count_true_to(v, v.len() as int)
}

pub fn count_visited(v: &Vec<bool>) -> (c: usize)
    requires
        v@.len() == NUM_TILES,
    ensures
        c == count_true(v@),
{
    let mut c: usize = 0;
    let mut i: usize = 0;
    while i < NUM_TILES
        invariant
            v@.len() == NUM_TILES,
            i <= NUM_TILES,
            c == count_true_to(v@, i as int),
            c <= i,
        decreases NUM_TILES - i,
    {
        if v[i] {
            c += 1;
        }
        i += 1;
    }
    c
}

/// Cardinal adjacency of two row-major indices of the grid: one step left,
/// right, up or down, never wrapping around a row edge.
pub open spec fn adj(i: int, j: int) -> bool {
    0 <= i < NUM_TILES && 0 <= j < NUM_TILES && (
        (j == i - 1 && i % 80 != 0)
        || (j == i + 1 && j % 80 != 0)
        || j == i - 80
        || j == i + 80
    )
}

/// One breadth sweep: every floor cell cardinally adjacent to the visited set
/// joins it.
pub open spec fn flood_step(t: Seq<TileType>, v: Seq<bool>) -> Seq<bool> {
    Seq::new(v.len(), |i: int| v[i] || (t[i] == TileType::Floor
        && exists|j: int| adj(i, j) && 0 <= j < v.len() && v[j]))
}

/// `n` further sweeps from a visited vector.
pub open spec fn flood_n(t: Seq<TileType>, v: Seq<bool>, n: nat) -> Seq<bool>
    decreases n,
{
    if n == 0 {
        v
    } else {
        flood_n(t, flood_step(t, v), (n - 1) as nat)
    }
}

/// The visited vector that starts from one cell alone.
pub open spec fn flood_init(s: int) -> Seq<bool> {
    Seq::new(NUM_TILES as nat, |i: int| i == s)
}

/// The set of cells reachable from `s` over floor, as a visited vector:
/// the flood fill run to its fixpoint (`NUM_TILES` sweeps always suffice).
pub open spec fn flood(t: Seq<TileType>, s: int) -> Seq<bool> {
    flood_n(t, flood_init(s), NUM_TILES as nat)
}

pub proof fn lemma_flood_stable(t: Seq<TileType>, v: Seq<bool>, n: nat)
    requires
        flood_step(t, v) == v,
    ensures
        flood_n(t, v, n) == v,
    decreases n,
{
    if n > 0 {
        lemma_flood_stable(t, v, (n - 1) as nat);
    }
}

/// Every visited cell is floor, unless it is one of the start cells.
pub proof fn lemma_flood_floor(t: Seq<TileType>, v: Seq<bool>, n: nat, i: int)
    requires
        0 <= i < v.len(),
        flood_n(t, v, n)[i],
        !v[i],
    ensures
        t[i] == TileType::Floor,
    decreases n,
{
    if n > 0 {
        if flood_step(t, v)[i] {
            assert(t[i] == TileType::Floor);
        } else {
            lemma_flood_floor(t, flood_step(t, v), (n - 1) as nat, i);
        }
    }
}

fn sweep(map: &TileMap, v: &Vec<bool>) -> (r: (Vec<bool>, bool))
    requires
        map.wf(),
        v@.len() == NUM_TILES,
    ensures
        r.0@ == flood_step(map@, v@),
        r.1 == (r.0@ != v@),
{
    let mut nv: Vec<bool> = Vec::new();
    let mut changed = false;
    let mut i: usize = 0;
    while i < NUM_TILES
        invariant
            map.wf(),
            v@.len() == NUM_TILES,
            i <= NUM_TILES,
            nv@.len() == i,
            forall|k: int| 0 <= k < i ==> nv@[k] == flood_step(map@, v@)[k],
            changed == exists|k: int| 0 <= k < i && nv@[k] != v@[k],
        decreases NUM_TILES - i,
    {
        let here = v[i];
        let mut val = here;
        if !here && map.tile(i) == TileType::Floor {
            let x = i % 80;
            let near = (x != 0 && v[i - 1])
                || (x != 79 && v[i + 1])
                || (i >= 80 && v[i - 80])
                || (i + 80 < NUM_TILES && v[i + 80]);
            if near {
                val = true;
            }
            proof {
                let ii = i as int;
                if x != 0 && v@[ii - 1] {
                    assert(adj(ii, ii - 1) && v@[ii - 1]);
                }
                if x != 79 && v@[ii + 1] {
                    assert((ii + 1) % 80 != 0) by {
                        assert(ii % 80 != 79 ==> (ii + 1) % 80 == ii % 80 + 1) by (nonlinear_arith);
                    };
                    assert(adj(ii, ii + 1) && v@[ii + 1]);
                }
                if ii >= 80 && v@[ii - 80] {
                    assert(adj(ii, ii - 80) && v@[ii - 80]);
                }
                if ii + 80 < NUM_TILES && v@[ii + 80] {
                    assert(adj(ii, ii + 80) && v@[ii + 80]);
                }
                if !near {
                    assert forall|j: int| adj(ii, j) && 0 <= j < v@.len() implies !v@[j] by {
                        if j == ii + 1 && (ii + 1) % 80 != 0 {
                            assert(x != 79) by {
                                assert(ii % 80 == 79 ==> (ii + 1) % 80 == 0) by (nonlinear_arith);
                            };
                        }
                    }
                }
            }
        }
        if val != here {
            changed = true;
        }
        nv.push(val);
        proof {
            assert(nv@[i as int] == flood_step(map@, v@)[i as int]);
        }
        i += 1;
    }
    proof {
        assert(nv@ =~= flood_step(map@, v@));
        if !changed {
            assert(nv@ =~= v@);
        } else {
            let k = choose|k: int| 0 <= k < NUM_TILES && nv@[k] != v@[k];
            assert(nv@[k] != v@[k]);
        }
    }
    (nv, changed)
}

/// Flood fill: the cells reachable from `start` across floor tiles, computed
/// by sweeping to a fixpoint.
pub fn flood_fill(map: &TileMap, start: usize) -> (r: Vec<bool>)
    requires
        map.wf(),
        start < NUM_TILES,
    ensures
        r@ == flood(map@, start as int),
        r@.len() == NUM_TILES,
{
    let mut v: Vec<bool> = Vec::new();
    let mut i: usize = 0;
    while i < NUM_TILES
        invariant
            i <= NUM_TILES,
            v@.len() == i,
            forall|k: int| 0 <= k < i ==> v@[k] == (k == start as int),
        decreases NUM_TILES - i,
    {
        v.push(i == start);
        i += 1;
    }
    proof {
        assert(v@ =~= flood_init(start as int));
    }
    let mut n: usize = 0;
    while n < NUM_TILES
        invariant
            map.wf(),
            n <= NUM_TILES,
            v@.len() == NUM_TILES,
            flood(map@, start as int) == flood_n(map@, v@, (NUM_TILES - n) as nat),
        decreases NUM_TILES - n,
    {
        let (nv, changed) = sweep(map, &v);
        if !changed {
            proof {
                lemma_flood_stable(map@, v@, (NUM_TILES - n) as nat);
            }
            return v;
        }
        v = nv;
        n += 1;
    }
    v
}

} // verus!
