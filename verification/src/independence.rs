use vstd::prelude::*;

use crate::ant::Ant;
use crate::grid::Cell;
use crate::grid::flip_at;
use crate::grid::lemma_toroidal_closure;
use crate::grid::next_index;
use crate::grid::valid_torus;
use crate::sim::advance_spec;
use crate::sim::step_ant_spec;
use crate::sim::tick_upto;

verus! {

/// Grid and ant after `n` steps of one ant alone on its own grid.
pub open spec fn solo_run(g: Seq<Cell>, a: Ant, n: int, width: int, area: int) -> (Seq<Cell>, Ant)
    decreases n,
{
    if n <= 0 {
        (g, a)
    } else {
        let p = solo_run(g, a, n - 1, width, area);
        step_ant_spec(p.0, p.1, width, area)
    }
}

/// The cells an ant alone reads or writes during its first `n` steps: the
/// arrival cell of each step.
pub open spec fn solo_trail(g: Seq<Cell>, a: Ant, n: int, width: int, area: int) -> Set<int>
    decreases n,
{
    if n <= 0 {
        Set::empty()
    } else {
        let p = solo_run(g, a, n - 1, width, area);
        solo_trail(g, a, n - 1, width, area).insert(
            next_index(p.1.pos as int, p.1.dir, width, area),
        )
    }
}

/// A solo run keeps the grid size and stays on the torus.
proof fn lemma_solo_wf(g: Seq<Cell>, a: Ant, n: int, width: int, area: int)
    requires
        valid_torus(width, area),
        g.len() == area,
        a.wf(area as nat),
        0 <= n,
    ensures
        solo_run(g, a, n, width, area).0.len() == area,
        solo_run(g, a, n, width, area).1.wf(area as nat),
    decreases n,
{
    if n > 0 {
        lemma_solo_wf(g, a, n - 1, width, area);
        let p = solo_run(g, a, n - 1, width, area);
        lemma_toroidal_closure(p.1.pos as int, p.1.dir, width, area);
    }
}

/// A longer solo run only grows the trail.
proof fn lemma_trail_monotone(g: Seq<Cell>, a: Ant, k: int, n: int, width: int, area: int)
    requires
        0 <= k <= n,
    ensures
        solo_trail(g, a, k, width, area).subset_of(solo_trail(g, a, n, width, area)),
    decreases n,
{
    if k < n {
        lemma_trail_monotone(g, a, k, n - 1, width, area);
    }
}

/// Outside its trail, a solo run leaves the grid as it found it.
proof fn lemma_solo_frame(g: Seq<Cell>, a: Ant, n: int, width: int, area: int, i: int)
    requires
        valid_torus(width, area),
        g.len() == area,
        a.wf(area as nat),
        0 <= n,
        0 <= i < area,
        !solo_trail(g, a, n, width, area).contains(i),
    ensures
        solo_run(g, a, n, width, area).0[i] == g[i],
    decreases n,
{
    if n > 0 {
        lemma_solo_frame(g, a, n - 1, width, area, i);
        lemma_solo_wf(g, a, n - 1, width, area);
        let p = solo_run(g, a, n - 1, width, area);
        lemma_toroidal_closure(p.1.pos as int, p.1.dir, width, area);
        assert(next_index(p.1.pos as int, p.1.dir, width, area) != i);
    }
}

/// One step of the rule reads nothing but the cell the ant arrives on: two
/// grids that agree there drive the ant identically.
proof fn lemma_step_local(g1: Seq<Cell>, g2: Seq<Cell>, a: Ant, width: int, area: int)
    requires
        g1[next_index(a.pos as int, a.dir, width, area)] == g2[next_index(
            a.pos as int,
            a.dir,
            width,
            area,
        )],
    ensures
        step_ant_spec(g1, a, width, area).1 == step_ant_spec(g2, a, width, area).1,
{
}

/// One tick of a two-ant collection, written out: the first ant steps on
/// the grid, the second steps on the result.
proof fn lemma_tick_two(g: Seq<Cell>, a: Ant, b: Ant, width: int, area: int)
    ensures
        ({
            let sa = step_ant_spec(g, a, width, area);
            let sb = step_ant_spec(sa.0, b, width, area);
            &&& tick_upto(g, seq![a, b], 2, width, area).0 == sb.0
            &&& tick_upto(g, seq![a, b], 2, width, area).1 =~= seq![sa.1, sb.1]
        }),
{
    reveal_with_fuel(tick_upto, 3);
}

/// Inner induction for the independence law: after `k` of `n` joint ticks
/// the two ants match their solo runs, and every grid cell holds either its
/// start state or the state the one solo run that touched it left there.
proof fn lemma_joint_invariant(
    g: Seq<Cell>,
    a: Ant,
    b: Ant,
    k: int,
    n: int,
    width: int,
    area: int,
)
    requires
        valid_torus(width, area),
        g.len() == area,
        a.wf(area as nat),
        b.wf(area as nat),
        0 <= k <= n,
        solo_trail(g, a, n, width, area).disjoint(solo_trail(g, b, n, width, area)),
    ensures
        advance_spec(g, seq![a, b], k, width, area).1 =~= seq![
            solo_run(g, a, k, width, area).1,
            solo_run(g, b, k, width, area).1,
        ],
        advance_spec(g, seq![a, b], k, width, area).0.len() == area,
        forall|i: int|
            0 <= i < area ==> advance_spec(g, seq![a, b], k, width, area).0[i] == (
            if solo_trail(g, a, k, width, area).contains(i) {
                solo_run(g, a, k, width, area).0[i]
            } else if solo_trail(g, b, k, width, area).contains(i) {
                solo_run(g, b, k, width, area).0[i]
            } else {
                g[i]
            }),
    decreases k,
{
    let ta_n = solo_trail(g, a, n, width, area);
    let tb_n = solo_trail(g, b, n, width, area);
    if k > 0 {
        lemma_joint_invariant(g, a, b, k - 1, n, width, area);
        lemma_solo_wf(g, a, k - 1, width, area);
        lemma_solo_wf(g, b, k - 1, width, area);
        lemma_trail_monotone(g, a, k - 1, n, width, area);
        lemma_trail_monotone(g, b, k - 1, n, width, area);
        lemma_trail_monotone(g, a, k, n, width, area);
        lemma_trail_monotone(g, b, k, n, width, area);
        let prev = advance_spec(g, seq![a, b], k - 1, width, area);
        let pa = solo_run(g, a, k - 1, width, area);
        let pb = solo_run(g, b, k - 1, width, area);
        let ta_prev = solo_trail(g, a, k - 1, width, area);
        let tb_prev = solo_trail(g, b, k - 1, width, area);
        let nxt_a = next_index(pa.1.pos as int, pa.1.dir, width, area);
        let nxt_b = next_index(pb.1.pos as int, pb.1.dir, width, area);
        lemma_toroidal_closure(pa.1.pos as int, pa.1.dir, width, area);
        lemma_toroidal_closure(pb.1.pos as int, pb.1.dir, width, area);
        assert(solo_trail(g, a, k, width, area) == ta_prev.insert(nxt_a));
        assert(solo_trail(g, b, k, width, area) == tb_prev.insert(nxt_b));
        assert(ta_prev.insert(nxt_a).subset_of(ta_n));
        assert(tb_prev.insert(nxt_b).subset_of(tb_n));
        assert(ta_n.contains(nxt_a));
        assert(tb_n.contains(nxt_b));
        assert(!tb_n.contains(nxt_a));
        assert(!ta_n.contains(nxt_b));
        assert(nxt_a != nxt_b);

        assert(prev.1[0] == pa.1 && prev.1[1] == pb.1);

        // The joint grid shows ant a, at its arrival cell, what the solo
        // grid shows.
        if !ta_prev.contains(nxt_a) {
            lemma_solo_frame(g, a, k - 1, width, area, nxt_a);
        }
        assert(prev.0[nxt_a] == pa.0[nxt_a]);
        lemma_step_local(prev.0, pa.0, pa.1, width, area);
        let sa = step_ant_spec(prev.0, pa.1, width, area);
        assert(sa.1 == solo_run(g, a, k, width, area).1);

        // The same for ant b, one flip later.
        let mid = sa.0;
        assert(mid == flip_at(prev.0, nxt_a));
        assert(mid[nxt_b] == prev.0[nxt_b]);
        if !tb_prev.contains(nxt_b) {
            lemma_solo_frame(g, b, k - 1, width, area, nxt_b);
        }
        assert(prev.0[nxt_b] == pb.0[nxt_b]);
        lemma_step_local(mid, pb.0, pb.1, width, area);
        let sb = step_ant_spec(mid, pb.1, width, area);
        assert(sb.1 == solo_run(g, b, k, width, area).1);

        lemma_tick_two(prev.0, pa.1, pb.1, width, area);
        assert(advance_spec(g, seq![a, b], k, width, area).0 == sb.0);
        assert(advance_spec(g, seq![a, b], k, width, area).1 =~= seq![sa.1, sb.1]);

        // The grid overlay carries over cell by cell.
        let cur = advance_spec(g, seq![a, b], k, width, area).0;
        let ga = solo_run(g, a, k, width, area).0;
        let gb = solo_run(g, b, k, width, area).0;
        assert(ga == flip_at(pa.0, nxt_a));
        assert(gb == flip_at(pb.0, nxt_b));
        assert forall|i: int| 0 <= i < area implies cur[i] == (
        if solo_trail(g, a, k, width, area).contains(i) {
            ga[i]
        } else if solo_trail(g, b, k, width, area).contains(i) {
            gb[i]
        } else {
            g[i]
        }) by {
            if i == nxt_a {
                assert(cur[i] == prev.0[nxt_a].spec_flip());
                assert(ga[i] == pa.0[nxt_a].spec_flip());
            } else if i == nxt_b {
                assert(cur[i] == mid[nxt_b].spec_flip());
                assert(gb[i] == pb.0[nxt_b].spec_flip());
            } else {
                assert(cur[i] == prev.0[i]);
                assert(ga[i] == pa.0[i]);
                assert(gb[i] == pb.0[i]);
            }
        }
    }
}

/// Multi-ant independence: as long as the cells two ants would touch in
/// their first `n` solo steps never meet, running both on the shared grid
/// gives each ant, tick for tick, exactly the trajectory it has alone on
/// its own copy of the grid.
pub proof fn lemma_two_ant_independence(
    g: Seq<Cell>,
    a: Ant,
    b: Ant,
    n: int,
    width: int,
    area: int,
)
    requires
        valid_torus(width, area),
        g.len() == area,
        a.wf(area as nat),
        b.wf(area as nat),
        0 <= n,
        solo_trail(g, a, n, width, area).disjoint(solo_trail(g, b, n, width, area)),
    ensures
        forall|k: int|
            0 <= k <= n ==> advance_spec(g, seq![a, b], k, width, area).1 == seq![
                solo_run(g, a, k, width, area).1,
                solo_run(g, b, k, width, area).1,
            ],
{
    assert forall|k: int|
        0 <= k <= n implies advance_spec(g, seq![a, b], k, width, area).1 == seq![
        solo_run(g, a, k, width, area).1,
        solo_run(g, b, k, width, area).1,
    ] by {
        lemma_joint_invariant(g, a, b, k, n, width, area);
    }
}

/// A single ant advanced on the shared machinery is exactly its solo run.
pub proof fn lemma_single_ant_advance(g: Seq<Cell>, a: Ant, n: int, width: int, area: int)
    requires
        0 <= n,
    ensures
        advance_spec(g, seq![a], n, width, area).0 == solo_run(g, a, n, width, area).0,
        advance_spec(g, seq![a], n, width, area).1 == seq![solo_run(g, a, n, width, area).1],
    decreases n,
{
    reveal_with_fuel(tick_upto, 2);
    if n > 0 {
        lemma_single_ant_advance(g, a, n - 1, width, area);
        let prev = advance_spec(g, seq![a], n - 1, width, area);
        assert(prev.1[0] == solo_run(g, a, n - 1, width, area).1);
        assert(advance_spec(g, seq![a], n, width, area).1 =~= seq![
            solo_run(g, a, n, width, area).1,
        ]);
    } else {
        assert(advance_spec(g, seq![a], 0, width, area).1 =~= seq![a]);
    }
}

} // verus!
