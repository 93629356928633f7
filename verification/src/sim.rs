use vstd::prelude::*;
use vstd::pervasive::VecAdditionalExecFns;

use crate::ant::Ant;
use crate::ant::turn_of;
use crate::config::SimulationConfig;
use crate::grid::Cell;
use crate::grid::Grid;
use crate::grid::col_of;
use crate::grid::flip_at;
use crate::grid::next_index;
use crate::grid::row_of;
use crate::grid::valid_torus;

verus! {

/// What the renderer is asked to paint at one grid position: one of the two
/// cell states, or the marker that shows an ant standing on the cell.
#[derive(Clone, Copy, Debug, PartialEq, Eq, Structural)]
pub enum DisplayColor {
    Unmarked,
    Marked,
    AgentMarker,
}

/// One repaint request: a grid position and the color to paint it.
#[derive(Clone, Copy, Debug, PartialEq, Eq, Structural)]
pub struct DrawUpdate {
    pub pos: usize,
    pub color: DisplayColor,
}

/// The display color that shows a stored cell state.
pub open spec fn color_of(c: Cell) -> DisplayColor {
    match c {
        Cell::Unmarked => DisplayColor::Unmarked,
        Cell::Marked => DisplayColor::Marked,
    }
}

/// Returns the display color that shows a stored cell state.
pub fn display_of(c: Cell) -> (r: DisplayColor)
    ensures
        r == color_of(c),
{
    match c {
        Cell::Unmarked => DisplayColor::Unmarked,
        Cell::Marked => DisplayColor::Marked,
    }
}

/// The grid and ant after one step of the rule: the ant moves one cell in
/// its heading, turns by the state of the cell it arrives on, and that cell
/// is flipped.
pub open spec fn step_ant_spec(g: Seq<Cell>, a: Ant, width: int, area: int) -> (Seq<Cell>, Ant) {
    let npos = next_index(a.pos as int, a.dir, width, area);
    (flip_at(g, npos), Ant { pos: npos as usize, dir: turn_of(a.dir, g[npos]) })
}

/// The repaint requests one step emits: the cell the ant leaves shown in its
/// stored state, the cell it arrives on shown in its now-flipped state, and
/// the agent marker over the arrival cell.
pub open spec fn step_updates_spec(g: Seq<Cell>, a: Ant, width: int, area: int) -> Seq<
    DrawUpdate,
> {
    let npos = next_index(a.pos as int, a.dir, width, area);
    seq![
        DrawUpdate { pos: a.pos, color: color_of(g[a.pos as int]) },
        DrawUpdate { pos: npos as usize, color: color_of(g[npos].spec_flip()) },
        DrawUpdate { pos: npos as usize, color: DisplayColor::AgentMarker },
    ]
}

/// The grid and ants after the first `k` ants of one tick took their step,
/// in collection order.
pub open spec fn tick_upto(g: Seq<Cell>, ants: Seq<Ant>, k: int, width: int, area: int) -> (
    Seq<Cell>,
    Seq<Ant>,
)
    decreases k,
{
    if k <= 0 {
        (g, ants)
    } else {
        let prev = tick_upto(g, ants, k - 1, width, area);
        let stepped = step_ant_spec(prev.0, prev.1[k - 1], width, area);
        (stepped.0, prev.1.update(k - 1, stepped.1))
    }
}

/// The grid and ants after one full tick: every ant steps once, in order.
pub open spec fn tick_spec(g: Seq<Cell>, ants: Seq<Ant>, width: int, area: int) -> (
    Seq<Cell>,
    Seq<Ant>,
) {
    tick_upto(g, ants, ants.len() as int, width, area)
}

/// The repaint requests of the first `k` ants of one tick, in order.
pub open spec fn tick_updates_upto(
    g: Seq<Cell>,
    ants: Seq<Ant>,
    k: int,
    width: int,
    area: int,
) -> Seq<DrawUpdate>
    decreases k,
{
    if k <= 0 {
        Seq::empty()
    } else {
        let prev = tick_upto(g, ants, k - 1, width, area);
        tick_updates_upto(g, ants, k - 1, width, area) + step_updates_spec(
            prev.0,
            prev.1[k - 1],
            width,
            area,
        )
    }
}

/// The repaint requests of one full tick.
pub open spec fn tick_updates_spec(g: Seq<Cell>, ants: Seq<Ant>, width: int, area: int) -> Seq<
    DrawUpdate,
> {
    tick_updates_upto(g, ants, ants.len() as int, width, area)
}

/// The grid and ants after `steps` full ticks.
pub open spec fn advance_spec(g: Seq<Cell>, ants: Seq<Ant>, steps: int, width: int, area: int) -> (
    Seq<Cell>,
    Seq<Ant>,
)
    decreases steps,
{
    if steps <= 0 {
        (g, ants)
    } else {
        let prev = advance_spec(g, ants, steps - 1, width, area);
        tick_spec(prev.0, prev.1, width, area)
    }
}

/// The repaint requests of `steps` full ticks, in order.
pub open spec fn advance_updates_spec(
    g: Seq<Cell>,
    ants: Seq<Ant>,
    steps: int,
    width: int,
    area: int,
) -> Seq<DrawUpdate>
    decreases steps,
{
    if steps <= 0 {
        Seq::empty()
    } else {
        let prev = advance_spec(g, ants, steps - 1, width, area);
        advance_updates_spec(g, ants, steps - 1, width, area) + tick_updates_spec(
            prev.0,
            prev.1,
            width,
            area,
        )
    }
}

/// Validity of a grid-and-ants state: the grid covers the torus and every
/// ant stands on it.
pub open spec fn state_wf(g: Seq<Cell>, ants: Seq<Ant>, width: int, area: int) -> bool {
    &&& valid_torus(width, area)
    &&& g.len() == area
    &&& forall|i: int| 0 <= i < ants.len() ==> ants[i].wf(area as nat)
}

/// One step keeps the state valid.
pub proof fn lemma_step_ant_wf(g: Seq<Cell>, a: Ant, width: int, area: int)
    requires
        valid_torus(width, area),
        g.len() == area,
        a.wf(area as nat),
    ensures
        step_ant_spec(g, a, width, area).0.len() == area,
        step_ant_spec(g, a, width, area).1.wf(area as nat),
{
    crate::grid::lemma_toroidal_closure(a.pos as int, a.dir, width, area);
}

/// A partial tick keeps the state valid, keeps the ant count, and leaves
/// the ants not yet processed untouched.
pub proof fn lemma_tick_upto_wf(g: Seq<Cell>, ants: Seq<Ant>, k: int, width: int, area: int)
    requires
        state_wf(g, ants, width, area),
        0 <= k <= ants.len(),
    ensures
        tick_upto(g, ants, k, width, area).0.len() == area,
        tick_upto(g, ants, k, width, area).1.len() == ants.len(),
        forall|j: int|
            k <= j < ants.len() ==> tick_upto(g, ants, k, width, area).1[j] == ants[j],
        forall|j: int|
            0 <= j < ants.len() ==> tick_upto(g, ants, k, width, area).1[j].wf(area as nat),
    decreases k,
{
    if k > 0 {
        lemma_tick_upto_wf(g, ants, k - 1, width, area);
        let prev = tick_upto(g, ants, k - 1, width, area);
        lemma_step_ant_wf(prev.0, prev.1[k - 1], width, area);
    }
}

/// Any number of ticks keeps the state valid and the ant count.
pub proof fn lemma_advance_wf(g: Seq<Cell>, ants: Seq<Ant>, steps: int, width: int, area: int)
    requires
        state_wf(g, ants, width, area),
        0 <= steps,
    ensures
        advance_spec(g, ants, steps, width, area).0.len() == area,
        advance_spec(g, ants, steps, width, area).1.len() == ants.len(),
        forall|j: int|
            0 <= j < ants.len() ==> advance_spec(g, ants, steps, width, area).1[j].wf(
                area as nat,
            ),
    decreases steps,
{
    if steps > 0 {
        lemma_advance_wf(g, ants, steps - 1, width, area);
        let prev = advance_spec(g, ants, steps - 1, width, area);
        lemma_tick_upto_wf(prev.0, prev.1, prev.1.len() as int, width, area);
    }
}

/// Performs one step of the rule for one ant: move, inspect the arrival
/// cell, turn by its state, flip it, and append the three repaint requests.
pub fn step_ant(grid: &mut Grid, ant: &mut Ant, updates: &mut Vec<DrawUpdate>)
    requires
        old(grid).wf(),
        old(ant).wf(old(grid).spec_area()),
    ensures
        final(grid).wf(),
        final(grid).spec_width() == old(grid).spec_width(),
        final(grid).spec_height() == old(grid).spec_height(),
        final(grid).spec_area() == old(grid).spec_area(),
        final(grid)@ == step_ant_spec(
            old(grid)@,
            *old(ant),
            old(grid).spec_width() as int,
            old(grid).spec_area() as int,
        ).0,
        *final(ant) == step_ant_spec(
            old(grid)@,
            *old(ant),
            old(grid).spec_width() as int,
            old(grid).spec_area() as int,
        ).1,
        final(ant).wf(old(grid).spec_area()),
        final(updates)@ == old(updates)@ + step_updates_spec(
            old(grid)@,
            *old(ant),
            old(grid).spec_width() as int,
            old(grid).spec_area() as int,
        ),
    {
        proof {
            grid.lemma_wf_dims();
        }
        let width = grid.width();
        let area = grid.area();
        let leave = grid.get(ant.pos);
        updates.push(DrawUpdate { pos: ant.pos, color: display_of(leave) });
        ant.step(width, area);
        let seen = grid.get(ant.pos);
        ant.turn(seen);
        grid.invert(ant.pos);
        let arrived = grid.get(ant.pos);
        updates.push(DrawUpdate { pos: ant.pos, color: display_of(arrived) });
        updates.push(DrawUpdate { pos: ant.pos, color: DisplayColor::AgentMarker });
        proof {
            let w = old(grid).spec_width() as int;
            let ar = old(grid).spec_area() as int;
            assert(updates@ =~= old(updates)@ + step_updates_spec(old(grid)@, *old(ant), w, ar));
        }
    }

/// Fills a vector with `count` randomly placed ants on a torus of `area`
/// cells; any placement may come back.
fn random_ants(count: usize, area: usize) -> (v: Vec<Ant>)
    requires
        area > 0,
    ensures
        v@.len() == count,
        forall|i: int| 0 <= i < count ==> v@[i].wf(area as nat),
{
    let mut v: Vec<Ant> = Vec::new();
    for k in 0..count
        invariant
            v@.len() == k,
            forall|i: int| 0 <= i < k ==> v@[i].wf(area as nat),
            area > 0,
    {
        v.push(Ant::random(area));
    }
    v
}

/// The whole automaton: one shared grid and the ant collection that walks
/// it, advanced tick by tick.
pub struct Simulation {
    grid: Grid,
    ants: Vec<Ant>,
}

impl Simulation {
    /// The grid contents, row-major.
    pub closed spec fn grid_view(&self) -> Seq<Cell> {
        self.grid@
    }

    /// The ants, in collection order.
    pub closed spec fn ants_view(&self) -> Seq<Ant> {
        self.ants@
    }

    /// Number of cells in one row.
    pub closed spec fn spec_width(&self) -> nat {
        self.grid.spec_width()
    }

    /// Number of rows.
    pub closed spec fn spec_height(&self) -> nat {
        self.grid.spec_height()
    }

    /// Total number of cells.
    pub closed spec fn spec_area(&self) -> nat {
        self.grid.spec_area()
    }

    /// The simulation's internal invariant: a well-formed grid and a
    /// non-empty ant collection that stands on it.
    pub closed spec fn wf(&self) -> bool {
        &&& self.grid.wf()
        &&& self.ants@.len() > 0
        &&& forall|i: int| 0 <= i < self.ants@.len() ==> self.ants@[i].wf(self.grid.spec_area())
    }

    /// The facts every caller may assume of a well-formed simulation.
    pub proof fn lemma_wf_facts(&self)
        requires
            self.wf(),
        ensures
            valid_torus(self.spec_width() as int, self.spec_area() as int),
            self.spec_area() == self.spec_width() * self.spec_height(),
            self.grid_view().len() == self.spec_area(),
            self.ants_view().len() > 0,
            state_wf(
                self.grid_view(),
                self.ants_view(),
                self.spec_width() as int,
                self.spec_area() as int,
            ),
    {
        self.grid.lemma_wf_dims();
    }

    /// Creates a simulation from an accepted configuration: an
    /// all-`Unmarked` grid and the configured number of randomly placed
    /// ants.
    pub fn new(config: &SimulationConfig) -> (s: Simulation)
        requires
            config.wf(),
        ensures
            s.wf(),
            s.spec_width() == config.width,
            s.spec_height() == config.height,
            s.grid_view() == Seq::new(
                (config.width * config.height) as nat,
                |i: int| Cell::Unmarked,
            ),
            s.ants_view().len() == config.ants,
    {
        let grid = Grid::new(config.width, config.height);
        proof {
            grid.lemma_wf_dims();
        }
        let area = grid.area();
        let ants = random_ants(config.ants, area);
        Simulation { grid, ants }
    }

    /// Builds a simulation from a given grid shape and a given ant
    /// collection, for deterministic runs.
    pub fn with_ants(width: usize, height: usize, ants: Vec<Ant>) -> (s: Simulation)
        requires
            width > 0,
            height > 0,
            width * height <= usize::MAX,
            ants@.len() > 0,
            forall|i: int| 0 <= i < ants@.len() ==> ants@[i].wf((width * height) as nat),
        ensures
            s.wf(),
            s.spec_width() == width,
            s.spec_height() == height,
            s.grid_view() == Seq::new((width * height) as nat, |i: int| Cell::Unmarked),
            s.ants_view() == ants@,
    {
        let grid = Grid::new(width, height);
        proof {
            assert forall|i: int| 0 <= i < ants@.len() implies ants@[i].wf(grid.spec_area()) by {
                assert(ants@[i].wf((width * height) as nat));
            }
        }
        Simulation { grid, ants }
    }

    /// Runs `steps` ticks.  In each tick every ant performs one step of the
    /// rule, in collection order; the repaint requests of all steps come
    /// back in order.
    pub fn advance(&mut self, steps: u32) -> (updates: Vec<DrawUpdate>)
        requires
            old(self).wf(),
        ensures
            final(self).wf(),
            final(self).spec_width() == old(self).spec_width(),
            final(self).spec_height() == old(self).spec_height(),
            final(self).grid_view() == advance_spec(
                old(self).grid_view(),
                old(self).ants_view(),
                steps as int,
                old(self).spec_width() as int,
                old(self).spec_area() as int,
            ).0,
            final(self).ants_view() == advance_spec(
                old(self).grid_view(),
                old(self).ants_view(),
                steps as int,
                old(self).spec_width() as int,
                old(self).spec_area() as int,
            ).1,
            updates@ == advance_updates_spec(
                old(self).grid_view(),
                old(self).ants_view(),
                steps as int,
                old(self).spec_width() as int,
                old(self).spec_area() as int,
            ),
    {
        proof {
            self.lemma_wf_facts();
        }
        let ghost w = self.grid.spec_width() as int;
        let ghost area_g = self.grid.spec_area() as int;
        let ghost hh = self.grid.spec_height();
        let ghost g0 = self.grid@;
        let ghost a0 = self.ants@;
        let mut updates: Vec<DrawUpdate> = Vec::new();
        let mut s: u32 = 0;
        while s < steps
            invariant
                s <= steps,
                state_wf(g0, a0, w, area_g),
                a0.len() > 0,
                self.grid.wf(),
                self.grid.spec_width() as int == w,
                self.grid.spec_height() == hh,
                self.grid.spec_area() as int == area_g,
                self.ants@.len() == a0.len(),
                self.grid@ == advance_spec(g0, a0, s as int, w, area_g).0,
                self.ants@ == advance_spec(g0, a0, s as int, w, area_g).1,
                updates@ == advance_updates_spec(g0, a0, s as int, w, area_g),
            decreases steps - s,
        {
            proof {
                lemma_advance_wf(g0, a0, s as int, w, area_g);
            }
            let ghost tg = self.grid@;
            let ghost ta = self.ants@;
            let ghost up0 = updates@;
            let n = self.ants.len();
            let mut i: usize = 0;
            while i < n
                invariant
                    i <= n,
                    n == ta.len(),
                    state_wf(tg, ta, w, area_g),
                    self.grid.wf(),
                    self.grid.spec_width() as int == w,
                    self.grid.spec_height() == hh,
                    self.grid.spec_area() as int == area_g,
                    self.ants@.len() == n,
                    self.grid@ == tick_upto(tg, ta, i as int, w, area_g).0,
                    self.ants@ == tick_upto(tg, ta, i as int, w, area_g).1,
                    updates@ == up0 + tick_updates_upto(tg, ta, i as int, w, area_g),
                decreases n - i,
            {
                proof {
                    lemma_tick_upto_wf(tg, ta, i as int, w, area_g);
                }
                let mut a = self.ants[i];
                step_ant(&mut self.grid, &mut a, &mut updates);
                self.ants.set(i, a);
                proof {
                    let prev = tick_upto(tg, ta, i as int, w, area_g);
                    let stepped = step_ant_spec(prev.0, prev.1[i as int], w, area_g);
                    assert(tick_upto(tg, ta, i as int + 1, w, area_g).0 == stepped.0);
                    assert(self.ants@ =~= tick_upto(tg, ta, i as int + 1, w, area_g).1);
                    assert(updates@ =~= up0 + tick_updates_upto(tg, ta, i as int + 1, w, area_g));
                }
                i += 1;
            }
            proof {
                let prev = advance_spec(g0, a0, s as int, w, area_g);
                assert(advance_spec(g0, a0, s as int + 1, w, area_g).0 == tick_upto(
                    prev.0,
                    prev.1,
                    prev.1.len() as int,
                    w,
                    area_g,
                ).0);
                assert(updates@ =~= advance_updates_spec(g0, a0, s as int + 1, w, area_g));
            }
            s += 1;
        }
        proof {
            lemma_advance_wf(g0, a0, steps as int, w, area_g);
            assert forall|i: int|
                0 <= i < self.ants@.len() implies self.ants@[i].wf(self.grid.spec_area()) by {
                assert(self.ants@[i].wf(area_g as nat));
            }
        }
        updates
    }

    /// Returns the simulation to its starting shape: every cell `Unmarked`
    /// again and a fresh, randomly placed ant collection of the same size.
    pub fn reset(&mut self)
        requires
            old(self).wf(),
        ensures
            final(self).wf(),
            final(self).spec_width() == old(self).spec_width(),
            final(self).spec_height() == old(self).spec_height(),
            final(self).grid_view() == Seq::new(old(self).spec_area(), |i: int| Cell::Unmarked),
            final(self).ants_view().len() == old(self).ants_view().len(),
            forall|i: int|
                0 <= i < final(self).ants_view().len() ==> final(self).ants_view()[i].wf(
                    old(self).spec_area(),
                ),
    {
        proof {
            self.grid.lemma_wf_dims();
        }
        self.grid.reset();
        let area = self.grid.area();
        let count = self.ants.len();
        self.ants = random_ants(count, area);
        proof {
            assert forall|i: int|
                0 <= i < self.ants@.len() implies self.ants@[i].wf(
                self.grid.spec_area(),
            ) by {
                assert(self.ants@[i].wf(area as nat));
            }
        }
    }

    /// Number of cells in one row.
    pub fn width(&self) -> (w: usize)
        ensures
            w == self.spec_width(),
    {
        self.grid.width()
    }

    /// Number of rows.
    pub fn height(&self) -> (h: usize)
        ensures
            h == self.spec_height(),
    {
        self.grid.height()
    }

    /// Total number of cells.
    pub fn area(&self) -> (a: usize)
        ensures
            a == self.spec_area(),
    {
        self.grid.area()
    }

    /// Number of ants.
    pub fn ant_count(&self) -> (n: usize)
        ensures
            n == self.ants_view().len(),
    {
        self.ants.len()
    }

    /// The state of the cell at a valid linear index.
    pub fn cell(&self, index: usize) -> (c: Cell)
        requires
            self.wf(),
            index < self.grid_view().len(),
        ensures
            c == self.grid_view()[index as int],
    {
        self.grid.get(index)
    }

    /// The ant in the given collection slot.
    pub fn ant(&self, i: usize) -> (a: Ant)
        requires
            i < self.ants_view().len(),
        ensures
            a == self.ants_view()[i as int],
    {
        self.ants[i]
    }
}

/// Raises the target tick rate by the fixed increment of 5 ticks per
/// second.
pub fn tick_rate_up(rate: u32) -> (r: u32)
    requires
        rate + 5 <= u32::MAX,
    ensures
        r == rate + 5,
{
    rate + 5
}

/// Lowers the target tick rate by the fixed increment of 5 ticks per
/// second, floored at 1: the rate never reaches zero.
pub fn tick_rate_down(rate: u32) -> (r: u32)
    ensures
        r == if rate > 5 {
            rate - 5
        } else {
            1int
        },
        r >= 1,
{
    if rate > 5 {
        rate - 5
    } else {
        1
    }
}

/// Pixel origin of the cell at a linear index: its column and row scaled by
/// the pixel edge length of one cell.
pub fn cell_origin(pos: usize, width: usize, cell_size: u32) -> (xy: (usize, usize))
    requires
        width > 0,
        col_of(pos as int, width as int) * cell_size as int <= usize::MAX,
        row_of(pos as int, width as int) * cell_size as int <= usize::MAX,
    ensures
        xy.0 == col_of(pos as int, width as int) * cell_size as int,
        xy.1 == row_of(pos as int, width as int) * cell_size as int,
{
    let x = (pos % width) * (cell_size as usize);
    let y = (pos / width) * (cell_size as usize);
    (x, y)
}

} // verus!
