use vstd::prelude::*;
use vstd::arithmetic::div_mod::lemma_fundamental_div_mod;
use vstd::arithmetic::div_mod::lemma_fundamental_div_mod_converse;
use vstd::arithmetic::div_mod::lemma_small_mod;

use crate::direction::Direction;
use crate::grid::Cell;
use crate::grid::next_index;
use crate::grid::valid_torus;
use crate::rng::random_below;

verus! {

/// One agent: a linear grid position and a heading.
#[derive(Clone, Copy, Debug, PartialEq, Eq, Structural)]
pub struct Ant {
    pub pos: usize,
    pub dir: Direction,
}

/// The heading after one turn of the rule: a clockwise step on an
/// `Unmarked` cell, a counter-clockwise step on a `Marked` one.
pub open spec fn turn_of(dir: Direction, cell: Cell) -> Direction {
    match cell {
        Cell::Unmarked => dir.spec_next(),
        Cell::Marked => dir.spec_prev(),
    }
}

impl Ant {
    /// An ant is well formed on a torus of `area` cells when it stands on it.
    pub open spec fn wf(self, area: nat) -> bool {
        self.pos < area
    }

    /// Creates an ant at the given position with the given heading.
    pub fn new(pos: usize, dir: Direction) -> (a: Ant)
        ensures
            a == (Ant { pos, dir }),
    {
        Ant { pos, dir }
    }

    /// Creates an ant at a random position of the torus with a random
    /// heading; any position below `area` and any heading may come back.
    pub fn random(area: usize) -> (a: Ant)
        requires
            area > 0,
        ensures
            a.wf(area as nat),
    {
        Ant { pos: random_below(area), dir: Direction::random() }
    }

    /// Moves one cell in the current heading, wrapping on both axes of the
    /// torus; the heading is untouched.  The move is unconditional: it
    /// depends on the heading alone, never on any cell's state.
    pub fn step(&mut self, width: usize, area: usize)
        requires
            valid_torus(width as int, area as int),
            old(self).wf(area as nat),
        ensures
            final(self).pos == next_index(
                old(self).pos as int,
                old(self).dir,
                width as int,
                area as int,
            ),
            final(self).wf(area as nat),
            final(self).dir == old(self).dir,
    {
        proof {
            crate::grid::lemma_toroidal_closure(
                self.pos as int,
                self.dir,
                width as int,
                area as int,
            );
        }
        let pos = self.pos;
        self.pos = match self.dir {
            Direction::Up => {
                if pos < width {
                    proof {
                        lemma_fundamental_div_mod_converse(
                            pos as int - width as int,
                            area as int,
                            -1,
                            pos as int - width as int + area as int,
                        );
                    }
                    pos + (area - width)
                } else {
                    proof {
                        lemma_fundamental_div_mod_converse(
                            pos as int - width as int,
                            area as int,
                            0,
                            pos as int - width as int,
                        );
                    }
                    pos - width
                }
            },
            Direction::Down => {
                if pos >= area - width {
                    proof {
                        lemma_fundamental_div_mod_converse(
                            pos as int + width as int,
                            area as int,
                            1,
                            pos as int + width as int - area as int,
                        );
                    }
                    pos - (area - width)
                } else {
                    proof {
                        lemma_fundamental_div_mod_converse(
                            pos as int + width as int,
                            area as int,
                            0,
                            pos as int + width as int,
                        );
                    }
                    pos + width
                }
            },
            Direction::Right => {
                if (pos + 1) % width == 0 {
                    proof {
                        if pos + 1 < width {
                            lemma_small_mod((pos + 1) as nat, width as nat);
                        }
                    }
                    pos + 1 - width
                } else {
                    proof {
                        assert(pos + 1 != area);
                    }
                    pos + 1
                }
            },
            Direction::Left => {
                if pos % width == 0 {
                    proof {
                        lemma_fundamental_div_mod(pos as int, width as int);
                        lemma_fundamental_div_mod(area as int, width as int);
                        let q = pos as int / width as int;
                        let h = area as int / width as int;
                        assert(pos + width <= area) by (nonlinear_arith)
                            requires
                                width > 0,
                                pos == width as int * q,
                                area == width as int * h,
                                pos < area,
                        ;
                    }
                    pos + width - 1
                } else {
                    proof {
                        if pos == 0 {
                            lemma_small_mod(0, width as nat);
                        }
                    }
                    pos - 1
                }
            },
        };
    }

    /// Turns according to the rule: clockwise on an `Unmarked` cell,
    /// counter-clockwise on a `Marked` one.  The position is untouched.
    pub fn turn(&mut self, cell: Cell)
        ensures
            final(self).dir == turn_of(old(self).dir, cell),
            final(self).pos == old(self).pos,
    {
        match cell {
            Cell::Unmarked => {
                self.dir = self.dir.next();
            },
            Cell::Marked => {
                self.dir = self.dir.prev();
            },
        }
    }
}

} // verus!
