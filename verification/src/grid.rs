use vstd::prelude::*;
use vstd::arithmetic::div_mod::lemma_fundamental_div_mod;
use vstd::arithmetic::div_mod::lemma_fundamental_div_mod_converse;
use vstd::arithmetic::div_mod::lemma_small_mod;

use crate::direction::Direction;

verus! {

/// Row of a linear index on a grid `width` cells wide.
pub open spec fn row_of(pos: int, width: int) -> int {
    pos / width
}

/// Column of a linear index on a grid `width` cells wide.
pub open spec fn col_of(pos: int, width: int) -> int {
    pos % width
}

/// A linear index space `[0, area)` forms a torus when the width is positive
/// and the space consists of whole rows.
pub open spec fn valid_torus(width: int, area: int) -> bool {
    0 < width <= area && area % width == 0
}

/// The linear index one cell away from `pos` in direction `dir`, wrapping on
/// both axes of a torus with `width` columns and `area` cells in all.
pub open spec fn next_index(pos: int, dir: Direction, width: int, area: int) -> int {
    match dir {
        Direction::Up => (pos - width) % area,
        Direction::Down => (pos + width) % area,
        Direction::Right => if (pos + 1) % width == 0 {
            pos + 1 - width
        } else {
            pos + 1
        },
        Direction::Left => if pos % width == 0 {
            pos + width - 1
        } else {
            pos - 1
        },
    }
}

/// Toroidal closure: from any valid index, one move in any of the four
/// headings lands on a valid index again.
pub proof fn lemma_toroidal_closure(pos: int, dir: Direction, width: int, area: int)
    requires
        valid_torus(width, area),
        0 <= pos < area,
    ensures
        0 <= next_index(pos, dir, width, area) < area,
{
    match dir {
        Direction::Up => {
            if pos >= width {
                lemma_fundamental_div_mod_converse(pos - width, area, 0, pos - width);
            } else {
                lemma_fundamental_div_mod_converse(pos - width, area, -1, pos - width + area);
            }
        },
        Direction::Down => {
            if pos + width < area {
                lemma_fundamental_div_mod_converse(pos + width, area, 0, pos + width);
            } else {
                lemma_fundamental_div_mod_converse(pos + width, area, 1, pos + width - area);
            }
        },
        Direction::Right => {
            if (pos + 1) % width == 0 {
                if pos + 1 < width {
                    lemma_small_mod((pos + 1) as nat, width as nat);
                }
            } else {
                assert(pos + 1 != area);
            }
        },
        Direction::Left => {
            if pos % width == 0 {
                lemma_fundamental_div_mod(pos, width);
                lemma_fundamental_div_mod(area, width);
                let q = pos / width;
                let h = area / width;
                assert(pos + width <= area) by (nonlinear_arith)
                    requires
                        width > 0,
                        pos == width * q,
                        area == width * h,
                        pos < area,
                ;
            } else {
                assert(pos != 0) by {
                    if pos == 0 {
                        lemma_small_mod(0, width as nat);
                    }
                }
            }
        },
    }
}

/// Row and column wrap correctness, one lemma per edge.  Moving Right from
/// the last column lands in column 0 of the same row.
pub proof fn lemma_wrap_right(pos: int, width: int, area: int)
    requires
        valid_torus(width, area),
        0 <= pos < area,
        col_of(pos, width) == width - 1,
    ensures
        row_of(next_index(pos, Direction::Right, width, area), width) == row_of(pos, width),
        col_of(next_index(pos, Direction::Right, width, area), width) == 0,
{
    lemma_fundamental_div_mod(pos, width);
    let r = row_of(pos, width);
    assert(pos + 1 == (r + 1) * width) by (nonlinear_arith)
        requires
            pos == width * r + (width - 1),
    ;
    lemma_fundamental_div_mod_converse(pos + 1, width, r + 1, 0);
    assert(pos + 1 - width == r * width) by (nonlinear_arith)
        requires
            pos + 1 == (r + 1) * width,
    ;
    lemma_fundamental_div_mod_converse(pos + 1 - width, width, r, 0);
}

/// Moving Left from column 0 lands in the last column of the same row.
pub proof fn lemma_wrap_left(pos: int, width: int, area: int)
    requires
        valid_torus(width, area),
        0 <= pos < area,
        col_of(pos, width) == 0,
    ensures
        row_of(next_index(pos, Direction::Left, width, area), width) == row_of(pos, width),
        col_of(next_index(pos, Direction::Left, width, area), width) == width - 1,
{
    lemma_fundamental_div_mod(pos, width);
    let r = row_of(pos, width);
    assert(pos + width - 1 == r * width + (width - 1)) by (nonlinear_arith)
        requires
            pos == width * r,
    ;
    lemma_fundamental_div_mod_converse(pos + width - 1, width, r, width - 1);
}

/// Moving Down from the last row lands in row 0 of the same column.
pub proof fn lemma_wrap_down(pos: int, width: int, area: int)
    requires
        valid_torus(width, area),
        0 <= pos < area,
        row_of(pos, width) == area / width - 1,
    ensures
        row_of(next_index(pos, Direction::Down, width, area), width) == 0,
        col_of(next_index(pos, Direction::Down, width, area), width) == col_of(pos, width),
{
    lemma_fundamental_div_mod(pos, width);
    lemma_fundamental_div_mod(area, width);
    let h = area / width;
    let c = col_of(pos, width);
    assert(pos + width == area + c) by (nonlinear_arith)
        requires
            pos == width * (h - 1) + c,
            area == width * h,
    ;
    lemma_fundamental_div_mod_converse(pos + width, area, 1, c);
    lemma_fundamental_div_mod_converse(c, width, 0, c);
}

/// Moving Up from row 0 lands in the last row of the same column.
pub proof fn lemma_wrap_up(pos: int, width: int, area: int)
    requires
        valid_torus(width, area),
        0 <= pos < area,
        row_of(pos, width) == 0,
    ensures
        row_of(next_index(pos, Direction::Up, width, area), width) == area / width - 1,
        col_of(next_index(pos, Direction::Up, width, area), width) == col_of(pos, width),
{
    lemma_fundamental_div_mod(pos, width);
    lemma_fundamental_div_mod(area, width);
    let h = area / width;
    let c = col_of(pos, width);
    lemma_fundamental_div_mod_converse(pos - width, area, -1, pos - width + area);
    assert(pos - width + area == (h - 1) * width + c) by (nonlinear_arith)
        requires
            pos == c,
            area == width * h,
    ;
    lemma_fundamental_div_mod_converse(pos - width + area, width, h - 1, c);
}

/// The two states a grid cell can hold.
#[derive(Clone, Copy, Debug, PartialEq, Eq, Structural)]
pub enum Cell {
    Unmarked,
    Marked,
}

impl Cell {
    /// The opposite state.
    pub open spec fn spec_flip(self) -> Cell {
        match self {
            Cell::Unmarked => Cell::Marked,
            Cell::Marked => Cell::Unmarked,
        }
    }

    /// The cell state that one stored bit stands for.
    pub open spec fn from_bit(b: bool) -> Cell {
        if b {
            Cell::Marked
        } else {
            Cell::Unmarked
        }
    }

    /// Returns the opposite state.
    pub fn flip(self) -> (r: Cell)
        ensures
            r == self.spec_flip(),
    {
        match self {
            Cell::Unmarked => Cell::Marked,
            Cell::Marked => Cell::Unmarked,
        }
    }
}

/// The contents of `s` with the cell at `i` flipped.
pub open spec fn flip_at(s: Seq<Cell>, i: int) -> Seq<Cell> {
    s.update(i, s[i].spec_flip())
}

/// Inverting a cell's state is an involution: flipping the same cell twice
/// restores the original grid contents.
pub proof fn lemma_flip_at_twice(s: Seq<Cell>, i: int)
    requires
        0 <= i < s.len(),
    ensures
        flip_at(flip_at(s, i), i) =~= s,
{
}

/// Bit-packed cell storage: a thin shell around a bitvec bit-box, reached
/// only through the trusted accessors below.
#[verifier::external_body]
pub struct BitStorage {
    bits: bitvec::boxed::BitBox,
}

/// The bits that the storage holds, in index order.
pub uninterp spec fn bits_of(b: BitStorage) -> Seq<bool>;

/// Relies on bitvec's `BitVec::repeat` (converted by `into_boxed_bitslice`):
/// a freshly allocated box of `len` bits, all zero.
#[verifier::external_body]
fn zero_bits(len: usize) -> (b: BitStorage)
    ensures
        bits_of(b) == Seq::new(len as nat, |i: int| false),
{
    BitStorage { bits: bitvec::vec::BitVec::repeat(false, len).into_boxed_bitslice() }
}

/// Relies on bitvec's `Index<usize>` for bit-slices (reached through the
/// bit-box's deref): the bit at index `i`; indexing panics out of bounds.
#[verifier::external_body]
fn bit_at(b: &BitStorage, i: usize) -> (r: bool)
    requires
        i < bits_of(*b).len(),
    ensures
        r == bits_of(*b)[i as int],
{
    b.bits[i]
}

/// Relies on bitvec's `BitSlice::set` (reached through the bit-box's deref):
/// writes `v` into the bit at `i`; it panics only out of bounds.
#[verifier::external_body]
fn set_bit(b: &mut BitStorage, i: usize, v: bool)
    requires
        i < bits_of(*old(b)).len(),
    ensures
        bits_of(*final(b)) == bits_of(*old(b)).update(i as int, v),
{
    b.bits.set(i, v)
}

/// The shared board: a `width` x `height` torus of two-state cells, stored
/// one bit per cell in row-major order.
pub struct Grid {
    bits: BitStorage,
    width: usize,
    height: usize,
    area: usize,
}

impl View for Grid {
    type V = Seq<Cell>;

    closed spec fn view(&self) -> Seq<Cell> {
        bits_of(self.bits).map(|i: int, b: bool| Cell::from_bit(b))
    }
}

impl Grid {
    /// Number of cells in one row.
    pub closed spec fn spec_width(&self) -> nat {
        self.width as nat
    }

    /// Number of rows.
    pub closed spec fn spec_height(&self) -> nat {
        self.height as nat
    }

    /// Total number of cells.
    pub closed spec fn spec_area(&self) -> nat {
        self.area as nat
    }

    /// The grid's internal invariant: positive dimensions and a backing bit
    /// array of exactly `width * height` bits.
    pub closed spec fn wf(&self) -> bool {
        &&& self.width > 0
        &&& self.height > 0
        &&& self.area == self.width * self.height
        &&& bits_of(self.bits).len() == self.area
    }

    /// The dimension facts every caller may assume of a well-formed grid.
    pub proof fn lemma_wf_dims(&self)
        requires
            self.wf(),
        ensures
            self.spec_area() == self.spec_width() * self.spec_height(),
            self@.len() == self.spec_area(),
            0 < self.spec_width() <= self.spec_area(),
            self.spec_area() % self.spec_width() == 0,
    {
        let w = self.width as int;
        let h = self.height as int;
        assert(w <= w * h && (w * h) % w == 0) by (nonlinear_arith)
            requires
                w > 0,
                h > 0,
        ;
    }

    /// Creates an all-`Unmarked` grid of the given dimensions.
    pub fn new(width: usize, height: usize) -> (g: Grid)
        requires
            width > 0,
            height > 0,
            width * height <= usize::MAX,
        ensures
            g.wf(),
            g.spec_width() == width,
            g.spec_height() == height,
            g.spec_area() == width * height,
            g@ == Seq::new((width * height) as nat, |i: int| Cell::Unmarked),
    {
        let area = width * height;
        let bits = zero_bits(area);
        let g = Grid { bits, width, height, area };
        proof {
            assert(g@ =~= Seq::new((width * height) as nat, |i: int| Cell::Unmarked));
        }
        g
    }

    /// Number of cells in one row.
    pub fn width(&self) -> (w: usize)
        ensures
            w == self.spec_width(),
    {
        self.width
    }

    /// Number of rows.
    pub fn height(&self) -> (h: usize)
        ensures
            h == self.spec_height(),
    {
        self.height
    }

    /// Total number of cells.
    pub fn area(&self) -> (a: usize)
        ensures
            a == self.spec_area(),
    {
        self.area
    }

    /// The state at a valid linear index.
    pub fn get(&self, index: usize) -> (c: Cell)
        requires
            self.wf(),
            index < self@.len(),
        ensures
            c == self@[index as int],
    {
        let b = bit_at(&self.bits, index);
        if b {
            Cell::Marked
        } else {
            Cell::Unmarked
        }
    }

    /// Flips the state of the cell at `index`; the grid's only mutator.
    pub fn invert(&mut self, index: usize)
        requires
            old(self).wf(),
            index < old(self)@.len(),
        ensures
            final(self).wf(),
            final(self).spec_width() == old(self).spec_width(),
            final(self).spec_height() == old(self).spec_height(),
            final(self).spec_area() == old(self).spec_area(),
            final(self)@ == flip_at(old(self)@, index as int),
    {
        let b = bit_at(&self.bits, index);
        set_bit(&mut self.bits, index, !b);
        proof {
            assert(self@ =~= flip_at(old(self)@, index as int));
        }
    }

    /// Sets every cell back to `Unmarked`, keeping the dimensions.
    pub fn reset(&mut self)
        requires
            old(self).wf(),
        ensures
            final(self).wf(),
            final(self).spec_width() == old(self).spec_width(),
            final(self).spec_height() == old(self).spec_height(),
            final(self).spec_area() == old(self).spec_area(),
            final(self)@ == Seq::new(old(self)@.len(), |i: int| Cell::Unmarked),
    {
        self.bits = zero_bits(self.area);
        proof {
            assert(self@ =~= Seq::new(old(self)@.len(), |i: int| Cell::Unmarked));
        }
    }
}

} // verus!
