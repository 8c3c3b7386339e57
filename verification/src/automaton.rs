//! The verified cellular automaton: a dense toroidal grid with a swappable
//! ruleset, in-place mutators, resizing, and generation stepping.

use core::mem;

use vstd::arithmetic::div_mod::{lemma_mod_multiples_vanish, lemma_small_mod};
use vstd::prelude::*;

use crate::model::{
    filled, lemma_row_major, lemma_set_on_prefix_len, live_at, neighbor_count, resized_height,
    resized_width, set_on_prefix, step_cell, stepped, stepped_n, toggled, with_cells_on, wrap,
    GridModel,
};
use crate::rules::{conway, Rules};

verus! {

/// The 8 toroidal neighbor offsets for a `width` by `height` grid, each
/// pre-biased into `[0, height)` by `[0, width)` so that applying one is a
/// single wrapping add. Listed row-major around the cell: up-left, up,
/// up-right, left, right, down-left, down, down-right.
pub open spec fn deltas_for(width: usize, height: usize) -> Seq<(usize, usize)> {
    let up: usize = if height == 0 {
        0usize
    } else {
        (height - 1) as usize
    };
    let left: usize = if width == 0 {
        0usize
    } else {
        (width - 1) as usize
    };
    seq![
        (up, left),
        (up, 0usize),
        (up, 1usize),
        (0usize, left),
        (0usize, 1usize),
        (1usize, left),
        (1usize, 0usize),
        (1usize, 1usize),
    ]
}

/// A two-dimensional cellular automaton with a finite grid of cells.
pub struct Automaton {
    width: usize,
    height: usize,
    cells: Vec<u8>,
    cells_step: Vec<u8>,
    rules: Rules,
    generation: usize,
    neighbor_deltas: [(usize, usize); 8],
}

impl View for Automaton {
    type V = GridModel;

    closed spec fn view(&self) -> GridModel {
        GridModel {
            width: self.width as nat,
            height: self.height as nat,
            cells: self.cells@,
            generation: self.generation as nat,
            rules: self.rules@,
        }
    }
}

impl Automaton {
    /// The internal consistency of an automaton: both buffers span exactly
    /// `width * height` cells and the stored neighbor offsets match the
    /// current dimensions.
    pub closed spec fn well_formed(&self) -> bool {
        &&& self.cells@.len() == self.width * self.height
        &&& self.cells_step@.len() == self.width * self.height
        &&& self.width * self.height <= usize::MAX
        &&& self.neighbor_deltas@ == deltas_for(self.width, self.height)
    }

    /// Constructs a new automaton with all cell states set to 0, generation
    /// count 0, and Conway's rules.
    pub fn new(width: usize, height: usize) -> (automaton: Self)
        requires
            width * height <= usize::MAX,
        ensures
            automaton.well_formed(),
            automaton@.width == width,
            automaton@.height == height,
            automaton@.cells == filled((width * height) as nat, 0u8),
            automaton@.generation == 0,
            automaton@.rules == conway(),
    {
        let size = width * height;
        let mut automaton = Automaton {
            width,
            height,
            cells: filled_vec(size, 0),
            cells_step: filled_vec(size, 0),
            rules: Rules::default(),
            generation: 0,
            neighbor_deltas: [(0, 0); 8],
        };
        automaton.set_neighbor_deltas(width, height);
        automaton
    }

    /// Returns the width (horizontal length) of the automaton.
    pub fn width(&self) -> (width: usize)
        ensures
            width == self@.width,
    {
        self.width
    }

    /// Returns the height (vertical length) of the automaton.
    pub fn height(&self) -> (height: usize)
        ensures
            height == self@.height,
    {
        self.height
    }

    /// Returns the number of generations elapsed since the last reseed.
    pub fn generation(&self) -> (generation: usize)
        ensures
            generation == self@.generation,
    {
        self.generation
    }

    /// Returns a read-only view of the automaton's cells, row-major. The
    /// borrow is invalidated by any subsequent mutating call.
    pub fn cells(&self) -> (cells: &Vec<u8>)
        ensures
            cells@ == self@.cells,
    {
        &self.cells
    }

    /// Get a clone of the automaton's cells.
    pub fn to_vec(&self) -> (cells: Vec<u8>)
        ensures
            cells@ == self@.cells,
    {
        let mut cells: Vec<u8> = Vec::new();
        let mut i: usize = 0;
        while i < self.cells.len()
            invariant
                i <= self.cells@.len(),
                cells@ == self.cells@.subrange(0, i as int),
            decreases self.cells@.len() - i,
        {
            cells.push(self.cells[i]);
            assert(cells@ =~= self.cells@.subrange(0, i + 1));
            i += 1;
        }
        assert(cells@ =~= self.cells@);
        cells
    }

    /// Get a clone of the automaton's cells.
    pub fn get_cells(&self) -> (cells: Vec<u8>)
        ensures
            cells@ == self@.cells,
    {
        self.to_vec()
    }

    /// Recomputes the stored neighbor offsets for the given dimensions; these
    /// deltas are required for an automaton's `neighbors` method.
    fn set_neighbor_deltas(&mut self, width: usize, height: usize)
        ensures
            final(self).neighbor_deltas@ == deltas_for(width, height),
            final(self).width == old(self).width,
            final(self).height == old(self).height,
            final(self).cells == old(self).cells,
            final(self).cells_step == old(self).cells_step,
            final(self).rules == old(self).rules,
            final(self).generation == old(self).generation,
    {
        let up = if height == 0 {
            0
        } else {
            height - 1
        };
        let left = if width == 0 {
            0
        } else {
            width - 1
        };
        self.neighbor_deltas = [
            (up, left),
            (up, 0),
            (up, 1),
            (0, left),
            (0, 1),
            (1, left),
            (1, 0),
            (1, 1),
        ];
        proof {
            assert(self.neighbor_deltas@ =~= deltas_for(width, height));
        }
    }

    /// Resizes the automaton so that `width` is equal to `new_width`.
    ///
    /// If `new_width` is greater than `width`, the automaton's rows are
    /// extended by the difference, with each additional column filled with 0.
    /// If `new_width` is less than `width`, the automaton's rows are simply
    /// truncated. Row contents are preserved at every surviving column index.
    pub fn resize_width(&mut self, new_width: usize)
        requires
            old(self).well_formed(),
            new_width * old(self)@.height <= usize::MAX,
        ensures
            final(self).well_formed(),
            final(self)@.width == new_width,
            final(self)@.height == old(self)@.height,
            final(self)@.generation == old(self)@.generation,
            final(self)@.rules == old(self)@.rules,
            final(self)@.cells == resized_width(
                old(self)@.cells,
                old(self)@.width,
                old(self)@.height,
                new_width as nat,
            ),
    {
        let ghost target = resized_width(
            self@.cells,
            self@.width,
            self@.height,
            new_width as nat,
        );
        proof {
            assert(self@.height * new_width == new_width * self@.height) by (nonlinear_arith);
        }
        let mut new_cells: Vec<u8> = Vec::new();
        let mut row: usize = 0;
        while row < self.height
            invariant
                row <= self.height,
                self.well_formed(),
                new_width * self@.height <= usize::MAX,
                target == resized_width(self@.cells, self@.width, self@.height, new_width as nat),
                target.len() == self@.height * new_width,
                new_cells@.len() == row * new_width,
                forall|j: int| 0 <= j < new_cells@.len() ==> new_cells@[j] == target[j],
            decreases self.height - row,
        {
            let mut col: usize = 0;
            proof {
                assert(row * new_width + new_width == (row + 1) * new_width) by (nonlinear_arith);
                assert((row + 1) * new_width <= self@.height * new_width) by (nonlinear_arith)
                    requires
                        row + 1 <= self@.height,
                ;
            }
            while col < new_width
                invariant
                    row < self.height,
                    col <= new_width,
                    self.well_formed(),
                    target == resized_width(
                        self@.cells,
                        self@.width,
                        self@.height,
                        new_width as nat,
                    ),
                    target.len() == self@.height * new_width,
                    row * new_width + new_width <= self@.height * new_width <= usize::MAX,
                    new_cells@.len() == row * new_width + col,
                    forall|j: int| 0 <= j < new_cells@.len() ==> new_cells@[j] == target[j],
                decreases new_width - col,
            {
                proof {
                    lemma_row_major(new_width as nat, self@.height, row as nat, col as nat);
                }
                let state = if col < self.width {
                    proof {
                        lemma_row_major(self@.width, self@.height, row as nat, col as nat);
                        assert(self@.height * self@.width == self@.width * self@.height)
                            by (nonlinear_arith);
                    }
                    self.cells[row * self.width + col]
                } else {
                    0
                };
                new_cells.push(state);
                col += 1;
            }
            row += 1;
        }
        proof {
            assert(new_cells@ =~= target);
        }
        self.cells = new_cells;
        let step_len = new_width * self.height;
        self.cells_step = filled_vec(step_len, 0);
        self.width = new_width;
        let height = self.height;
        self.set_neighbor_deltas(new_width, height);
    }

    /// Resizes the automaton so that `width` is equal to `new_width`.
    ///
    /// If `new_width` is greater than `width`, the automaton's rows are
    /// extended by the difference, with each additional column filled with 0.
    /// If `new_width` is less than `width`, the automaton's rows are simply
    /// truncated. Row contents are preserved at every surviving column index.
    pub fn set_width(&mut self, new_width: usize)
        requires
            old(self).well_formed(),
            new_width * old(self)@.height <= usize::MAX,
        ensures
            final(self).well_formed(),
            final(self)@.width == new_width,
            final(self)@.height == old(self)@.height,
            final(self)@.generation == old(self)@.generation,
            final(self)@.rules == old(self)@.rules,
            final(self)@.cells == resized_width(
                old(self)@.cells,
                old(self)@.width,
                old(self)@.height,
                new_width as nat,
            ),
    {
        self.resize_width(new_width);
    }

    /// Resizes the automaton so that `height` is equal to `new_height`.
    ///
    /// If `new_height` is greater than `height`, whole zero-filled rows are
    /// appended at the tail of the buffer; if it is less, whole rows are
    /// truncated from the tail. All prior rows that survive are unchanged.
    pub fn resize_height(&mut self, new_height: usize)
        requires
            old(self).well_formed(),
            old(self)@.width * new_height <= usize::MAX,
        ensures
            final(self).well_formed(),
            final(self)@.width == old(self)@.width,
            final(self)@.height == new_height,
            final(self)@.generation == old(self)@.generation,
            final(self)@.rules == old(self)@.rules,
            final(self)@.cells == resized_height(
                old(self)@.cells,
                old(self)@.width,
                new_height as nat,
            ),
    {
        let ghost cells0 = self@.cells;
        let new_len = self.width * new_height;
        if new_len <= self.cells.len() {
            self.cells.truncate(new_len);
            proof {
                assert(self.cells@ =~= resized_height(cells0, self@.width, new_height as nat));
            }
        } else {
            while self.cells.len() < new_len
                invariant
                    cells0.len() <= self.cells@.len() <= new_len,
                    self.cells@.subrange(0, cells0.len() as int) == cells0,
                    forall|j: int|
                        cells0.len() <= j < self.cells@.len() ==> self.cells@[j] == 0u8,
                    self.width == old(self).width,
                    self.height == old(self).height,
                    self.generation == old(self).generation,
                    self.rules == old(self).rules,
                    self.cells_step == old(self).cells_step,
                    self.neighbor_deltas == old(self).neighbor_deltas,
                decreases new_len - self.cells@.len(),
            {
                self.cells.push(0);
                proof {
                    assert(self.cells@.subrange(0, cells0.len() as int) =~= cells0);
                }
            }
            proof {
                assert(self.cells@ =~= resized_height(cells0, self@.width, new_height as nat));
            }
        }
        self.cells_step = filled_vec(new_len, 0);
        self.height = new_height;
        let width = self.width;
        self.set_neighbor_deltas(width, new_height);
    }

    /// Resizes the automaton so that `height` is equal to `new_height`.
    ///
    /// If `new_height` is greater than `height`, whole zero-filled rows are
    /// appended at the tail of the buffer; if it is less, whole rows are
    /// truncated from the tail. All prior rows that survive are unchanged.
    pub fn set_height(&mut self, new_height: usize)
        requires
            old(self).well_formed(),
            old(self)@.width * new_height <= usize::MAX,
        ensures
            final(self).well_formed(),
            final(self)@.width == old(self)@.width,
            final(self)@.height == new_height,
            final(self)@.generation == old(self)@.generation,
            final(self)@.rules == old(self)@.rules,
            final(self)@.cells == resized_height(
                old(self)@.cells,
                old(self)@.width,
                new_height as nat,
            ),
    {
        self.resize_height(new_height);
    }

    /// Whether the cell at `(row, col)` is alive in its first generation.
    fn is_live(&self, row: usize, col: usize) -> (live: bool)
        requires
            self.well_formed(),
            row < self@.height,
            col < self@.width,
        ensures
            live == (live_at(self@.cells, self@.width, row as nat, col as nat) == 1),
    {
        proof {
            lemma_row_major(self@.width, self@.height, row as nat, col as nat);
            assert(self@.height * self@.width == self@.width * self@.height) by (nonlinear_arith);
        }
        let idx = row * self.width + col;
        self.cells[idx] == 1
    }

    /// Returns the count of a cell's live, first-generation neighbors, looked
    /// up through the stored toroidal offsets.
    fn neighbors(&self, row: usize, col: usize) -> (count: u8)
        requires
            self.well_formed(),
            row < self@.height,
            col < self@.width,
        ensures
            count == neighbor_count(self@.cells, self@.width, self@.height, row as nat, col as nat),
            count <= 8,
    {
        let up_delta = self.neighbor_deltas[0].0;
        let left_delta = self.neighbor_deltas[0].1;
        proof {
            assert(self.neighbor_deltas@[0] == deltas_for(self.width, self.height)[0]);
        }
        let up = wrap_add(row, up_delta, self.height);
        let down = wrap_add(row, 1, self.height);
        let left = wrap_add(col, left_delta, self.width);
        let right = wrap_add(col, 1, self.width);

        let mut count: u8 = 0;
        if self.is_live(up, left) {
            count += 1;
        }
        if self.is_live(up, col) {
            count += 1;
        }
        if self.is_live(up, right) {
            count += 1;
        }
        if self.is_live(row, left) {
            count += 1;
        }
        if self.is_live(row, right) {
            count += 1;
        }
        if self.is_live(down, left) {
            count += 1;
        }
        if self.is_live(down, col) {
            count += 1;
        }
        if self.is_live(down, right) {
            count += 1;
        }
        count
    }

    /// Toggles the state of a cell. If the cell state is 0, it is set to 1;
    /// any other state is set to 0. An out-of-range `(row, col)` is a no-op.
    pub fn toggle_cell(&mut self, row: usize, col: usize)
        requires
            old(self).well_formed(),
        ensures
            final(self).well_formed(),
            final(self)@.width == old(self)@.width,
            final(self)@.height == old(self)@.height,
            final(self)@.generation == old(self)@.generation,
            final(self)@.rules == old(self)@.rules,
            row < old(self)@.height && col < old(self)@.width ==> final(self)@.cells == old(
                self,
            )@.cells.update(
                (row * old(self)@.width + col) as int,
                toggled(old(self)@.cells[(row * old(self)@.width + col) as int]),
            ),
            !(row < old(self)@.height && col < old(self)@.width) ==> final(self)@.cells == old(
                self,
            )@.cells,
    {
        if row < self.height && col < self.width {
            proof {
                lemma_row_major(self@.width, self@.height, row as nat, col as nat);
                assert(self@.height * self@.width == self@.width * self@.height)
                    by (nonlinear_arith);
            }
            let idx = row * self.width + col;
            self.cells[idx] = if self.cells[idx] == 0 {
                1
            } else {
                0
            };
        }
    }

    /// Toggles the state of a cell. If the cell state is 0, it is set to 1;
    /// any other state is set to 0. An out-of-range `(row, col)` is a no-op.
    pub fn cell_toggle(&mut self, row: usize, col: usize)
        requires
            old(self).well_formed(),
        ensures
            final(self).well_formed(),
            final(self)@.width == old(self)@.width,
            final(self)@.height == old(self)@.height,
            final(self)@.generation == old(self)@.generation,
            final(self)@.rules == old(self)@.rules,
            row < old(self)@.height && col < old(self)@.width ==> final(self)@.cells == old(
                self,
            )@.cells.update(
                (row * old(self)@.width + col) as int,
                toggled(old(self)@.cells[(row * old(self)@.width + col) as int]),
            ),
            !(row < old(self)@.height && col < old(self)@.width) ==> final(self)@.cells == old(
                self,
            )@.cells,
    {
        self.toggle_cell(row, col);
    }

    /// Sets the state of cells in `locations` to 1 (first-generation alive).
    ///
    /// `locations` is a flat list of alternating row and column coordinates.
    /// A pair out of range is ignored individually without aborting the
    /// batch; a malformed batch (odd length, so some row has no matching
    /// column) is dropped whole rather than partially applied.
    pub fn set_cells_on(&mut self, locations: &[usize])
        requires
            old(self).well_formed(),
        ensures
            final(self).well_formed(),
            final(self)@.width == old(self)@.width,
            final(self)@.height == old(self)@.height,
            final(self)@.generation == old(self)@.generation,
            final(self)@.rules == old(self)@.rules,
            final(self)@.cells == with_cells_on(
                old(self)@.cells,
                old(self)@.width,
                old(self)@.height,
                locations@,
            ),
    {
        if locations.len() % 2 != 0 {
            return ;
        }
        let ghost cells0 = self@.cells;
        let pairs = locations.len() / 2;
        let mut k: usize = 0;
        while k < pairs
            invariant
                k <= pairs,
                2 * pairs <= locations@.len(),
                locations@.len() <= usize::MAX,
                self.well_formed(),
                self.width == old(self).width,
                self.height == old(self).height,
                self.generation == old(self).generation,
                self.rules == old(self).rules,
                self.cells_step == old(self).cells_step,
                self.neighbor_deltas == old(self).neighbor_deltas,
                cells0.len() == self@.width * self@.height,
                self.cells@ == set_on_prefix(cells0, self@.width, self@.height, locations@, k as nat),
            decreases pairs - k,
        {
            proof {
                lemma_set_on_prefix_len(cells0, self@.width, self@.height, locations@, k as nat);
            }
            let row = locations[2 * k];
            let col = locations[2 * k + 1];
            if row < self.height && col < self.width {
                proof {
                    lemma_row_major(self@.width, self@.height, row as nat, col as nat);
                    assert(self@.height * self@.width == self@.width * self@.height)
                        by (nonlinear_arith);
                }
                let idx = row * self.width + col;
                self.cells[idx] = 1;
            }
            k += 1;
        }
    }

    /// Sets the state of cells in `locations` to 1 (first-generation alive).
    ///
    /// `locations` is a flat list of alternating row and column coordinates.
    /// A pair out of range is ignored individually without aborting the
    /// batch; a malformed batch (odd length, so some row has no matching
    /// column) is dropped whole rather than partially applied.
    pub fn set_cells(&mut self, locations: &[usize])
        requires
            old(self).well_formed(),
        ensures
            final(self).well_formed(),
            final(self)@.width == old(self)@.width,
            final(self)@.height == old(self)@.height,
            final(self)@.generation == old(self)@.generation,
            final(self)@.rules == old(self)@.rules,
            final(self)@.cells == with_cells_on(
                old(self)@.cells,
                old(self)@.width,
                old(self)@.height,
                locations@,
            ),
    {
        self.set_cells_on(locations);
    }

    /// Sets the cell state of all the automaton's cells to `n` and resets the
    /// generation count, reseeding the grid.
    pub fn set_all_cells(&mut self, n: u8)
        requires
            old(self).well_formed(),
        ensures
            final(self).well_formed(),
            final(self)@.width == old(self)@.width,
            final(self)@.height == old(self)@.height,
            final(self)@.rules == old(self)@.rules,
            final(self)@.cells == filled(old(self)@.width * old(self)@.height, n),
            final(self)@.generation == 0,
    {
        let len = self.cells.len();
        self.cells = filled_vec(len, n);
        self.reset_generation();
    }

    /// Resets the generation count.
    fn reset_generation(&mut self)
        ensures
            final(self).generation == 0,
            final(self).width == old(self).width,
            final(self).height == old(self).height,
            final(self).cells == old(self).cells,
            final(self).cells_step == old(self).cells_step,
            final(self).rules == old(self).rules,
            final(self).neighbor_deltas == old(self).neighbor_deltas,
    {
        self.generation = 0;
    }

    /// Sets the survival rule to a different value, replacing the whole
    /// count set.
    pub fn set_survival_rule(&mut self, s: &[u8])
        requires
            old(self).well_formed(),
        ensures
            final(self).well_formed(),
            final(self)@.width == old(self)@.width,
            final(self)@.height == old(self)@.height,
            final(self)@.cells == old(self)@.cells,
            final(self)@.generation == old(self)@.generation,
            final(self)@.rules.survival == s@,
            final(self)@.rules.birth == old(self)@.rules.birth,
            final(self)@.rules.max_generation == old(self)@.rules.max_generation,
    {
        self.rules.survival = vstd::slice::slice_to_vec(s);
    }

    /// Sets the birth rule to a different value, replacing the whole count
    /// set.
    pub fn set_birth_rule(&mut self, b: &[u8])
        requires
            old(self).well_formed(),
        ensures
            final(self).well_formed(),
            final(self)@.width == old(self)@.width,
            final(self)@.height == old(self)@.height,
            final(self)@.cells == old(self)@.cells,
            final(self)@.generation == old(self)@.generation,
            final(self)@.rules.birth == b@,
            final(self)@.rules.survival == old(self)@.rules.survival,
            final(self)@.rules.max_generation == old(self)@.rules.max_generation,
    {
        self.rules.birth = vstd::slice::slice_to_vec(b);
    }

    /// Sets the generation rule — the greatest state a cell can age to — to a
    /// different value.
    pub fn set_generation_rule(&mut self, c: u8)
        requires
            old(self).well_formed(),
        ensures
            final(self).well_formed(),
            final(self)@.width == old(self)@.width,
            final(self)@.height == old(self)@.height,
            final(self)@.cells == old(self)@.cells,
            final(self)@.generation == old(self)@.generation,
            final(self)@.rules.max_generation == c,
            final(self)@.rules.survival == old(self)@.rules.survival,
            final(self)@.rules.birth == old(self)@.rules.birth,
    {
        self.rules.generation = c;
    }

    /// Computes one generation into the secondary buffer — every cell's
    /// transition observes the pre-step grid — then exchanges the buffers.
    fn step_once(&mut self)
        requires
            old(self).well_formed(),
        ensures
            final(self).well_formed(),
            final(self)@.width == old(self)@.width,
            final(self)@.height == old(self)@.height,
            final(self)@.generation == old(self)@.generation,
            final(self)@.rules == old(self)@.rules,
            final(self)@.cells == stepped(
                old(self)@.cells,
                old(self)@.width,
                old(self)@.height,
                old(self)@.rules,
            ),
    {
        let ghost cells0 = self@.cells;
        let mut row: usize = 0;
        while row < self.height
            invariant
                row <= self.height,
                self.well_formed(),
                self.width == old(self).width,
                self.height == old(self).height,
                self.generation == old(self).generation,
                self.rules == old(self).rules,
                self.neighbor_deltas == old(self).neighbor_deltas,
                self.cells@ == cells0,
                forall|j: int|
                    0 <= j < row * self@.width ==> self.cells_step@[j] == step_cell(
                        cells0,
                        self@.width,
                        self@.height,
                        self@.rules,
                        j,
                    ),
            decreases self.height - row,
        {
            let mut col: usize = 0;
            while col < self.width
                invariant
                    row < self.height,
                    col <= self.width,
                    self.well_formed(),
                    self.width == old(self).width,
                    self.height == old(self).height,
                    self.generation == old(self).generation,
                    self.rules == old(self).rules,
                    self.neighbor_deltas == old(self).neighbor_deltas,
                    self.cells@ == cells0,
                    forall|j: int|
                        0 <= j < row * self@.width + col ==> self.cells_step@[j] == step_cell(
                            cells0,
                            self@.width,
                            self@.height,
                            self@.rules,
                            j,
                        ),
                decreases self.width - col,
            {
                let count = self.neighbors(row, col);
                proof {
                    lemma_row_major(self@.width, self@.height, row as nat, col as nat);
                    assert(self@.height * self@.width == self@.width * self@.height)
                        by (nonlinear_arith);
                }
                let idx = row * self.width + col;
                let next = self.rules.apply(self.cells[idx], count);
                self.cells_step[idx] = next;
                proof {
                    assert(self.cells_step@[idx as int] == step_cell(
                        cells0,
                        self@.width,
                        self@.height,
                        self@.rules,
                        idx as int,
                    ));
                }
                col += 1;
            }
            proof {
                assert((row + 1) * self@.width == row * self@.width + self@.width)
                    by (nonlinear_arith);
            }
            row += 1;
        }
        proof {
            assert(self@.height * self@.width == self@.width * self@.height) by (nonlinear_arith);
            assert(self.cells_step@ =~= stepped(cells0, self@.width, self@.height, self@.rules));
        }
        mem::swap(&mut self.cells, &mut self.cells_step);
    }

    /// Calculates and sets the next state of all cells in the automaton,
    /// advancing `n` generations in one call and adding `n` to the
    /// generation count.
    pub fn step(&mut self, n: usize)
        requires
            old(self).well_formed(),
            old(self)@.generation + n <= usize::MAX,
        ensures
            final(self).well_formed(),
            final(self)@.width == old(self)@.width,
            final(self)@.height == old(self)@.height,
            final(self)@.rules == old(self)@.rules,
            final(self)@.generation == old(self)@.generation + n,
            final(self)@.cells == stepped_n(
                old(self)@.cells,
                old(self)@.width,
                old(self)@.height,
                old(self)@.rules,
                n as nat,
            ),
    {
        let ghost cells0 = self@.cells;
        let mut k: usize = 0;
        while k < n
            invariant
                k <= n,
                self.well_formed(),
                self@.width == old(self)@.width,
                self@.height == old(self)@.height,
                self@.generation == old(self)@.generation,
                self@.rules == old(self)@.rules,
                self.generation + n <= usize::MAX,
                self.cells@ == stepped_n(cells0, self@.width, self@.height, self@.rules, k as nat),
            decreases n - k,
        {
            self.step_once();
            k += 1;
        }
        self.generation = self.generation + n;
    }
}

/// A buffer of `len` cells, every one in state `value`.
fn filled_vec(len: usize, value: u8) -> (cells: Vec<u8>)
    ensures
        cells@ == filled(len as nat, value),
{
    let mut cells: Vec<u8> = Vec::new();
    let mut i: usize = 0;
    while i < len
        invariant
            i <= len,
            cells@ == filled(i as nat, value),
        decreases len - i,
    {
        cells.push(value);
        assert(cells@ =~= filled((i + 1) as nat, value));
        i += 1;
    }
    cells
}

/// The position reached from `a` by moving `d` places along a wrapped axis of
/// modulus `m`, computed without overflow by subtracting `m` once where the
/// plain sum would leave `[0, m)`.
fn wrap_add(a: usize, d: usize, m: usize) -> (r: usize)
    requires
        m > 0,
        a < m,
        d <= m,
    ensures
        r == wrap(a as nat, d as nat, m as nat),
        r < m,
{
    if d >= m - a {
        proof {
            lemma_mod_multiples_vanish(1, a + d - m, m as int);
            lemma_small_mod((a + d - m) as nat, m as nat);
        }
        d - (m - a)
    } else {
        proof {
            lemma_small_mod((a + d) as nat, m as nat);
        }
        a + d
    }
}

} // verus!
