//! The mathematical model of the grid: row-major indexing, toroidal neighbor
//! counting, the generation-step transformation, and the resize
//! transformations, together with the laws that relate them.

use vstd::arithmetic::div_mod::{
    lemma_fundamental_div_mod, lemma_fundamental_div_mod_converse, lemma_mod_bound,
};
use vstd::prelude::*;

use crate::rules::{transition, RuleModel};

verus! {

/// The mathematical content of an [`crate::Automaton`]: its dimensions, its
/// row-major cell states, its elapsed generation count, and its ruleset.
pub ghost struct GridModel {
    pub width: nat,
    pub height: nat,
    pub cells: Seq<u8>,
    pub generation: nat,
    pub rules: RuleModel,
}

/// A buffer of `len` cells, every one in state `value`.
pub open spec fn filled(len: nat, value: u8) -> Seq<u8> {
    Seq::new(len, |i: int| value)
}

/// Toroidal wrap: the position reached from `a` by moving `d` places along an
/// axis of modulus `m`.
pub open spec fn wrap(a: nat, d: nat, m: nat) -> nat
    recommends
        m > 0,
{
    (a + d) % m
}

/// 1 if the cell at `(row, col)` of a `width`-wide row-major buffer is alive
/// in its first generation (state exactly 1), else 0.
pub open spec fn live_at(cells: Seq<u8>, width: nat, row: nat, col: nat) -> nat {
    if cells[(row * width + col) as int] == 1u8 {
        1nat
    } else {
        0nat
    }
}

/// The count of live first-generation neighbors of `(row, col)`, looked up at
/// the 8 fixed toroidal offsets. Offsets are pre-biased into `[0, height)` and
/// `[0, width)`, so a step "up" is `height - 1` and a step "left" is
/// `width - 1`. On small grids distinct offsets may reach the same cell, which
/// then counts once per offset.
pub open spec fn neighbor_count(cells: Seq<u8>, width: nat, height: nat, row: nat, col: nat) -> nat
    recommends
        width > 0,
        height > 0,
        cells.len() == width * height,
        row < height,
        col < width,
{
    let up = wrap(row, (height - 1) as nat, height);
    let down = wrap(row, 1, height);
    let left = wrap(col, (width - 1) as nat, width);
    let right = wrap(col, 1, width);
    live_at(cells, width, up, left) + live_at(cells, width, up, col) + live_at(
        cells,
        width,
        up,
        right,
    ) + live_at(cells, width, row, left) + live_at(cells, width, row, right) + live_at(
        cells,
        width,
        down,
        left,
    ) + live_at(cells, width, down, col) + live_at(cells, width, down, right)
}

/// The state the cell at flat index `i` takes after one generation.
pub open spec fn step_cell(
    cells: Seq<u8>,
    width: nat,
    height: nat,
    rules: RuleModel,
    i: int,
) -> u8
    recommends
        width > 0,
        cells.len() == width * height,
        0 <= i < cells.len(),
{
    transition(
        rules,
        cells[i],
        neighbor_count(cells, width, height, (i / width as int) as nat, (i % width as int) as nat),
    )
}

/// One synchronous generation: every cell's next state is computed from the
/// same pre-step buffer.
pub open spec fn stepped(cells: Seq<u8>, width: nat, height: nat, rules: RuleModel) -> Seq<u8> {
    Seq::new(cells.len(), |i: int| step_cell(cells, width, height, rules, i))
}

/// `n` synchronous generations, applied one after the other.
pub open spec fn stepped_n(
    cells: Seq<u8>,
    width: nat,
    height: nat,
    rules: RuleModel,
    n: nat,
) -> Seq<u8>
    decreases n,
{
    if n == 0 {
        cells
    } else {
        stepped(stepped_n(cells, width, height, rules, (n - 1) as nat), width, height, rules)
    }
}

/// The buffer after a change of row length from `width` to `new_width`:
/// columns below `width` keep each row's contents, newly introduced columns
/// are zero-filled at each row's right end.
pub open spec fn resized_width(
    cells: Seq<u8>,
    width: nat,
    height: nat,
    new_width: nat,
) -> Seq<u8>
    recommends
        new_width > 0,
        cells.len() == width * height,
{
    Seq::new(
        height * new_width,
        |i: int|
            {
                let row = i / new_width as int;
                let col = i % new_width as int;
                if col < width {
                    cells[row * width + col]
                } else {
                    0u8
                }
            },
    )
}

/// The buffer after a change of column count to `new_height`: whole rows are
/// appended zero-filled at the tail, or truncated from the tail.
pub open spec fn resized_height(cells: Seq<u8>, width: nat, new_height: nat) -> Seq<u8> {
    Seq::new(
        width * new_height,
        |i: int|
            if i < cells.len() {
                cells[i]
            } else {
                0u8
            },
    )
}

/// The value a toggled cell takes: dead becomes first-generation alive, any
/// live or aging state collapses to dead.
pub open spec fn toggled(state: u8) -> u8 {
    if state == 0u8 {
        1u8
    } else {
        0u8
    }
}

/// The buffer after the first `k` coordinate pairs of `locations` (a flat
/// alternating row, column list) have each had their addressed cell set to 1;
/// pairs out of range are ignored individually.
pub open spec fn set_on_prefix(
    cells: Seq<u8>,
    width: nat,
    height: nat,
    locations: Seq<usize>,
    k: nat,
) -> Seq<u8>
    recommends
        2 * k <= locations.len(),
    decreases k,
{
    if k == 0 {
        cells
    } else {
        let prev = set_on_prefix(cells, width, height, locations, (k - 1) as nat);
        let row = locations[2 * (k - 1)] as nat;
        let col = locations[2 * (k - 1) + 1] as nat;
        if row < height && col < width {
            prev.update((row * width + col) as int, 1u8)
        } else {
            prev
        }
    }
}

/// The buffer after a whole batch of coordinate pairs has been applied. A
/// malformed batch (odd length, so some row has no matching column) is
/// dropped whole rather than partially applied.
pub open spec fn with_cells_on(
    cells: Seq<u8>,
    width: nat,
    height: nat,
    locations: Seq<usize>,
) -> Seq<u8> {
    if locations.len() % 2 == 0 {
        set_on_prefix(cells, width, height, locations, (locations.len() / 2) as nat)
    } else {
        cells
    }
}

/// A row-major flat index decomposes as expected: `row * width + col` lies
/// inside the buffer and recovers `row` and `col` by division and remainder.
pub proof fn lemma_row_major(width: nat, height: nat, row: nat, col: nat)
    requires
        0 < width,
        row < height,
        col < width,
    ensures
        row * width + col < height * width,
        (row * width + col) as int / width as int == row,
        (row * width + col) as int % width as int == col,
{
    assert(row * width + col < height * width) by (nonlinear_arith)
        requires
            0 < width,
            row < height,
            col < width,
    ;
    lemma_fundamental_div_mod_converse(
        (row * width + col) as int,
        width as int,
        row as int,
        col as int,
    );
}

/// The converse decomposition: any flat index `i` of a `width * height`
/// buffer is `(i / width) * width + i % width` with the quotient a valid row
/// and the remainder a valid column.
pub proof fn lemma_index_split(width: nat, height: nat, i: int)
    requires
        0 < width,
        0 <= i < width * height,
    ensures
        0 <= i / (width as int) < height,
        0 <= i % (width as int) < width,
        i == (i / (width as int)) * width + i % (width as int),
{
    lemma_fundamental_div_mod(i, width as int);
    lemma_mod_bound(i, width as int);
    assert((i / (width as int)) * width == width * (i / (width as int))) by (nonlinear_arith);
    assert(i / (width as int) < height) by (nonlinear_arith)
        requires
            0 < width,
            0 <= i < width * height,
            i == (width as int) * (i / (width as int)) + i % (width as int),
            0 <= i % (width as int) < width,
    ;
}

/// Stepping preserves the buffer's length, however many generations are
/// taken.
pub proof fn lemma_stepped_n_len(cells: Seq<u8>, width: nat, height: nat, rules: RuleModel, n: nat)
    ensures
        stepped_n(cells, width, height, rules, n).len() == cells.len(),
    decreases n,
{
    if n > 0 {
        lemma_stepped_n_len(cells, width, height, rules, (n - 1) as nat);
    }
}

/// Batching law: stepping `m + n` generations in one call reaches the same
/// state as stepping `m` generations and then `n` more.
pub proof fn lemma_step_batches(
    cells: Seq<u8>,
    width: nat,
    height: nat,
    rules: RuleModel,
    m: nat,
    n: nat,
)
    ensures
        stepped_n(cells, width, height, rules, m + n) == stepped_n(
            stepped_n(cells, width, height, rules, m),
            width,
            height,
            rules,
            n,
        ),
    decreases n,
{
    if n > 0 {
        lemma_step_batches(cells, width, height, rules, m, (n - 1) as nat);
        assert(m + n - 1 == (m + (n - 1) as nat) as nat);
    }
}

/// Setting the first `k` coordinate pairs never changes the buffer's length.
pub proof fn lemma_set_on_prefix_len(
    cells: Seq<u8>,
    width: nat,
    height: nat,
    locations: Seq<usize>,
    k: nat,
)
    requires
        cells.len() == width * height,
    ensures
        set_on_prefix(cells, width, height, locations, k).len() == cells.len(),
    decreases k,
{
    if k > 0 {
        lemma_set_on_prefix_len(cells, width, height, locations, (k - 1) as nat);
        let row = locations[2 * (k - 1)] as nat;
        let col = locations[2 * (k - 1) + 1] as nat;
        if row < height && col < width {
            lemma_row_major(width, height, row, col);
            assert(height * width == width * height) by (nonlinear_arith);
        }
    }
}

/// Width round trip: growing the rows and then shrinking them back to the
/// original width, with no mutation in between, restores the original buffer
/// exactly.
pub proof fn lemma_resize_width_round_trip(
    cells: Seq<u8>,
    width: nat,
    height: nat,
    wider: nat,
)
    requires
        width <= wider,
        cells.len() == width * height,
    ensures
        resized_width(resized_width(cells, width, height, wider), wider, height, width) == cells,
{
    let grown = resized_width(cells, width, height, wider);
    let back = resized_width(grown, wider, height, width);
    if width == 0 {
        assert(back =~= cells);
    } else {
        assert forall|i: int| 0 <= i < width * height implies back[i] == cells[i] by {
            lemma_index_split(width, height, i);
            let row = i / width as int;
            let col = i % width as int;
            lemma_row_major(width, height, row as nat, col as nat);
            lemma_row_major(wider, height, row as nat, col as nat);
            assert(height * width == width * height) by (nonlinear_arith);
            assert(height * wider == wider * height) by (nonlinear_arith);
            assert(back[i] == grown[row * wider as int + col]);
            assert(grown[row * wider as int + col] == cells[i]);
        }
        assert(back =~= cells) by {
            assert(height * width == width * height) by (nonlinear_arith);
        }
    }
}

/// Height growth appends whole zero rows: growing to `new_height` leaves the
/// first `width * height` cells unchanged and appends
/// `(new_height - height) * width` zeros at the tail.
pub proof fn lemma_resize_height_grow_appends(
    cells: Seq<u8>,
    width: nat,
    height: nat,
    new_height: nat,
)
    requires
        height <= new_height,
        cells.len() == width * height,
    ensures
        resized_height(cells, width, new_height) == cells + filled(
            ((new_height - height) * width) as nat,
            0u8,
        ),
{
    assert(width * height <= width * new_height) by (nonlinear_arith)
        requires
            height <= new_height,
    ;
    assert(width * new_height - width * height == (new_height - height) * width)
        by (nonlinear_arith);
    assert(resized_height(cells, width, new_height) =~= cells + filled(
        ((new_height - height) * width) as nat,
        0u8,
    ));
}

} // verus!
