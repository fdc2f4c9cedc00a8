//! Walking a rectangular sample grid.
//!
//! The grid has `re_steps` columns along the real axis and `im_steps` rows
//! along the imaginary axis. It is walked row by row, each row from its
//! first column to its last, so the point of cell `(col, row)` is stored at
//! `re_steps * row + col`. What is computed at a cell is the caller's
//! business: the walker hands the grid and the cell to a closure and stores
//! what comes back.

use vstd::prelude::*;
use vstd::arithmetic::div_mod::{lemma_fundamental_div_mod, lemma_fundamental_div_mod_converse};
use vstd::arithmetic::mul::lemma_mul_inequality;

verus! {

/// Position of cell `(col, row)` in the walk of a grid with `re_steps`
/// columns.
pub open spec fn grid_index(re_steps: int, col: int, row: int) -> int {
    re_steps * row + col
}

/// A uniform sample grid over a rectangle of the complex plane, and the
/// iteration cap for its points. `T` is the type of a coordinate.
///
/// Cell `(col, row)` samples the plane `col` steps from `start_re` and
/// `row` steps from `start_im`, where a step is the range of its axis
/// divided by the number of steps.
#[derive(Debug, PartialEq, Eq)]
pub struct FractalConfig<T> {
    pub start_re: T,
    pub end_re: T,
    pub re_steps: usize,
    pub start_im: T,
    pub end_im: T,
    pub im_steps: usize,
    pub max_iters: usize,
}

/// `points` is a walk of the grid: one point per cell, and the point at
/// each cell's position is a result of `convergence` for that cell of the
/// grid.
pub open spec fn is_grid_walk<T, P, F: Fn(&FractalConfig<T>, usize, usize) -> P>(
    points: Seq<P>,
    conf: FractalConfig<T>,
    convergence: F,
) -> bool {
    &&& points.len() == conf.re_steps * conf.im_steps
    &&& forall|col: usize, row: usize|
        col < conf.re_steps && row < conf.im_steps ==> convergence.ensures(
            (&conf, col, row),
            #[trigger] points[grid_index(conf.re_steps as int, col as int, row as int)],
        )
}

/// Evaluates `convergence` at every cell of the grid, rows outermost, and
/// returns the results in the order of the walk.
pub fn generate<T, P>(
    conf: &FractalConfig<T>,
    convergence: impl Fn(&FractalConfig<T>, usize, usize) -> P,
) -> (points: Vec<P>)
    requires
        forall|col: usize, row: usize|
            col < conf.re_steps && row < conf.im_steps ==> convergence.requires((conf, col, row)),
    ensures
        is_grid_walk(points@, *conf, convergence),
{
    let re_steps = conf.re_steps;
    let im_steps = conf.im_steps;
    let mut points: Vec<P> = Vec::new();
    let mut row: usize = 0;
    while row < im_steps
        invariant
            row <= im_steps,
            re_steps == conf.re_steps,
            im_steps == conf.im_steps,
            points.len() == re_steps * row,
            forall|col: usize, row: usize|
                col < re_steps && row < im_steps ==> convergence.requires((conf, col, row)),
            forall|c: usize, r: usize|
                c < re_steps && r < row ==> convergence.ensures(
                    (conf, c, r),
                    #[trigger] points@[grid_index(re_steps as int, c as int, r as int)],
                ),
        decreases im_steps - row,
    {
        let mut col: usize = 0;
        while col < re_steps
            invariant
                row < im_steps,
                col <= re_steps,
                re_steps == conf.re_steps,
                im_steps == conf.im_steps,
                points.len() == re_steps * row + col,
                forall|col: usize, row: usize|
                    col < re_steps && row < im_steps ==> convergence.requires((conf, col, row)),
                forall|c: usize, r: usize|
                    c < re_steps && (r < row || (r == row && c < col)) ==> convergence.ensures(
                        (conf, c, r),
                        #[trigger] points@[grid_index(re_steps as int, c as int, r as int)],
                    ),
            decreases re_steps - col,
        {
            let point = convergence(conf, col, row);
            points.push(point);
            proof {
                assert forall|c: usize, r: usize|
                    c < re_steps && (r < row || (r == row && c < col + 1)) implies convergence.ensures(
                    (conf, c, r),
                    #[trigger] points@[grid_index(re_steps as int, c as int, r as int)],
                ) by {
                    if r != row || c != col {
                        lemma_cell_precedes(re_steps as int, c as int, r as int, col as int, row as int);
                    }
                }
            }
            col = col + 1;
        }
        proof {
            assert(re_steps * (row + 1) == re_steps * row + re_steps) by (nonlinear_arith);
        }
        row = row + 1;
    }
    points
}

/// A cell that comes earlier in the walk has a smaller position.
proof fn lemma_cell_precedes(re_steps: int, c: int, r: int, col: int, row: int)
    requires
        0 <= c < re_steps,
        0 <= col <= re_steps,
        0 <= r,
        r < row || (r == row && c < col),
    ensures
        0 <= grid_index(re_steps, c, r) < grid_index(re_steps, col, row),
{
    assert(0 <= re_steps * r) by (nonlinear_arith)
        requires
            0 <= r,
            0 <= re_steps,
    ;
    if r < row {
        assert(re_steps * (r + 1) <= re_steps * row) by (nonlinear_arith)
            requires
                r + 1 <= row,
                0 <= re_steps,
        ;
        assert(re_steps * (r + 1) == re_steps * r + re_steps) by (nonlinear_arith);
    }
}

/// Every cell of the grid has a position inside the walk, and the position
/// gives the cell back: its column is the remainder and its row the
/// quotient by `re_steps`.
pub proof fn lemma_cell_has_one_position(re_steps: nat, im_steps: nat, col: nat, row: nat)
    requires
        col < re_steps,
        row < im_steps,
    ensures
        0 <= grid_index(re_steps as int, col as int, row as int) < re_steps * im_steps,
        grid_index(re_steps as int, col as int, row as int) % (re_steps as int) == col,
        grid_index(re_steps as int, col as int, row as int) / (re_steps as int) == row,
{
    let at = grid_index(re_steps as int, col as int, row as int);
    lemma_cell_precedes(re_steps as int, col as int, row as int, 0, row as int + 1);
    lemma_mul_inequality(row as int + 1, im_steps as int, re_steps as int);
    lemma_fundamental_div_mod_converse(at, re_steps as int, row as int, col as int);
}

/// Every position of the walk belongs to exactly one cell of the grid.
pub proof fn lemma_position_has_one_cell(re_steps: nat, im_steps: nat, at: nat)
    requires
        at < re_steps * im_steps,
    ensures
        re_steps > 0,
        at % re_steps < re_steps,
        at / re_steps < im_steps,
        grid_index(re_steps as int, (at % re_steps) as int, (at / re_steps) as int) == at,
{
    if re_steps == 0 {
        assert(re_steps * im_steps == 0) by (nonlinear_arith)
            requires
                re_steps == 0,
        ;
    }
    lemma_fundamental_div_mod(at as int, re_steps as int);
    let row = at / re_steps;
    if row >= im_steps {
        lemma_mul_inequality(im_steps as int, row as int, re_steps as int);
        assert(im_steps * re_steps == re_steps * im_steps) by (nonlinear_arith);
        assert(row * re_steps == re_steps * row) by (nonlinear_arith);
    }
}

/// The point read at a cell's position in a walk is a result of the
/// evaluator for that cell.
pub proof fn lemma_walk_point_of_cell<T, P, F: Fn(&FractalConfig<T>, usize, usize) -> P>(
    points: Seq<P>,
    conf: FractalConfig<T>,
    convergence: F,
    col: usize,
    row: usize,
)
    requires
        is_grid_walk(points, conf, convergence),
        col < conf.re_steps,
        row < conf.im_steps,
    ensures
        0 <= conf.re_steps * row + col < points.len(),
        convergence.ensures((&conf, col, row), points[conf.re_steps * row + col]),
{
    lemma_cell_has_one_position(conf.re_steps as nat, conf.im_steps as nat, col as nat, row as nat);
}

/// Where the grid is square, or in its first row, a row's offset may be
/// counted in rows as well as in columns: the point at `im_steps * row +
/// col` is the one of cell `(col, row)`.
pub proof fn lemma_walk_point_by_row_count<T, P, F: Fn(&FractalConfig<T>, usize, usize) -> P>(
    points: Seq<P>,
    conf: FractalConfig<T>,
    convergence: F,
    col: usize,
    row: usize,
)
    requires
        is_grid_walk(points, conf, convergence),
        col < conf.re_steps,
        row < conf.im_steps,
        conf.im_steps == conf.re_steps || row == 0,
    ensures
        0 <= conf.im_steps * row + col < points.len(),
        convergence.ensures((&conf, col, row), points[conf.im_steps * row + col]),
{
    lemma_walk_point_of_cell(points, conf, convergence, col, row);
    assert(conf.im_steps * row == conf.re_steps * row) by (nonlinear_arith)
        requires
            conf.im_steps == conf.re_steps || row == 0,
    ;
}

} // verus!
