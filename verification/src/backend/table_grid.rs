//! The imported table is kept in a `grid::Grid`. Verus does not look inside
//! that type, so what it holds is given a name here, and each method of the
//! grid that the library calls is given a contract over that name. None of
//! these contracts is proved: they restate what the grid's code does.

use crate::backend::csv_handler::DataEntry;
use vstd::prelude::*;

verus! {

/// `grid::Grid`, the type of the grid. Nothing is said of what is inside a
/// value of it.
#[verifier::external_type_specification]
#[verifier::external_body]
#[verifier::reject_recursive_types(T)]
pub struct ExGrid<T>(grid::Grid<T>);

/// The rows of the grid, first row first, each with its cells from left to
/// right.
pub uninterp spec fn grid_cells(g: grid::Grid<DataEntry>) -> Seq<Seq<DataEntry>>;

/// The number of columns that the grid keeps for its rows.
pub uninterp spec fn grid_width(g: grid::Grid<DataEntry>) -> nat;

/// `Grid::new`, for a grid without cells: with no rows or no columns asked
/// for, the grid it returns has neither rows nor columns.
#[verifier::external_body]
pub(crate) fn grid_new(rows: usize, cols: usize) -> (g: grid::Grid<DataEntry>)
    requires
        rows == 0 || cols == 0,
    ensures
        grid_cells(g) == Seq::<Seq<DataEntry>>::empty(),
        grid_width(g) == 0,
{
    grid::Grid::new(rows, cols)
}

/// `Clone::clone` of the grid: a grid of the same width whose cells are
/// copies of this grid's cells, made by `DataEntry::clone`, which returns
/// the cell it is given.
#[verifier::external_body]
pub(crate) fn grid_clone(g: &grid::Grid<DataEntry>) -> (copy: grid::Grid<DataEntry>)
    ensures
        grid_cells(copy) == grid_cells(*g),
        grid_width(copy) == grid_width(*g),
{
    g.clone()
}

/// `Grid::rows`: the number of rows.
#[verifier::external_body]
pub(crate) fn grid_row_count(g: &grid::Grid<DataEntry>) -> (n: usize)
    ensures
        n == grid_cells(*g).len(),
{
    g.rows()
}

/// `Grid::cols`: the number of columns, which is the length of every row.
#[verifier::external_body]
pub(crate) fn grid_col_count(g: &grid::Grid<DataEntry>) -> (n: usize)
    ensures
        n == grid_width(*g),
        forall|i: int| 0 <= i < grid_cells(*g).len() ==> (#[trigger] grid_cells(*g)[i]).len() == n,
{
    g.cols()
}

/// `Grid::is_empty`: whether the grid holds no cell at all.
#[verifier::external_body]
pub(crate) fn grid_is_empty(g: &grid::Grid<DataEntry>) -> (b: bool)
    ensures
        b == (grid_cells(*g).len() == 0 || grid_width(*g) == 0),
{
    g.is_empty()
}

/// `Grid::get`: the cell at a row and a column, where the grid has both.
#[verifier::external_body]
pub(crate) fn grid_get(
    g: &grid::Grid<DataEntry>,
    row: usize,
    col: usize,
) -> (cell: Option<&DataEntry>)
    ensures
        cell.is_some() == (row < grid_cells(*g).len() && col < grid_width(*g)),
        cell matches Some(c) ==> *c == grid_cells(*g)[row as int][col as int],
{
    g.get(row, col)
}

/// `Grid::get_mut`: the cell at a row and a column, for writing. The other
/// cells, the number of rows and the width stay as they are.
#[verifier::external_body]
pub(crate) fn grid_get_mut(
    g: &mut grid::Grid<DataEntry>,
    row: usize,
    col: usize,
) -> (cell: &mut DataEntry)
    requires
        row < grid_cells(*old(g)).len(),
        col < grid_width(*old(g)),
    ensures
        *cell == grid_cells(*old(g))[row as int][col as int],
        grid_cells(*final(g)) == grid_cells(*old(g)).update(
            row as int,
            grid_cells(*old(g))[row as int].update(col as int, *final(cell)),
        ),
        grid_width(*final(g)) == grid_width(*old(g)),
{
    g.get_mut(row, col).unwrap()
}

/// `Grid::push_row`: appends a row. The grid takes a row that is not empty
/// and as long as its other rows; a grid without rows and columns takes one
/// of any length, which then sets its width.
#[verifier::external_body]
pub(crate) fn grid_push_row(g: &mut grid::Grid<DataEntry>, row: Vec<DataEntry>)
    requires
        row.len() > 0,
        row.len() == grid_width(*old(g)) || (grid_cells(*old(g)).len() == 0 && grid_width(*old(g))
            == 0),
    ensures
        grid_cells(*final(g)) == grid_cells(*old(g)).push(row@),
        grid_width(*final(g)) == row.len(),
{
    g.push_row(row)
}

} // verus!
