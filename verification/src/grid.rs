//! Facts about cells of a square grid: which cell is the first free one, and
//! how many distinct cells a grid can hold.

use vstd::prelude::*;
use vstd::set_lib::{lemma_int_range, lemma_len_subset, set_int_range};
use crate::position::Position;

verus! {

/// Every cell of `cells` lies on the grid with edge `size`.
pub open spec fn all_within(cells: Seq<Position>, size: int) -> bool {
    forall|i: int| 0 <= i < cells.len() ==> (#[trigger] cells[i]).within(size)
}

/// Every cell of `cells` lies on the grid or one step outside it.
pub open spec fn all_near(cells: Seq<Position>, size: int) -> bool {
    forall|i: int|
        0 <= i < cells.len() ==> {
            &&& -1 <= (#[trigger] cells[i]).x <= size
            &&& -1 <= cells[i].y <= size
        }
}

/// Whether `a` comes before `b` when the grid is read row by row, each row
/// from left to right.
pub open spec fn reads_before(a: Position, b: Position) -> bool {
    a.y < b.y || (a.y == b.y && a.x < b.x)
}

/// The first cell not in `occupied`, reading the grid row by row from column
/// `x` of row `y` on; `None` when every cell from there on is occupied.
pub open spec fn first_free_from(size: int, occupied: Seq<Position>, x: int, y: int) -> Option<
    Position,
>
    decreases size - y, size - x,
{
    if y >= size || y < 0 || x < 0 {
        None
    } else if x >= size {
        first_free_from(size, occupied, 0, y + 1)
    } else if !occupied.contains(Position { x: x as isize, y: y as isize }) {
        Some(Position { x: x as isize, y: y as isize })
    } else {
        first_free_from(size, occupied, x + 1, y)
    }
}

/// The first cell of the grid not in `occupied`, reading row by row.
pub open spec fn first_free(size: int, occupied: Seq<Position>) -> Option<Position> {
    first_free_from(size, occupied, 0, 0)
}

/// What the scan from `(x, y)` finds is on the grid, free, and not before
/// `(x, y)`; every cell between `(x, y)` and it is occupied. If it finds
/// nothing, every cell from `(x, y)` on is occupied.
pub proof fn lemma_first_free_from(size: int, occupied: Seq<Position>, x: int, y: int)
    requires
        0 <= x <= size,
        0 <= y,
        size <= isize::MAX,
    ensures
        match first_free_from(size, occupied, x, y) {
            Some(p) => {
                &&& p.within(size)
                &&& !occupied.contains(p)
                &&& p.y > y || (p.y == y && p.x >= x)
                &&& forall|q: Position|
                    q.within(size) && (q.y > y || (q.y == y && q.x >= x)) && reads_before(q, p)
                        ==> occupied.contains(q)
            },
            None => forall|q: Position|
                q.within(size) && (q.y > y || (q.y == y && q.x >= x)) ==> occupied.contains(q),
        },
    decreases size - y, size - x,
{
    if y >= size {
    } else if x >= size {
        lemma_first_free_from(size, occupied, 0, y + 1);
    } else if !occupied.contains(Position { x: x as isize, y: y as isize }) {
    } else {
        lemma_first_free_from(size, occupied, x + 1, y);
        let here = Position { x: x as isize, y: y as isize };
        assert forall|q: Position|
            q.within(size) && q.y == y && q.x >= x && !(q.x >= x + 1) implies occupied.contains(
            q,
        ) by {
            assert(q == here);
        }
    }
}

/// The first free cell is on the grid and free, and every cell read before
/// it is occupied; there is none exactly when the whole grid is occupied.
pub proof fn lemma_first_free(size: int, occupied: Seq<Position>)
    requires
        0 <= size <= isize::MAX,
    ensures
        match first_free(size, occupied) {
            Some(p) => {
                &&& p.within(size)
                &&& !occupied.contains(p)
                &&& forall|q: Position|
                    q.within(size) && reads_before(q, p) ==> occupied.contains(q)
            },
            None => forall|q: Position| q.within(size) ==> occupied.contains(q),
        },
{
    lemma_first_free_from(size, occupied, 0, 0);
}

/// Row-major number of a cell.
pub open spec fn cell_number(p: Position, size: int) -> int {
    p.y * size + p.x
}

proof fn lemma_cell_number(p: Position, q: Position, size: int)
    requires
        p.within(size),
        q.within(size),
    ensures
        0 <= cell_number(p, size) < size * size,
        cell_number(p, size) == cell_number(q, size) ==> p == q,
{
    assert(0 <= p.y * size && p.y * size + size <= size * size) by (nonlinear_arith)
        requires
            0 <= p.y < size,
    ;
    if p.y < q.y {
        assert(p.y * size + size <= q.y * size) by (nonlinear_arith)
            requires
                p.y < q.y,
                0 < size,
        ;
    } else if q.y < p.y {
        assert(q.y * size + size <= p.y * size) by (nonlinear_arith)
            requires
                q.y < p.y,
                0 < size,
        ;
    }
}

/// A grid with edge `size` has room for at most `size * size` distinct cells.
pub proof fn lemma_distinct_cells_fit(cells: Seq<Position>, size: int)
    requires
        cells.no_duplicates(),
        all_within(cells, size),
    ensures
        cells.len() <= size * size,
{
    let numbers = Seq::new(cells.len(), |i: int| cell_number(cells[i], size));
    assert(size * size >= 0) by (nonlinear_arith);
    if cells.len() > 0 {
        assert forall|i: int, j: int|
            0 <= i < numbers.len() && 0 <= j < numbers.len() && i != j implies numbers[i]
            != numbers[j] by {
            lemma_cell_number(cells[i], cells[j], size);
        }
        numbers.unique_seq_to_set();
        let range = set_int_range(0, size * size);
        lemma_int_range(0, size * size);
        assert forall|k: int| numbers.to_set().contains(k) implies range.contains(k) by {
            let i = choose|i: int| 0 <= i < numbers.len() && numbers[i] == k;
            lemma_cell_number(cells[i], cells[i], size);
        }
        assert(numbers.to_set().subset_of(range));
        lemma_len_subset(numbers.to_set(), range);
        assert(numbers.len() == cells.len());
    }
}

} // verus!
