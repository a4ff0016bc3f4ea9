//! The grid map: a rectangle of cells, each empty or a wall of some material.

use vstd::prelude::*;
use crate::fixed::{whole, ONE};

verus! {

/// The largest number of rows or of columns that a map may have.
pub const MAX_MAP_SIDE: usize = 16384;

/// Why a table of cells is no map.
#[derive(Clone, Copy, Debug, PartialEq, Eq)]
pub enum MapError {
    /// The map has more than `MAX_MAP_SIDE` rows or columns.
    TooLarge,
    /// The number of cells is not the number of rows times the number of columns.
    WrongLength,
    /// Some cell on the border is empty.
    NotEnclosed,
}

/// A rectangle of cells, row by row. Code 0 is an empty cell, every other code a
/// wall of that material. Every cell on the border is a wall.
pub struct GridMap {
    width: usize,
    height: usize,
    cells: Vec<u8>,
}

/// The cell in row `row` and column `col` of a table of `width` columns.
pub open spec fn cell_of(width: int, cells: Seq<u8>, row: int, col: int) -> u8 {
    cells[row * width + col]
}

/// The cell lies in the first or last row or column.
pub open spec fn on_border(width: int, height: int, row: int, col: int) -> bool {
    row == 0 || row == height - 1 || col == 0 || col == width - 1
}

/// Every border cell of the table is a wall.
pub open spec fn enclosed(width: int, height: int, cells: Seq<u8>) -> bool {
    forall|row: int, col: int|
        0 <= row < height && 0 <= col < width && on_border(width, height, row, col) ==> #[trigger] cell_of(
            width,
            cells,
            row,
            col,
        ) != 0
}

/// The reason for which a table of cells is refused, if it is.
pub open spec fn map_fault(width: int, height: int, cells: Seq<u8>) -> Option<MapError> {
    if width > MAX_MAP_SIDE || height > MAX_MAP_SIDE {
        Some(MapError::TooLarge)
    } else if cells.len() != width * height {
        Some(MapError::WrongLength)
    } else if !enclosed(width, height, cells) {
        Some(MapError::NotEnclosed)
    } else {
        None
    }
}

/// The position of a cell in the row-major table stays within the table.
proof fn lemma_offset_in_table(width: int, height: int, row: int, col: int)
    by (nonlinear_arith)
    requires
        0 <= row < height <= MAX_MAP_SIDE,
        0 <= col < width <= MAX_MAP_SIDE,
    ensures
        0 <= row * width + col < width * height,
        0 <= row * width <= width * height - width,
        width * height <= MAX_MAP_SIDE * MAX_MAP_SIDE,
{
}

impl GridMap {
    /// The number of columns.
    pub closed spec fn columns(&self) -> int {
        self.width as int
    }

    /// The number of rows.
    pub closed spec fn rows(&self) -> int {
        self.height as int
    }

    /// The cells, row by row.
    pub closed spec fn cells(&self) -> Seq<u8> {
        self.cells@
    }

    /// The code of the cell in row `row` and column `col`.
    pub open spec fn cell(&self, row: int, col: int) -> u8 {
        cell_of(self.columns(), self.cells(), row, col)
    }

    /// The map is a full table within the size limit, and enclosed by walls.
    pub open spec fn wf(&self) -> bool {
        &&& 0 <= self.columns() <= MAX_MAP_SIDE
        &&& 0 <= self.rows() <= MAX_MAP_SIDE
        &&& self.cells().len() == self.columns() * self.rows()
        &&& enclosed(self.columns(), self.rows(), self.cells())
    }

    /// The cell in row `row` and column `col` exists.
    pub open spec fn in_range(&self, row: int, col: int) -> bool {
        0 <= row < self.rows() && 0 <= col < self.columns()
    }

    /// Some cell of the map has the code `code`.
    pub open spec fn holds(&self, code: int) -> bool {
        exists|row: int, col: int| self.in_range(row, col) && #[trigger] self.cell(row, col) == code
    }

    /// No cell of the map has a code above `limit`.
    pub open spec fn codes_within(&self, limit: int) -> bool {
        forall|row: int, col: int| self.in_range(row, col) ==> #[trigger] self.cell(row, col) <= limit
    }

    /// The point with fixed-point coordinates `(x, y)` lies in an empty cell of the map.
    pub open spec fn open_at(&self, x: int, y: int) -> bool {
        &&& x >= 0
        &&& y >= 0
        &&& self.in_range(whole(y), whole(x))
        &&& self.cell(whole(y), whole(x)) == 0
    }

    /// The point with fixed-point coordinates `(x, y)` lies in a cell of the map
    /// that is not on its border.
    pub open spec fn strictly_inside(&self, x: int, y: int) -> bool {
        &&& 0 < whole(x) < self.columns() - 1
        &&& 0 < whole(y) < self.rows() - 1
    }

    /// An empty cell is not on the border.
    pub proof fn lemma_open_is_inside(&self, x: int, y: int)
        requires
            self.wf(),
            self.open_at(x, y),
        ensures
            self.strictly_inside(x, y),
    {
        let row = whole(y);
        let col = whole(x);
        if on_border(self.columns(), self.rows(), row, col) {
            assert(cell_of(self.columns(), self.cells(), row, col) != 0);
        }
    }

    /// The map of `height` rows and `width` columns with the given cells, row by
    /// row, if they are that many and the border cells are all walls.
    pub fn new(width: usize, height: usize, cells: Vec<u8>) -> (r: Result<GridMap, MapError>)
        ensures
            match r {
                Ok(m) => {
                    &&& map_fault(width as int, height as int, cells@) is None
                    &&& m.wf()
                    &&& m.columns() == width
                    &&& m.rows() == height
                    &&& m.cells() == cells@
                },
                Err(e) => map_fault(width as int, height as int, cells@) == Some(e),
            },
    {
        if width > MAX_MAP_SIDE || height > MAX_MAP_SIDE {
            return Err(MapError::TooLarge);
        }
        assert(width * height <= MAX_MAP_SIDE * MAX_MAP_SIDE) by (nonlinear_arith)
            requires
                0 <= width <= MAX_MAP_SIDE,
                0 <= height <= MAX_MAP_SIDE,
        ;
        if cells.len() != width * height {
            return Err(MapError::WrongLength);
        }
        let ghost w = width as int;
        let ghost h = height as int;
        let mut col: usize = 0;
        while col < width
            invariant
                0 <= col <= width,
                w == width,
                h == height,
                w <= MAX_MAP_SIDE,
                h <= MAX_MAP_SIDE,
                cells@.len() == w * h,
                forall|c: int| 0 <= c < col && 0 < h ==> #[trigger] cell_of(w, cells@, 0, c) != 0,
                forall|c: int|
                    0 <= c < col && 0 < h ==> #[trigger] cell_of(w, cells@, h - 1, c) != 0,
            decreases width - col,
        {
            if height > 0 {
                proof {
                    lemma_offset_in_table(w, h, 0, col as int);
                    lemma_offset_in_table(w, h, h - 1, col as int);
                }
                if cells[col] == 0 || cells[(height - 1) * width + col] == 0 {
                    proof {
                        assert(cell_of(w, cells@, 0, col as int) == 0 || cell_of(
                            w,
                            cells@,
                            h - 1,
                            col as int,
                        ) == 0);
                        assert(on_border(w, h, 0, col as int) && on_border(w, h, h - 1, col as int));
                        assert(!enclosed(w, h, cells@));
                    }
                    return Err(MapError::NotEnclosed);
                }
            }
            col = col + 1;
        }
        let mut row: usize = 0;
        while row < height
            invariant
                0 <= row <= height,
                w == width,
                h == height,
                w <= MAX_MAP_SIDE,
                h <= MAX_MAP_SIDE,
                cells@.len() == w * h,
                forall|c: int| 0 <= c < w && 0 < h ==> #[trigger] cell_of(w, cells@, 0, c) != 0,
                forall|c: int| 0 <= c < w && 0 < h ==> #[trigger] cell_of(w, cells@, h - 1, c) != 0,
                forall|r: int| 0 <= r < row && 0 < w ==> #[trigger] cell_of(w, cells@, r, 0) != 0,
                forall|r: int|
                    0 <= r < row && 0 < w ==> #[trigger] cell_of(w, cells@, r, w - 1) != 0,
            decreases height - row,
        {
            if width > 0 {
                proof {
                    lemma_offset_in_table(w, h, row as int, 0);
                    lemma_offset_in_table(w, h, row as int, w - 1);
                }
                if cells[row * width] == 0 || cells[row * width + (width - 1)] == 0 {
                    proof {
                        assert(cell_of(w, cells@, row as int, 0) == 0 || cell_of(
                            w,
                            cells@,
                            row as int,
                            w - 1,
                        ) == 0);
                        assert(on_border(w, h, row as int, 0) && on_border(w, h, row as int, w - 1));
                        assert(!enclosed(w, h, cells@));
                    }
                    return Err(MapError::NotEnclosed);
                }
            }
            row = row + 1;
        }
        proof {
            assert forall|r: int, c: int|
                0 <= r < h && 0 <= c < w && on_border(w, h, r, c) implies #[trigger] cell_of(
                w,
                cells@,
                r,
                c,
            ) != 0 by {
                if r == 0 {
                    assert(cell_of(w, cells@, 0, c) != 0);
                } else if r == h - 1 {
                    assert(cell_of(w, cells@, h - 1, c) != 0);
                } else if c == 0 {
                    assert(cell_of(w, cells@, r, 0) != 0);
                } else {
                    assert(cell_of(w, cells@, r, w - 1) != 0);
                }
            }
        }
        Ok(GridMap { width, height, cells })
    }

    /// The number of columns.
    pub fn width(&self) -> (w: usize)
        ensures
            w == self.columns(),
    {
        self.width
    }

    /// The number of rows.
    pub fn height(&self) -> (h: usize)
        ensures
            h == self.rows(),
    {
        self.height
    }

    /// The code of the cell in row `row` and column `col`.
    pub fn cell_at(&self, row: usize, col: usize) -> (code: u8)
        requires
            self.wf(),
            self.in_range(row as int, col as int),
        ensures
            code == self.cell(row as int, col as int),
    {
        proof {
            lemma_offset_in_table(self.columns(), self.rows(), row as int, col as int);
        }
        self.cells[row * self.width + col]
    }

    /// The highest code that a cell of the map has; 0 for a map without cells.
    pub fn highest_code(&self) -> (top: u8)
        requires
            self.wf(),
        ensures
            self.codes_within(top as int),
            top != 0 ==> self.holds(top as int),
    {
        let mut top: u8 = 0;
        let mut row: usize = 0;
        while row < self.height
            invariant
                self.wf(),
                0 <= row <= self.rows(),
                forall|r: int, c: int|
                    0 <= r < row && 0 <= c < self.columns() ==> #[trigger] self.cell(r, c) <= top,
                top != 0 ==> self.holds(top as int),
            decreases self.height - row,
        {
            let mut col: usize = 0;
            while col < self.width
                invariant
                    self.wf(),
                    0 <= row < self.rows(),
                    0 <= col <= self.columns(),
                    forall|r: int, c: int|
                        0 <= r < row && 0 <= c < self.columns() ==> #[trigger] self.cell(r, c)
                            <= top,
                    forall|c: int| 0 <= c < col ==> #[trigger] self.cell(row as int, c) <= top,
                    top != 0 ==> self.holds(top as int),
                decreases self.width - col,
            {
                let code = self.cell_at(row, col);
                if code > top {
                    top = code;
                    assert(self.in_range(row as int, col as int) && self.cell(row as int, col as int)
                        == top);
                }
                col = col + 1;
            }
            row = row + 1;
        }
        top
    }

    /// Whether the point with fixed-point coordinates `(x, y)` lies in an empty
    /// cell of the map. A point outside the map lies in none.
    pub fn is_open_at(&self, x: i64, y: i64) -> (open: bool)
        requires
            self.wf(),
        ensures
            open == self.open_at(x as int, y as int),
    {
        if x < 0 || y < 0 {
            return false;
        }
        let col: i64 = x / ONE;
        let row: i64 = y / ONE;
        if col >= self.width as i64 || row >= self.height as i64 {
            return false;
        }
        self.cell_at(row as usize, col as usize) == 0
    }

    /// Whether the point with fixed-point coordinates `(x, y)` lies in a cell of
    /// the map that is not on its border.
    pub fn is_strictly_inside(&self, x: i64, y: i64) -> (inside: bool)
        requires
            self.wf(),
        ensures
            inside == self.strictly_inside(x as int, y as int),
    {
        if x < ONE || y < ONE {
            return false;
        }
        let col: i64 = x / ONE;
        let row: i64 = y / ONE;
        col < self.width as i64 - 1 && row < self.height as i64 - 1
    }
}

} // verus!
