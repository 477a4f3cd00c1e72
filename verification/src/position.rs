//! Cursor coordinates and terminal dimensions.

use vstd::prelude::*;

verus! {

/// A location in the document: `r` is the row (line index), `c` is the
/// column (character index within the line; `c == line length` is the
/// end-of-line caret position).
#[derive(Clone, Copy, Debug, PartialEq, Eq, Structural)]
pub struct Position {
    pub r: usize,
    pub c: usize,
}

/// A coordinate pair is read as `(x, y)`: the column first, then the row.
/// The constructor swaps the order into `(r, c)`.
impl From<(usize, usize)> for Position {
    fn from(pos: (usize, usize)) -> (res: Self)
        ensures
            res.r == pos.1,
            res.c == pos.0,
    {
        Position { r: pos.1, c: pos.0 }
    }
}

impl vstd::std_specs::convert::FromSpecImpl<(usize, usize)> for Position {
    open spec fn obeys_from_spec() -> bool {
        true
    }

    open spec fn from_spec(pos: (usize, usize)) -> Self {
        Position { r: pos.1, c: pos.0 }
    }
}

impl Default for Position {
    fn default() -> (res: Self)
        ensures
            res.r == 0,
            res.c == 0,
    {
        Position { r: 0, c: 0 }
    }
}

/// The terminal's dimensions, refreshed on resize events.
#[derive(Clone, Copy, Debug, PartialEq, Eq, Structural)]
pub struct WindowSize {
    pub cols: u16,
    pub rows: u16,
}

/// A dimension pair is read as `(columns, rows)`.
impl From<(u16, u16)> for WindowSize {
    fn from(dim: (u16, u16)) -> (res: Self)
        ensures
            res.cols == dim.0,
            res.rows == dim.1,
    {
        WindowSize { cols: dim.0, rows: dim.1 }
    }
}

impl vstd::std_specs::convert::FromSpecImpl<(u16, u16)> for WindowSize {
    open spec fn obeys_from_spec() -> bool {
        true
    }

    open spec fn from_spec(dim: (u16, u16)) -> Self {
        WindowSize { cols: dim.0, rows: dim.1 }
    }
}

impl WindowSize {
    pub fn resize(&mut self, dim: (u16, u16))
        ensures
            final(self).cols == dim.0,
            final(self).rows == dim.1,
    {
        self.cols = dim.0;
        self.rows = dim.1;
    }
}

} // verus!
