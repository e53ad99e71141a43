//! The field engines and the model they are verified against.
pub mod field1d;
pub mod field2d;
pub mod generator;
pub mod grid;
pub mod laws;
pub mod render;

use vstd::prelude::*;

verus! {

/// Why an operation on a field was refused.
#[derive(Clone, Copy, Debug, PartialEq, Eq)]
pub enum FieldError {
    /// The grid is too small for the stencil: it needs a width and a height
    /// of at least three cells.
    Precondition,
    /// The cell lies outside the grid.
    OutOfRange,
}

/// One cell: its displacement `u` and its velocity `v`.
#[derive(Copy, Clone, Debug, PartialEq, Eq)]
pub struct Pixel {
    pub u: i64,
    pub v: i64,
}

impl Pixel {
    /// A cell at rest at level zero.
    pub fn zero() -> (p: Self)
        ensures
            p == (Pixel { u: 0, v: 0 }),
    {
        Pixel { u: 0, v: 0 }
    }
}

/// What every field engine offers: it advances by one tick, tells its size,
/// and shows the displacement of a cell.
pub trait Field {
    /// The width and the height of the grid.
    spec fn extent(&self) -> (nat, nat);

    /// The displacement of cell `(x, y)`.
    spec fn displacement(&self, x: int, y: int) -> i64;

    /// Advances the field by one tick. The size of the grid stays.
    fn step(&mut self)
        ensures
            final(self).extent() == old(self).extent(),
    ;

    /// The width and the height of the grid.
    fn dimensions(&self) -> (d: (usize, usize))
        ensures
            (d.0 as nat, d.1 as nat) == self.extent(),
    ;

    /// The displacement at `(x, y)`, or `OutOfRange` for a cell that the grid
    /// does not have.
    fn sample(&self, x: i64, y: i64) -> (r: Result<i64, FieldError>)
        ensures
            r == if 0 <= x < self.extent().0 && 0 <= y < self.extent().1 {
                Ok::<i64, FieldError>(self.displacement(x as int, y as int))
            } else {
                Err::<i64, FieldError>(FieldError::OutOfRange)
            },
    ;
}

} // verus!
