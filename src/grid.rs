//! Row-major enumeration of a rectangle of lattice points or cells: rows by
//! increasing `z`, and within a row by increasing `x`, each point contributing
//! a (possibly empty) run of items.

use vstd::prelude::*;

verus! {

/// Items of the points `x0 <= x < x1` of row `z`, in order.
pub open spec fn row_items<T>(f: spec_fn(int, int) -> Seq<T>, x0: int, x1: int, z: int) -> Seq<T>
    decreases x1 - x0,
{
    if x1 <= x0 {
        Seq::empty()
    } else {
        row_items(f, x0, x1 - 1, z) + f(x1 - 1, z)
    }
}

/// Items of the rectangle `[x0, x1) x [z0, z1)`, row by row.
pub open spec fn grid_items<T>(f: spec_fn(int, int) -> Seq<T>, x0: int, x1: int, z0: int, z1: int) -> Seq<T>
    decreases z1 - z0,
{
    if z1 <= z0 {
        Seq::empty()
    } else {
        grid_items(f, x0, x1, z0, z1 - 1) + row_items(f, x0, x1, z1 - 1)
    }
}

} // verus!
