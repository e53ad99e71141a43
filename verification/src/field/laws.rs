//! What holds of every grid and every tick.
use crate::field::field2d::Field2D;
use crate::field::grid::{lemma_cell, lemma_entry, pull, weaken, Grid};
use crate::fixed::saturate;
use vstd::prelude::*;

verus! {

/// A tick keeps the shape of the grid: both arrays keep the width and the
/// height that they had.
pub proof fn lemma_step_keeps_shape(g: Grid)
    requires
        g.steppable(),
    ensures
        g.stepped().steppable(),
        g.stepped().width == g.width,
        g.stepped().height == g.height,
{
}

/// Any number of ticks keeps the shape of the grid.
pub proof fn lemma_ticks_keep_shape(g: Grid, n: nat)
    requires
        g.steppable(),
    ensures
        g.advanced(n).steppable(),
        g.advanced(n).width == g.width,
        g.advanced(n).height == g.height,
    decreases n,
{
    if n > 0 {
        lemma_ticks_keep_shape(g, (n - 1) as nat);
        lemma_step_keeps_shape(g.advanced((n - 1) as nat));
    }
}

/// What a tick does to one cell. Its displacement is first replaced by the
/// mirrored one; an interior cell then gains the forces of its neighbours as
/// velocity; the cell finally moves by its velocity.
pub proof fn lemma_stepped_cell(g: Grid, x: int, y: int)
    requires
        g.steppable(),
        g.contains(x, y),
    ensures
        g.stepped().v_at(x, y) == g.mirrored().accelerated_v(x, y),
        g.stepped().u_at(x, y) == saturate(g.mirrored_u(x, y) + g.mirrored().accelerated_v(x, y)),
{
    let m = g.mirrored();
    lemma_cell(g, x, y);
    lemma_cell(m, x, y);
    lemma_cell(m.accelerated(), x, y);
}

/// The change of velocity of a cell, written out: the forces of the four
/// nearest neighbours, and a sixteenth of the forces of the four neighbours
/// two cells away.
pub proof fn lemma_delta_written_out(g: Grid, x: int, y: int)
    ensures
        g.delta(x, y) == g.force(x, y, x + 1, y) + g.force(x, y, x - 1, y) + g.force(
            x,
            y,
            x,
            y - 1,
        ) + g.force(x, y, x, y + 1) + weaken(g.force(x, y, x, y + 2)) + weaken(
            g.force(x, y, x, y - 2),
        ) + weaken(g.force(x, y, x + 2, y)) + weaken(g.force(x, y, x - 2, y)),
{
    reveal_with_fuel(Grid::partial, 9);
}

/// Mirroring changes the border only: every border cell that is no corner
/// takes the displacement of the interior cell next to it, and every other
/// displacement and every velocity stays.
pub proof fn lemma_mirrored_cell(g: Grid, x: int, y: int)
    requires
        g.steppable(),
        g.contains(x, y),
    ensures
        g.mirrored().v_at(x, y) == g.v_at(x, y),
        g.mirrored().u_at(x, y) == g.mirrored_u(x, y),
        g.interior(x, y) ==> g.mirrored().u_at(x, y) == g.u_at(x, y),
        1 <= x < g.width - 1 && y == 0 ==> g.mirrored().u_at(x, y) == g.u_at(x, 1),
        1 <= x < g.width - 1 && y == g.height - 1 ==> g.mirrored().u_at(x, y) == g.u_at(
            x,
            g.height - 2,
        ),
        1 <= y < g.height - 1 && x == 0 ==> g.mirrored().u_at(x, y) == g.u_at(1, y),
        1 <= y < g.height - 1 && x == g.width - 1 ==> g.mirrored().u_at(x, y) == g.u_at(
            g.width - 2,
            y,
        ),
        (x == 0 || x == g.width - 1) && (y == 0 || y == g.height - 1) ==> g.mirrored().u_at(x, y)
            == g.u_at(x, y),
{
    lemma_cell(g, x, y);
}

/// Once the border is mirrored, every border cell that is no corner shows
/// the displacement of the interior cell next to it, on all four edges.
pub proof fn lemma_border_mirrors_interior(g: Grid, x: int, y: int)
    requires
        g.steppable(),
        g.contains(x, y),
    ensures
        ({
            let m = g.mirrored();
            &&& 1 <= x < g.width - 1 && y == 0 ==> m.u_at(x, y) == m.u_at(x, 1)
            &&& 1 <= x < g.width - 1 && y == g.height - 1 ==> m.u_at(x, y) == m.u_at(
                x,
                g.height - 2,
            )
            &&& 1 <= y < g.height - 1 && x == 0 ==> m.u_at(x, y) == m.u_at(1, y)
            &&& 1 <= y < g.height - 1 && x == g.width - 1 ==> m.u_at(x, y) == m.u_at(
                g.width - 2,
                y,
            )
        }),
{
    lemma_mirrored_cell(g, x, y);
    let (sx, sy) = g.mirror_source(x, y);
    if (sx, sy) != (x, y) {
        lemma_mirrored_cell(g, sx, sy);
    }
}

/// After a tick, a border cell that is no corner is where the interior cell
/// next to it was before the tick, moved by the border cell's own velocity.
/// That velocity is the one it had: a tick accelerates no border cell.
pub proof fn lemma_border_after_step(g: Grid, x: int, y: int)
    requires
        g.steppable(),
        g.contains(x, y),
        !g.interior(x, y),
    ensures
        g.stepped().v_at(x, y) == g.v_at(x, y),
        g.stepped().u_at(x, y) == saturate(g.mirrored_u(x, y) + g.v_at(x, y)),
        g.v_at(x, y) == 0 ==> g.stepped().u_at(x, y) == g.mirrored_u(x, y),
{
    lemma_stepped_cell(g, x, y);
    lemma_mirrored_cell(g, x, y);
}

/// A flat field at rest stays as it is: where every cell has the same
/// displacement and no velocity, all forces cancel, and a tick changes
/// nothing.
pub proof fn lemma_rest_is_stationary(g: Grid, level: int)
    requires
        g.steppable(),
        g.at_rest(level),
    ensures
        g.stepped() == g,
{
    let m = g.mirrored();
    assert forall|i: int| 0 <= i < g.u.len() implies #[trigger] m.u[i] == g.u[i] by {
        lemma_entry(g, i);
        let (sx, sy) = g.mirror_source(g.column(i), g.row(i));
        lemma_cell(g, sx, sy);
    }
    assert(m.u =~= g.u);
    assert(m == g);
    let a = g.accelerated();
    assert forall|i: int| 0 <= i < g.v.len() implies #[trigger] a.v[i] == g.v[i] by {
        lemma_entry(g, i);
        let x = g.column(i);
        let y = g.row(i);
        if g.interior(x, y) {
            lemma_flat_delta(g, level, x, y);
        }
    }
    assert(a.v =~= g.v);
    assert(a == g);
    assert(g.integrated().u =~= g.u);
}

/// In a flat field no cell is accelerated.
pub proof fn lemma_flat_delta(g: Grid, level: int, x: int, y: int)
    requires
        g.wf(),
        g.contains(x, y),
        forall|i: int| 0 <= i < g.u.len() ==> #[trigger] g.u[i] == level,
    ensures
        g.delta(x, y) == 0,
{
    lemma_delta_written_out(g, x, y);
    lemma_cell(g, x, y);
    assert forall|sx: int, sy: int| #[trigger] g.force(x, y, sx, sy) == 0 by {
        if g.contains(sx, sy) {
            lemma_cell(g, sx, sy);
        }
    }
}

/// The two strategies agree: from the same grid, a tick computed cell by
/// cell and a tick computed slice by slice lead to the same grid, in every
/// cell, the border included.
pub proof fn lemma_strategies_agree(
    scalar: Field2D,
    vectorized: Field2D,
    scalar_after: Field2D,
    vectorized_after: Field2D,
)
    requires
        !scalar.is_vectorized(),
        vectorized.is_vectorized(),
        scalar@ == vectorized@,
        scalar_after@ == scalar@.stepped(),
        vectorized_after@ == vectorized@.stepped(),
    ensures
        scalar_after@ == vectorized_after@,
{
}

/// The two strategies agree after any number of ticks.
pub proof fn lemma_strategies_agree_for_long(
    scalar: Field2D,
    vectorized: Field2D,
    scalar_after: Field2D,
    vectorized_after: Field2D,
    n: nat,
)
    requires
        !scalar.is_vectorized(),
        vectorized.is_vectorized(),
        scalar@ == vectorized@,
        scalar_after@ == scalar@.advanced(n),
        vectorized_after@ == vectorized@.advanced(n),
    ensures
        scalar_after@ == vectorized_after@,
{
}

/// A force is the opposite of the force in the other direction, so what one
/// interior cell gains from another, the other loses.
pub proof fn lemma_forces_are_mutual(g: Grid, x: int, y: int, sx: int, sy: int)
    requires
        g.contains(x, y),
        g.contains(sx, sy),
    ensures
        g.force(x, y, sx, sy) == -g.force(sx, sy, x, y),
        weaken(g.force(x, y, sx, sy)) == -weaken(g.force(sx, sy, x, y)),
{
    assert(pull(g.u_at(x, y), g.u_at(sx, sy)) == -pull(g.u_at(sx, sy), g.u_at(x, y)));
}

} // verus!
