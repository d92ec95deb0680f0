//! Collision checks: whether a candidate placement of a piece is legal.

use vstd::prelude::*;
use crate::field_view::{cell_views, FieldView};
use crate::game_field::{Cell, GameField};

verus! {

/// Whether a piece may be placed on `cells`: no cell lies in a wall, below the
/// floor or on a locked block. The field is only read, so a caller may probe
/// any number of candidates before it commits to one.
pub fn valid(field: &GameField, cells: &[Cell; 4]) -> (ok: bool)
    requires
        field.wf(),
    ensures
        ok == field@.valid(cell_views(cells@)),
        ok == forall|i: int| 0 <= i < 4 ==> !field@.occupied(#[trigger] cells[i]@),
{
    let ok = !field.is_occupied(cells[0]) && !field.is_occupied(cells[1]) && !field.is_occupied(
        cells[2],
    ) && !field.is_occupied(cells[3]);
    proof {
        let views = cell_views(cells@);
        assert(views.len() == 4);
        assert(forall|i: int| 0 <= i < 4 ==> views[i] == cells[i]@);
        if ok {
            assert forall|i: int| 0 <= i < 4 implies !field@.occupied(#[trigger] cells[i]@) by {
                assert(i == 0 || i == 1 || i == 2 || i == 3);
            }
        } else {
            assert(field@.occupied(views[0]) || field@.occupied(views[1]) || field@.occupied(
                views[2],
            ) || field@.occupied(views[3]));
        }
    }
    ok
}

/// A placement is rejected as soon as one of its cells lies left of column 0,
/// right of the last column, below row 0, or on a locked block; it is accepted
/// when every cell is a stored, empty cell of the grid.
pub proof fn lemma_valid_rejects_and_accepts(field: FieldView, cells: Seq<(int, int)>)
    ensures
        (exists|i: int| 0 <= i < cells.len() && (#[trigger] cells[i]).0 < 0) ==> !field.valid(cells),
        (exists|i: int| 0 <= i < cells.len() && (#[trigger] cells[i]).0 >= field.width)
            ==> !field.valid(cells),
        (exists|i: int| 0 <= i < cells.len() && (#[trigger] cells[i]).1 < 0) ==> !field.valid(cells),
        (exists|i: int| 0 <= i < cells.len() && field.at(#[trigger] cells[i]) is Some)
            ==> !field.valid(cells),
        (forall|i: int|
            0 <= i < cells.len() ==> field.stored(#[trigger] cells[i]) && field.at(cells[i]) is None)
            ==> field.valid(cells),
{
}

} // verus!
