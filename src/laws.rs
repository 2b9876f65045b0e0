//! Laws of the toggle, stated over the grid model that the board's operations
//! are specified with.

use vstd::prelude::*;
use crate::board::{all_unlit, blank, is_grid, on_grid, toggled, toggled_all};

verus! {

/// Cell-wise exclusive or of two grids of the same shape.
pub open spec fn xor_grid(a: Seq<Seq<bool>>, b: Seq<Seq<bool>>) -> Seq<Seq<bool>> {
    Seq::new(a.len(), |r: int| Seq::new(a[r].len(), |c: int| a[r][c] != b[r][c]))
}

/// A toggle keeps the shape of the grid.
pub proof fn lemma_toggle_keeps_shape(cells: Seq<Seq<bool>>, w: int, h: int, x: int, y: int)
    requires
        is_grid(cells, w, h),
    ensures
        is_grid(toggled(cells, x, y), w, h),
{
}

/// Toggles at a sequence of points keep the shape of the grid.
pub proof fn lemma_toggles_keep_shape(cells: Seq<Seq<bool>>, w: int, h: int, pts: Seq<(int, int)>)
    requires
        is_grid(cells, w, h),
    ensures
        is_grid(toggled_all(cells, pts), w, h),
    decreases pts.len(),
{
    if pts.len() > 0 {
        lemma_toggles_keep_shape(cells, w, h, pts.drop_last());
        lemma_toggle_keeps_shape(toggled_all(cells, pts.drop_last()), w, h, pts.last().0, pts.last().1);
    }
}

/// Toggling twice at the same point, on the board or off it, gives back the grid.
pub proof fn lemma_toggle_involution(cells: Seq<Seq<bool>>, x: int, y: int)
    ensures
        toggled(toggled(cells, x, y), x, y) == cells,
{
    let once = toggled(cells, x, y);
    assert(on_grid(once, x, y) == on_grid(cells, x, y));
    assert forall|r: int| 0 <= r < cells.len() implies #[trigger] toggled(once, x, y)[r] =~= cells[r] by {}
    assert(toggled(once, x, y) =~= cells);
}

/// Toggles at `a` and then at `b` are the toggles at `a + b`.
pub proof fn lemma_toggles_concat(cells: Seq<Seq<bool>>, a: Seq<(int, int)>, b: Seq<(int, int)>)
    ensures
        toggled_all(cells, a + b) == toggled_all(toggled_all(cells, a), b),
    decreases b.len(),
{
    if b.len() == 0 {
        assert(a + b =~= a);
    } else {
        lemma_toggles_concat(cells, a, b.drop_last());
        assert((a + b).drop_last() =~= a + b.drop_last());
        assert((a + b).last() == b.last());
    }
}

/// Applying a sequence of toggles and then the same toggles in reverse order
/// gives back the grid.
pub proof fn lemma_toggles_undone_in_reverse(cells: Seq<Seq<bool>>, pts: Seq<(int, int)>)
    ensures
        toggled_all(toggled_all(cells, pts), pts.reverse()) == cells,
    decreases pts.len(),
{
    if pts.len() > 0 {
        let rest = pts.drop_last();
        let p = pts.last();
        let mid = toggled_all(cells, rest);
        assert(pts.reverse() =~= seq![p] + rest.reverse());
        lemma_toggles_concat(toggled_all(cells, pts), seq![p], rest.reverse());
        assert(seq![p].drop_last() =~= Seq::<(int, int)>::empty());
        assert(seq![p].last() == p);
        assert(toggled_all(toggled_all(cells, pts), Seq::<(int, int)>::empty()) == toggled_all(cells, pts));
        assert(toggled_all(toggled_all(cells, pts), seq![p]) == toggled(toggled(mid, p.0, p.1), p.0, p.1));
        lemma_toggle_involution(mid, p.0, p.1);
        lemma_toggles_undone_in_reverse(cells, rest);
    }
}

/// A toggle commutes with an exclusive or against a grid of the same shape.
proof fn lemma_toggle_xor(a: Seq<Seq<bool>>, b: Seq<Seq<bool>>, w: int, h: int, x: int, y: int)
    requires
        is_grid(a, w, h),
        is_grid(b, w, h),
    ensures
        toggled(xor_grid(a, b), x, y) == xor_grid(a, toggled(b, x, y)),
{
    let lhs = toggled(xor_grid(a, b), x, y);
    let rhs = xor_grid(a, toggled(b, x, y));
    assert(on_grid(xor_grid(a, b), x, y) == on_grid(b, x, y)) by {
        if 0 <= y < h {
            assert(a[y].len() == w && b[y].len() == w);
        }
    }
    assert forall|r: int| 0 <= r < h implies #[trigger] lhs[r] =~= rhs[r] by {
        assert(a[r].len() == w && b[r].len() == w);
    }
    assert(lhs =~= rhs);
}

/// Toggles applied to a grid act on it as an exclusive or with the same toggles
/// applied to the blank grid.
proof fn lemma_toggles_as_xor(cells: Seq<Seq<bool>>, w: int, h: int, pts: Seq<(int, int)>)
    requires
        w >= 0,
        h >= 0,
        is_grid(cells, w, h),
    ensures
        toggled_all(cells, pts) == xor_grid(cells, toggled_all(blank(w, h), pts)),
    decreases pts.len(),
{
    let z = blank(w, h);
    assert(is_grid(z, w, h));
    if pts.len() == 0 {
        assert forall|r: int| 0 <= r < h implies #[trigger] xor_grid(cells, z)[r] =~= cells[r] by {
            assert(cells[r].len() == w);
        }
        assert(xor_grid(cells, z) =~= cells);
    } else {
        let rest = pts.drop_last();
        let p = pts.last();
        lemma_toggles_as_xor(cells, w, h, rest);
        lemma_toggles_keep_shape(z, w, h, rest);
        lemma_toggle_xor(cells, toggled_all(z, rest), w, h, p.0, p.1);
    }
}

/// A grid can be cleared by some sequence of toggles exactly when it is itself
/// reached from the blank grid by some sequence of toggles, that is, when its
/// pattern of lit cells is a sum (over GF(2)) of clipped 3×3 toggle patterns.
pub proof fn lemma_solvable_iff_in_span(cells: Seq<Seq<bool>>, w: int, h: int)
    requires
        w >= 0,
        h >= 0,
        is_grid(cells, w, h),
    ensures
        (exists|pts: Seq<(int, int)>| all_unlit(#[trigger] toggled_all(cells, pts)))
            <==> (exists|pts: Seq<(int, int)>| #[trigger] toggled_all(blank(w, h), pts) == cells),
{
    let z = blank(w, h);
    if exists|pts: Seq<(int, int)>| all_unlit(#[trigger] toggled_all(cells, pts)) {
        let pts = choose|pts: Seq<(int, int)>| all_unlit(#[trigger] toggled_all(cells, pts));
        lemma_toggles_as_xor(cells, w, h, pts);
        lemma_toggles_keep_shape(z, w, h, pts);
        let zs = toggled_all(z, pts);
        let x = xor_grid(cells, zs);
        assert forall|r: int| 0 <= r < h implies #[trigger] zs[r] =~= cells[r] by {
            assert(cells[r].len() == w && zs[r].len() == w);
            assert forall|c: int| 0 <= c < w implies zs[r][c] == cells[r][c] by {
                assert(!x[r][c]);
            }
        }
        assert(zs =~= cells);
    }
    if exists|pts: Seq<(int, int)>| #[trigger] toggled_all(z, pts) == cells {
        let pts = choose|pts: Seq<(int, int)>| #[trigger] toggled_all(z, pts) == cells;
        lemma_toggles_as_xor(cells, w, h, pts);
        let x = toggled_all(cells, pts);
        assert forall|r: int, c: int| 0 <= r < x.len() && 0 <= c < x[r].len() implies !#[trigger] x[r][c] by {}
        assert(all_unlit(x));
    }
}

} // verus!
