//! Grid-level laws of the advance operation, proved once and for all.
//!
//! Each law is stated over the abstract grid (`Seq<Seq<bool>>`) and the
//! spec functions `step` / `step_n`, so it composes with the `ensures` of
//! `CA::update`, which says the engine's view takes exactly one `step`.

use vstd::prelude::*;

verus! {

use crate::ca::{grid_wf, next_row, pattern_index, rule_bit, step, step_n, blank_grid};

/// Every cell of the two boundary columns is dead.
pub open spec fn boundary_false(g: Seq<Seq<bool>>) -> bool {
    forall|y: int| 0 <= y < g.len() ==> !(#[trigger] g[y])[0] && !g[y][g[y].len() - 1]
}

/// Every cell of the grid is dead.
pub open spec fn all_false(g: Seq<Seq<bool>>) -> bool {
    forall|y: int, x: int| 0 <= y < g.len() && 0 <= x < g[y].len() ==> !(#[trigger] g[y][x])
}

/// A freshly constructed grid is all dead, its boundary columns included.
pub proof fn lemma_blank_grid_all_false(width: nat, height: nat)
    requires
        width >= 1,
    ensures
        all_false(blank_grid(width, height)),
        boundary_false(blank_grid(width, height)),
{
}

/// Seeding or clearing an interior cell leaves dead boundary columns dead.
pub proof fn lemma_interior_update_preserves_boundary(
    g: Seq<Seq<bool>>,
    x: int,
    y: int,
    v: bool,
)
    requires
        grid_wf(g),
        boundary_false(g),
        0 <= y < g.len(),
        1 <= x < g[y].len() - 1,
    ensures
        boundary_false(g.update(y, g[y].update(x, v))),
{
    let s = g.update(y, g[y].update(x, v));
    assert forall|y2: int| 0 <= y2 < s.len() implies !(#[trigger] s[y2])[0] && !s[y2][s[y2].len()
        - 1] by {
        assert(!g[y2][0] && !g[y2][g[y2].len() - 1]);
    }
}

/// A single advance keeps the grid well-formed and keeps its dimensions:
/// an advance never fails and never changes the row count or the width.
pub proof fn lemma_step_preserves_wf(g: Seq<Seq<bool>>, rule: u8)
    requires
        grid_wf(g),
    ensures
        grid_wf(step(g, rule)),
        step(g, rule).len() == g.len(),
        step(g, rule)[0].len() == g[0].len(),
{
}

/// Any number of advances keeps the grid well-formed and keeps its
/// dimensions.
pub proof fn lemma_step_n_preserves_wf(g: Seq<Seq<bool>>, rule: u8, n: nat)
    requires
        grid_wf(g),
    ensures
        grid_wf(step_n(g, rule, n)),
        step_n(g, rule, n).len() == g.len(),
        step_n(g, rule, n)[0].len() == g[0].len(),
    decreases n,
{
    if n > 0 {
        lemma_step_n_preserves_wf(g, rule, (n - 1) as nat);
        lemma_step_preserves_wf(step_n(g, rule, (n - 1) as nat), rule);
    }
}

/// The scroll law: after one advance the row at index `y` is the row that
/// stood at index `y + 1`, for every `y` but the last; the new bottom row
/// is the generation that follows the old bottom row.
pub proof fn lemma_scroll(g: Seq<Seq<bool>>, rule: u8)
    requires
        grid_wf(g),
    ensures
        step(g, rule).len() == g.len(),
        forall|y: int| 0 <= y < g.len() - 1 ==> step(g, rule)[y] == g[y + 1],
        step(g, rule)[g.len() - 1] == next_row(g[g.len() - 1], rule),
{
}

/// One advance keeps dead boundary columns dead: the new bottom row copies
/// the old bottom row's boundary cells, and every other row scrolls up
/// unchanged.
pub proof fn lemma_step_preserves_boundary(g: Seq<Seq<bool>>, rule: u8)
    requires
        grid_wf(g),
        boundary_false(g),
    ensures
        boundary_false(step(g, rule)),
{
    let s = step(g, rule);
    let h = g.len() as int;
    assert forall|y: int| 0 <= y < s.len() implies !(#[trigger] s[y])[0] && !s[y][s[y].len()
        - 1] by {
        if y < h - 1 {
            assert(s[y] == g[y + 1]);
            assert(!g[y + 1][0] && !g[y + 1][g[y + 1].len() - 1]);
        } else {
            assert(s[y] == next_row(g[h - 1], rule));
            assert(!g[h - 1][0] && !g[h - 1][g[h - 1].len() - 1]);
            assert(s[y][0] == g[h - 1][0]);
            assert(s[y][s[y].len() - 1] == g[h - 1][g[h - 1].len() - 1]);
        }
    }
}

/// The boundary freeze: if no boundary cell was ever seeded live, the two
/// boundary columns stay all dead after any number of advances, whatever
/// the rule.
pub proof fn lemma_boundary_freeze(g: Seq<Seq<bool>>, rule: u8, n: nat)
    requires
        grid_wf(g),
        boundary_false(g),
    ensures
        grid_wf(step_n(g, rule, n)),
        boundary_false(step_n(g, rule, n)),
    decreases n,
{
    if n > 0 {
        lemma_boundary_freeze(g, rule, (n - 1) as nat);
        lemma_step_preserves_boundary(step_n(g, rule, (n - 1) as nat), rule);
        lemma_step_preserves_wf(step_n(g, rule, (n - 1) as nat), rule);
    }
}

/// Rule 0 fixed point: under rule 0 every neighborhood maps to dead, so an
/// all-dead grid stays all dead after any number of advances.
pub proof fn lemma_rule_zero_fixed_point(g: Seq<Seq<bool>>, n: nat)
    requires
        grid_wf(g),
        all_false(g),
    ensures
        all_false(step_n(g, 0, n)),
    decreases n,
{
    if n > 0 {
        lemma_rule_zero_fixed_point(g, (n - 1) as nat);
        lemma_step_n_preserves_wf(g, 0, (n - 1) as nat);
        let g1 = step_n(g, 0, (n - 1) as nat);
        let s = step(g1, 0);
        let h = g1.len() as int;
        assert forall|y: int, x: int|
            0 <= y < s.len() && 0 <= x < s[y].len() implies !(#[trigger] s[y][x]) by {
            if y < h - 1 {
                assert(s[y] == g1[y + 1]);
                assert(!g1[y + 1][x]);
            } else {
                assert(s[y] == next_row(g1[h - 1], 0));
                if x == 0 || x == g1[h - 1].len() - 1 {
                    assert(!g1[h - 1][x]);
                } else {
                    let k = pattern_index(g1[h - 1][x - 1], g1[h - 1][x], g1[h - 1][x + 1]) as u8;
                    assert((0u8 >> k) & 1u8 == 0u8) by (bit_vector);
                    assert(!rule_bit(0, k as int));
                }
            }
        }
    }
}

/// Rule 255 saturation: under rule 255 every neighborhood maps to live, so
/// after at least one advance every interior cell of the bottom row is
/// live, and stays live through all later advances.
pub proof fn lemma_rule_all_ones_interior_live(g: Seq<Seq<bool>>, n: nat)
    requires
        grid_wf(g),
        n >= 1,
    ensures
        ({
            let s = step_n(g, 255, n);
            forall|x: int| 1 <= x < g[0].len() - 1 ==> #[trigger] s[s.len() - 1][x]
        }),
    decreases n,
{
    lemma_step_n_preserves_wf(g, 255, (n - 1) as nat);
    let g1 = step_n(g, 255, (n - 1) as nat);
    let s = step_n(g, 255, n);
    let h = g1.len() as int;
    assert(s == step(g1, 255));
    assert forall|x: int| 1 <= x < g[0].len() - 1 implies #[trigger] s[s.len() - 1][x] by {
        assert(s[s.len() - 1] == next_row(g1[h - 1], 255));
        let k = pattern_index(g1[h - 1][x - 1], g1[h - 1][x], g1[h - 1][x + 1]) as u8;
        assert(k < 8 ==> (255u8 >> k) & 1u8 == 1u8) by (bit_vector);
        assert(rule_bit(255, k as int));
    }
}

} // verus!
