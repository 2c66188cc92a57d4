//! The automaton engine: grid storage, construction, seeding, and the
//! per-generation transition.

use vstd::prelude::*;

verus! {

/// Packs a three-cell neighborhood into a rule-table index, the left
/// neighbor being the most significant of the three bits.
pub open spec fn pattern_index(l: bool, c: bool, r: bool) -> int {
    (if l { 4int } else { 0int }) + (if c { 2int } else { 0int }) + (if r { 1int } else { 0int })
}

/// Bit `idx` of the rule byte: whether the neighborhood pattern whose
/// packed value is `idx` produces a live cell in the next generation.
pub open spec fn rule_bit(rule: u8, idx: int) -> bool {
    (rule >> (idx as u8)) & 1 == 1
}

/// The generation that follows `prev`: each interior cell is looked up in
/// the rule table from its three-cell neighborhood, while the two boundary
/// cells keep the value they had in `prev`.
pub open spec fn next_row(prev: Seq<bool>, rule: u8) -> Seq<bool> {
    Seq::new(
        prev.len(),
        |x: int|
            if x == 0 || x == prev.len() - 1 {
                prev[x]
            } else {
                rule_bit(rule, pattern_index(prev[x - 1], prev[x], prev[x + 1]))
            },
    )
}

/// One advance of the whole grid: every row moves up one position, the
/// oldest row is discarded, and the new bottom row is the generation that
/// follows the old bottom row.
pub open spec fn step(g: Seq<Seq<bool>>, rule: u8) -> Seq<Seq<bool>> {
    g.subrange(1, g.len() as int).push(next_row(g[g.len() - 1], rule))
}

/// `n` advances in a row.
pub open spec fn step_n(g: Seq<Seq<bool>>, rule: u8, n: nat) -> Seq<Seq<bool>>
    decreases n,
{
    if n == 0 {
        g
    } else {
        step(step_n(g, rule, (n - 1) as nat), rule)
    }
}

/// A well-formed grid: at least 2 rows, and every row of the same length,
/// at least 2 cells.
pub open spec fn grid_wf(g: Seq<Seq<bool>>) -> bool {
    &&& g.len() >= 2
    &&& g[0].len() >= 2
    &&& forall|y: int| 0 <= y < g.len() ==> (#[trigger] g[y]).len() == g[0].len()
}

/// The all-dead grid of the given dimensions.
pub open spec fn blank_grid(width: nat, height: nat) -> Seq<Seq<bool>> {
    Seq::new(height, |y: int| Seq::new(width, |x: int| false))
}

/// Construction failure: the requested dimensions are below the 2x2 minimum.
#[derive(Clone, Copy, Debug, PartialEq, Eq, Structural)]
pub enum ValidationError {
    DimensionsTooSmall,
}

/// An elementary cellular automaton with a fixed rule byte and a grid of
/// generations, the bottom row being the current one.
pub struct CA {
    grid: Vec<Vec<bool>>,
    rule: u8,
}

impl View for CA {
    type V = Seq<Seq<bool>>;

    closed spec fn view(&self) -> Seq<Seq<bool>> {
        Seq::new(self.grid@.len(), |y: int| self.grid@[y]@)
    }
}

impl CA {
    /// The transition rule byte, immutable for the engine's lifetime.
    pub closed spec fn spec_rule(&self) -> u8 {
        self.rule
    }

    /// The engine keeps the rectangular shape it was constructed with.
    pub open spec fn wf(&self) -> bool {
        grid_wf(self@)
    }

    /// Builds an engine with all cells dead, or refuses dimensions below
    /// the 2x2 minimum.
    pub fn new(width: usize, height: usize, rule: u8) -> (result: Result<CA, ValidationError>)
        ensures
            result is Ok <==> width >= 2 && height >= 2,
            result matches Ok(ca) ==> {
                &&& ca.wf()
                &&& ca@ == blank_grid(width as nat, height as nat)
                &&& ca.spec_rule() == rule
            },
    {
        if width < 2 || height < 2 {
            return Err(ValidationError::DimensionsTooSmall);
        }
        let mut grid: Vec<Vec<bool>> = Vec::new();
        let mut y: usize = 0;
        while y < height
            invariant
                y <= height,
                grid@.len() == y,
                forall|i: int| 0 <= i < y ==> (#[trigger] grid@[i])@ =~= Seq::new(
                    width as nat,
                    |x: int| false,
                ),
            decreases height - y,
        {
            let mut row: Vec<bool> = Vec::new();
            let mut x: usize = 0;
            while x < width
                invariant
                    x <= width,
                    row@.len() == x,
                    forall|j: int| 0 <= j < x ==> !(#[trigger] row@[j]),
                decreases width - x,
            {
                row.push(false);
                x = x + 1;
            }
            proof {
                assert(row@ =~= Seq::new(width as nat, |x: int| false));
            }
            grid.push(row);
            y = y + 1;
        }
        let ca = CA { grid, rule };
        proof {
            assert(ca@ =~~= blank_grid(width as nat, height as nat));
        }
        Ok(ca)
    }

    /// The rule byte the engine was constructed with.
    pub fn rule(&self) -> (r: u8)
        ensures
            r == self.spec_rule(),
    {
        self.rule
    }

    /// The number of rows (generations kept).
    pub fn height(&self) -> (h: usize)
        ensures
            h == self@.len(),
    {
        self.grid.len()
    }

    /// The number of cells in every row.
    pub fn width(&self) -> (w: usize)
        requires
            self.wf(),
        ensures
            w == self@[0].len(),
    {
        self.grid[0].len()
    }

    /// A read-only view of the grid: rows of cells, row 0 the oldest
    /// generation, the last row the current one.
    pub fn grid(&self) -> (g: &Vec<Vec<bool>>)
        ensures
            g@.len() == self@.len(),
            forall|y: int| 0 <= y < g@.len() ==> (#[trigger] g@[y])@ == self@[y],
    {
        &self.grid
    }

    /// Seeds cell `(x, y)` live.
    pub fn fill(&mut self, x: usize, y: usize)
        requires
            old(self).wf(),
            x < old(self)@[0].len(),
            y < old(self)@.len(),
        ensures
            final(self).wf(),
            final(self).spec_rule() == old(self).spec_rule(),
            final(self)@ == old(self)@.update(y as int, old(self)@[y as int].update(x as int, true)),
    {
        proof {
            assert(self.grid@[y as int]@ == self@[y as int]);
            assert(self@[y as int].len() == self@[0].len());
        }
        self.grid[y][x] = true;
        proof {
            assert(self@ =~~= old(self)@.update(
                y as int,
                old(self)@[y as int].update(x as int, true),
            ));
        }
    }

    /// Clears cell `(x, y)` to dead.
    pub fn clear(&mut self, x: usize, y: usize)
        requires
            old(self).wf(),
            x < old(self)@[0].len(),
            y < old(self)@.len(),
        ensures
            final(self).wf(),
            final(self).spec_rule() == old(self).spec_rule(),
            final(self)@ == old(self)@.update(y as int, old(self)@[y as int].update(x as int, false)),
    {
        proof {
            assert(self.grid@[y as int]@ == self@[y as int]);
            assert(self@[y as int].len() == self@[0].len());
        }
        self.grid[y][x] = false;
        proof {
            assert(self@ =~~= old(self)@.update(
                y as int,
                old(self)@[y as int].update(x as int, false),
            ));
        }
    }

    /// Advances the automaton one generation: the history scrolls up one
    /// row and the new bottom row follows from the old bottom row.
    pub fn update(&mut self)
        requires
            old(self).wf(),
        ensures
            final(self).wf(),
            final(self).spec_rule() == old(self).spec_rule(),
            final(self)@ == step(old(self)@, old(self).spec_rule()),
    {
        let height = self.grid.len();
        let width = self.grid[0].len();
        let ghost g0 = self@;
        let ghost prev = g0[height - 1];
        proof {
            assert(self.grid@[height - 1]@ == self@[height - 1]);
            assert(prev.len() == width);
        }
        let mut next: Vec<bool> = Vec::new();
        next.push(self.grid[height - 1][0]);
        let mut x: usize = 1;
        while x < width - 1
            invariant
                self == old(self),
                self.wf(),
                g0 == self@,
                prev == g0[height - 1],
                height == self@.len(),
                width == self@[0].len(),
                prev.len() == width,
                width >= 2,
                1 <= x <= width - 1,
                next@.len() == x,
                forall|i: int| 0 <= i < x ==> next@[i] == next_row(prev, self.spec_rule())[i],
            decreases width - 1 - x,
        {
            proof {
                assert(self.grid@[height - 1]@ == self@[height - 1]);
            }
            let l = self.grid[height - 1][x - 1];
            let c = self.grid[height - 1][x];
            let r = self.grid[height - 1][x + 1];
            let idx = pack_neighborhood(l, c, r);
            next.push(rule_lookup(self.rule, idx));
            x = x + 1;
        }
        proof {
            assert(self.grid@[height - 1]@ == self@[height - 1]);
        }
        next.push(self.grid[height - 1][width - 1]);
        proof {
            assert(next@ =~= next_row(prev, self.spec_rule()));
        }
        self.grid.remove(0);
        self.grid.push(next);
        proof {
            assert(self@ =~~= step(g0, old(self).spec_rule()));
        }
    }
}

/// Packs a three-cell neighborhood into its rule-table index.
fn pack_neighborhood(l: bool, c: bool, r: bool) -> (idx: u8)
    ensures
        idx == pattern_index(l, c, r),
        idx < 8,
{
    (if l { 4u8 } else { 0u8 }) + (if c { 2u8 } else { 0u8 }) + (if r { 1u8 } else { 0u8 })
}

/// Looks up one bit of the rule byte.
fn rule_lookup(rule: u8, idx: u8) -> (alive: bool)
    requires
        idx < 8,
    ensures
        alive == rule_bit(rule, idx as int),
{
    (rule >> idx) & 1 == 1
}

} // verus!
