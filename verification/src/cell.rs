//! Per-site state of the automaton: a liveness flag and a decaying heat
//! intensity used only for rendering.

use vstd::prelude::*;

verus! {

/// One site of the grid. A pure value type: copied freely, no identity
/// beyond its position in the grid.
#[derive(Clone, Copy, PartialEq, Eq, Structural, Debug)]
pub struct Cell {
    /// Liveness in the current generation.
    pub alive: bool,
    /// Visual intensity: reset to 255 on becoming alive, decayed toward 0
    /// while dead. Never consulted by the update rule itself.
    pub heat: u8,
}

/// Heat after one generation spent dead: scaled by 99/100 and truncated.
pub open spec fn decayed(h: u8) -> u8 {
    ((h as int) * 99 / 100) as u8
}

/// The B3/S23 rule: next liveness from current liveness and the
/// live-neighbor count. A dead cell is born exactly on 3 live neighbors;
/// a live cell survives exactly on 2 or 3.
pub open spec fn rule_alive(alive: bool, n: int) -> bool {
    if alive {
        n == 2 || n == 3
    } else {
        n == 3
    }
}

/// The full per-cell transition for live-neighbor count `n`: liveness from
/// the rule, heat reset on life and decayed on death.
pub open spec fn next_cell(c: Cell, n: int) -> Cell {
    if rule_alive(c.alive, n) {
        Cell { alive: true, heat: 255 }
    } else {
        Cell { alive: false, heat: decayed(c.heat) }
    }
}

/// The 4-byte RGBA color of a cell: fully opaque cyan while alive, heat on
/// the blue channel while dead.
pub open spec fn color_of(c: Cell) -> Seq<u8> {
    if c.alive {
        seq![0u8, 0xffu8, 0xffu8, 0xffu8]
    } else {
        seq![0u8, 0u8, c.heat, 0xffu8]
    }
}

impl Cell {
    /// A fresh cell with the given liveness and no accumulated heat.
    pub fn new(alive: bool) -> (c: Cell)
        ensures
            c == (Cell { alive, heat: 0u8 }),
    {
        Cell { alive, heat: 0 }
    }

    /// The cell's state in the next generation, given its live-neighbor
    /// count: the birth rule applies while dead, the survival rule while
    /// alive.
    pub fn update_neibs(self, n: usize) -> (c: Cell)
        requires
            n <= 8,
        ensures
            c == next_cell(self, n as int),
    {
        let next_alive = if self.alive {
            n == 2 || n == 3
        } else {
            n == 3
        };
        self.next_state(next_alive)
    }

    /// Applies the heat transition for the chosen liveness: full heat on
    /// life, one decay step on death.
    pub fn next_state(self, alive: bool) -> (c: Cell)
        ensures
            c == next_cell_for(self, alive),
    {
        if alive {
            Cell { alive: true, heat: 0xff }
        } else {
            let heat: u32 = (self.heat as u32) * 99 / 100;
            Cell { alive: false, heat: heat as u8 }
        }
    }

    /// The RGBA color this cell renders as.
    pub fn get_color(&self) -> (r: [u8; 4])
        ensures
            r@ == color_of(*self),
    {
        let r = if self.alive {
            [0u8, 0xff, 0xff, 0xff]
        } else {
            [0u8, 0x0, self.heat, 0xff]
        };
        proof {
            assert(r@ =~= color_of(*self));
        }
        r
    }
}

/// The per-cell transition with the next liveness already decided.
pub open spec fn next_cell_for(c: Cell, alive: bool) -> Cell {
    if alive {
        Cell { alive: true, heat: 255 }
    } else {
        Cell { alive: false, heat: decayed(c.heat) }
    }
}

/// Rule correctness, exhaustively over the possible neighbor counts: birth
/// exactly at 3, survival exactly at 2 or 3, death everywhere else.
pub proof fn lemma_rule_correctness(n: int)
    requires
        0 <= n <= 8,
    ensures
        rule_alive(false, n) <==> n == 3,
        rule_alive(true, n) <==> (n == 2 || n == 3),
{
}

/// Heat never grows while dead, and one decay step is exact truncated
/// scaling by 99/100.
pub proof fn lemma_decay_bounds(h: u8)
    ensures
        decayed(h) <= h,
        h > 0 ==> decayed(h) < h,
        decayed(h) == (h as int) * 99 / 100,
{
}

} // verus!
