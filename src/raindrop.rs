//! A single drop: a fixed position and an animation stage that advances once
//! per frame until the drop has shown every glyph set.
use vstd::prelude::*;
use crate::escape::{goto, goto_seq};

verus! {

/// Number of glyph sets a drop goes through.
pub const STAGE_COUNT: usize = 5;

/// Cells kept clear on every side of the screen: the reach of the widest
/// glyph set around a drop's position.
pub const MARGIN: u16 = 2;

#[derive(Debug, Clone, Copy)]
struct Coordinate {
    x: u16,
    y: u16,
}

#[derive(Debug)]
pub(crate) struct RelativeCoordinate {
    pub(crate) x: i8,
    pub(crate) y: i8,
}

/// One glyph of a glyph set, placed relative to the drop's position.
#[derive(Debug)]
pub(crate) struct Drawchar {
    pub(crate) coord: RelativeCoordinate,
    pub(crate) glyph: &'static str,
}

/// The glyph sets, one per stage: each cell is a column offset, a row offset
/// and the glyph drawn there. A dot, a small circle, a large circle, a cross,
/// and a splash.
pub open spec fn glyph_set(stage: int) -> Seq<(int, int, Seq<char>)> {
    if stage == 0 {
        seq![(0int, 0int, "."@)]
    } else if stage == 1 {
        seq![(0int, 0int, "o"@)]
    } else if stage == 2 {
        seq![(0int, 0int, "O"@)]
    } else if stage == 3 {
        seq![
            (0int, -1int, "-"@),
            (-1int, 0int, "|"@),
            (0int, 0int, "."@),
            (1int, 0int, "|"@),
            (0int, 1int, "-"@),
        ]
    } else if stage == 4 {
        seq![
            (0int, -2int, "-"@),
            (-1int, -1int, "/"@),
            (1int, -1int, "\\"@),
            (-2int, 0int, "|"@),
            (0int, 0int, "O"@),
            (2int, 0int, "|"@),
            (-1int, 1int, "\\"@),
            (1int, 1int, "/"@),
            (0int, 2int, "-"@),
        ]
    } else {
        seq![]
    }
}

/// A cell lies within `MARGIN` of the drop's position, and no cell reaches
/// the margin on both axes at once.
pub open spec fn cell_in_reach(c: (int, int, Seq<char>)) -> bool {
    &&& -2 <= c.0 <= 2
    &&& -2 <= c.1 <= 2
    &&& (c.0 == -2 || c.0 == 2 ==> c.1 == 0)
}

/// The text that draws `cell` for a drop at column `col`, row `row`.
pub open spec fn cell_text(col: int, row: int, cell: (int, int, Seq<char>)) -> Seq<char> {
    goto_seq((col + cell.0) as nat, (row + cell.1) as nat) + cell.2
}

/// The text that draws `cells`, in order, for a drop at column `col`, row `row`.
pub open spec fn render_cells(col: int, row: int, cells: Seq<(int, int, Seq<char>)>) -> Seq<char>
    decreases cells.len(),
{
    if cells.len() == 0 {
        seq![]
    } else {
        render_cells(col, row, cells.drop_last()) + cell_text(col, row, cells.last())
    }
}

impl Drawchar {
    pub(crate) open spec fn cell(&self) -> (int, int, Seq<char>) {
        (self.coord.x as int, self.coord.y as int, self.glyph@)
    }

    fn new(x: i8, y: i8, c: &'static str) -> (r: Drawchar)
        ensures
            r.cell() == (x as int, y as int, c@),
    {
        Drawchar { coord: RelativeCoordinate { x, y }, glyph: c }
    }
}

/// `table` holds, at each stage, exactly the cells of that stage's glyph set.
pub(crate) open spec fn is_glyph_table(table: Seq<Vec<Drawchar>>) -> bool {
    &&& table.len() == STAGE_COUNT
    &&& forall|s: int|
        0 <= s < STAGE_COUNT ==> #[trigger] table[s]@.len() == glyph_set(s).len()
    &&& forall|s: int, j: int|
        0 <= s < STAGE_COUNT && 0 <= j < glyph_set(s).len() ==> #[trigger] table[s]@[j].cell()
            == glyph_set(s)[j]
}

/// Every cell of every glyph set is within reach of its drop's position.
pub proof fn lemma_glyph_sets_in_reach(s: int, j: int)
    requires
        0 <= s < STAGE_COUNT,
        0 <= j < glyph_set(s).len(),
    ensures
        cell_in_reach(glyph_set(s)[j]),
{
}

/// What advancing does to a drop's stage and position.
pub broadcast proof fn lemma_advanced(d: Raindrop)
    ensures
        #[trigger] d.advanced().stage() == if d.stage() + 1 < STAGE_COUNT {
            d.stage() + 1
        } else {
            STAGE_COUNT as nat
        },
        d.advanced().col() == d.col(),
        d.advanced().row() == d.row(),
{
}

/// A drop of rain: a position on the screen and an animation stage.
#[derive(Debug, Clone, Copy)]
pub struct Raindrop {
    state: usize,
    coord: Coordinate,
}

impl Raindrop {
    /// The drop's animation stage.
    pub closed spec fn stage(&self) -> nat {
        self.state as nat
    }

    /// The drop's column.
    pub closed spec fn col(&self) -> nat {
        self.coord.x as nat
    }

    /// The drop's row.
    pub closed spec fn row(&self) -> nat {
        self.coord.y as nat
    }

    /// The drop one frame later: the stage moves on by one and stops at
    /// `STAGE_COUNT`; the position stays.
    pub closed spec fn advanced(&self) -> Raindrop {
        Raindrop {
            state: if self.state < STAGE_COUNT {
                (self.state + 1) as usize
            } else {
                STAGE_COUNT
            },
            coord: Coordinate { x: self.coord.x, y: self.coord.y },
        }
    }

    /// The drop has gone through every glyph set.
    pub open spec fn finished(&self) -> bool {
        self.stage() >= STAGE_COUNT
    }

    /// Every glyph of every stage of the drop lands on a valid position.
    pub open spec fn inside_margin(&self) -> bool {
        &&& MARGIN <= self.col() <= u16::MAX - MARGIN
        &&& MARGIN <= self.row() <= u16::MAX - MARGIN
    }

    /// The text that draws the drop at its current stage.
    pub open spec fn rendering(&self) -> Seq<char> {
        render_cells(self.col() as int, self.row() as int, glyph_set(self.stage() as int))
    }

    /// A new drop at column `x`, row `y`, at the first stage.
    pub fn new(x: u16, y: u16) -> (r: Raindrop)
        ensures
            r.stage() == 0,
            r.col() == x,
            r.row() == y,
    {
        Raindrop { state: 0, coord: Coordinate { x, y } }
    }

    /// Appends to `screen` the text that draws the drop at its current stage.
    pub fn draw(&self, screen: &mut String)
        requires
            !self.finished(),
            self.inside_margin(),
        ensures
            final(screen)@ == old(screen)@ + self.rendering(),
    {
        let table = Raindrop::states();
        self.draw_with(&table, screen);
    }

    /// `draw`, with the glyph table built once by the caller.
    pub(crate) fn draw_with(&self, table: &Vec<Vec<Drawchar>>, screen: &mut String)
        requires
            is_glyph_table(table@),
            !self.finished(),
            self.inside_margin(),
        ensures
            final(screen)@ == old(screen)@ + self.rendering(),
    {
        let set = &table[self.state];
        let ghost cells = glyph_set(self.stage() as int);
        let ghost col = self.col() as int;
        let ghost row = self.row() as int;
        let mut i: usize = 0;
        while i < set.len()
            invariant
                is_glyph_table(table@),
                !self.finished(),
                self.inside_margin(),
                set@ == table@[self.stage() as int]@,
                cells == glyph_set(self.stage() as int),
                set@.len() == cells.len(),
                col == self.col(),
                row == self.row(),
                0 <= i <= set.len(),
                screen@ == old(screen)@ + render_cells(col, row, cells.take(i as int)),
            decreases set.len() - i,
        {
            let dc = &set[i];
            proof {
                lemma_glyph_sets_in_reach(self.stage() as int, i as int);
                assert(dc.cell() == cells[i as int]);
            }
            let nx = (self.coord.x as i32 + dc.coord.x as i32) as u16;
            let ny = (self.coord.y as i32 + dc.coord.y as i32) as u16;
            let g = goto(nx, ny);
            screen.append(g.as_str());
            screen.append(dc.glyph);
            proof {
                assert(cells.take(i + 1).drop_last() =~= cells.take(i as int));
                assert(cells.take(i + 1).last() == cells[i as int]);
                assert(screen@ =~= old(screen)@ + render_cells(col, row, cells.take(i + 1)));
            }
            i = i + 1;
        }
        proof {
            assert(cells.take(i as int) =~= cells);
        }
    }

    /// Moves the drop on to its next stage, stopping at `STAGE_COUNT`.
    pub fn increment(&mut self)
        ensures
            *final(self) == old(self).advanced(),
    {
        self.state = if self.state < STAGE_COUNT {
            self.state + 1
        } else {
            STAGE_COUNT
        };
    }

    /// Whether the drop has gone through every glyph set.
    pub fn is_done(&self) -> (r: bool)
        ensures
            r == self.finished(),
    {
        self.state >= STAGE_COUNT
    }

    /// The glyph table: one glyph set per stage.
    pub(crate) fn states() -> (r: Vec<Vec<Drawchar>>)
        ensures
            is_glyph_table(r@),
    {
        let r = vec![
            vec![Drawchar::new(0, 0, ".")],
            vec![Drawchar::new(0, 0, "o")],
            vec![Drawchar::new(0, 0, "O")],
            vec![
                Drawchar::new(0, -1, "-"),
                Drawchar::new(-1, 0, "|"),
                Drawchar::new(0, 0, "."),
                Drawchar::new(1, 0, "|"),
                Drawchar::new(0, 1, "-"),
            ],
            vec![
                Drawchar::new(0, -2, "-"),
                Drawchar::new(-1, -1, "/"),
                Drawchar::new(1, -1, "\\"),
                Drawchar::new(-2, 0, "|"),
                Drawchar::new(0, 0, "O"),
                Drawchar::new(2, 0, "|"),
                Drawchar::new(-1, 1, "\\"),
                Drawchar::new(1, 1, "/"),
                Drawchar::new(0, 2, "-"),
            ],
        ];
        proof {
            assert forall|s: int, j: int|
                0 <= s < STAGE_COUNT && 0 <= j < glyph_set(s).len() implies #[trigger] r@[s]@[j].cell()
                == glyph_set(s)[j] by {
                if s == 0 {
                } else if s == 1 {
                } else if s == 2 {
                } else if s == 3 {
                } else {
                }
            }
        }
        r
    }
}

} // verus!
