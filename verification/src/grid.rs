//! The source grid: a regular hexagon of instructions, addressed by axial
//! coordinates whose origin is the centre cell.

use crate::coords::{cube_radius, PointAxial};
use crate::op::{decode, is_space, is_whitespace, lemma_decode_char, op_char, Op};
use crate::text::string_of;
use crate::Error;
use vstd::prelude::*;

verus! {

/// What one cell of the grid holds: an instruction and its debug flag.
pub type Cell = (Op, bool);

/// Number of cells of a regular hexagon with the given side length.
pub open spec fn hex_cells(side: int) -> int {
    3 * side * (side - 1) + 1
}

/// Number of cells in row `row` of a hexagon with side length `side`; rows
/// are counted from the top, starting at 0.
pub open spec fn row_len(side: int, row: int) -> int {
    if row < side {
        side + row
    } else {
        3 * side - 2 - row
    }
}

/// Number of cells in the rows above row `row`.
pub open spec fn row_start(side: int, row: int) -> int
    decreases row,
{
    if row <= 0 {
        0
    } else {
        row_start(side, row - 1) + row_len(side, row - 1)
    }
}

/// Whether the axial point `p` lies inside a hexagon with side length
/// `side`: each of its three cube components is smaller in magnitude than
/// `side`.
pub open spec fn in_bounds(p: (int, int), side: int) -> bool {
    &&& -side < p.0 < side
    &&& -side < p.1 < side
    &&& -side < p.0 + p.1 < side
}

/// A point lies inside the hexagon exactly if the largest magnitude among
/// its cube components is smaller than the side length.
pub proof fn lemma_in_bounds_radius(p: (int, int), side: int)
    ensures
        in_bounds(p, side) <==> cube_radius(p) < side,
{
}

/// Row and column of the axial point `p` in a hexagon with side length
/// `side`.
pub open spec fn cell_index(p: (int, int), side: int) -> (int, int) {
    let row = p.1 + side - 1;
    let col = p.0 + if row < side - 1 {
        row
    } else {
        side - 1
    };
    (row, col)
}

/// A point inside the hexagon names a cell of it.
pub proof fn lemma_cell_index_in_shape(p: (int, int), side: int)
    requires
        in_bounds(p, side),
    ensures
        0 <= cell_index(p, side).0 < 2 * side - 1,
        0 <= cell_index(p, side).1 < row_len(side, cell_index(p, side).0),
{
}

/// Mathematical model of a grid: its side length and its rows of cells, top
/// row first.
pub struct GridModel {
    pub side: nat,
    pub rows: Seq<Seq<Cell>>,
}

impl GridModel {
    /// Whether the rows have the shape of a regular hexagon with side
    /// length `side >= 1`, and every instruction is well formed.
    pub open spec fn wf(self) -> bool {
        &&& self.side >= 1
        &&& self.rows.len() == 2 * self.side - 1
        &&& forall|i: int|
            0 <= i < self.rows.len() ==> (#[trigger] self.rows[i]).len() == row_len(
                self.side as int,
                i,
            )
        &&& forall|i: int, j: int|
            0 <= i < self.rows.len() && 0 <= j < self.rows[i].len() ==> (#[trigger] self.rows[i][j]).0.wf()
    }

    /// The cell at the axial point `p`.
    pub open spec fn at(self, p: (int, int)) -> Cell
        recommends
            self.wf(),
            in_bounds(p, self.side as int),
    {
        let (row, col) = cell_index(p, self.side as int);
        self.rows[row][col]
    }

    /// The grid of side length `side` whose cells are all no-ops without a
    /// debug flag.
    pub open spec fn empty(side: nat) -> GridModel {
        GridModel {
            side,
            rows: Seq::new(
                (2 * side - 1) as nat,
                |i: int| Seq::new(row_len(side as int, i) as nat, |j: int| (Op::Nop, false)),
            ),
        }
    }
}

/// Whether `side` is the side length of the smallest hexagon with room for
/// `n` instructions.
pub open spec fn is_side_for(side: int, n: int) -> bool {
    &&& side >= 1
    &&& hex_cells(side) >= n
    &&& side > 1 ==> hex_cells(side - 1) < n
}

/// The first side length from `side` upwards whose hexagon has room for `n`
/// instructions.
pub open spec fn side_from(n: nat, side: nat) -> nat
    decreases shortfall(n, side),
    when side >= 1
{
    if hex_cells(side as int) >= n {
        side
    } else {
        proof {
            lemma_hex_cells_grow(side as int, side as int + 1);
        }
        side_from(n, side + 1)
    }
}

/// How many of `n` instructions find no room in a hexagon of side length
/// `side`.
pub open spec fn shortfall(n: nat, side: nat) -> nat {
    if hex_cells(side as int) >= n {
        0
    } else {
        (n - hex_cells(side as int)) as nat
    }
}

/// The side length of the smallest hexagon with room for `n` instructions.
pub open spec fn side_for(n: nat) -> nat {
    side_from(n, 1)
}

/// A hexagon with a longer side has more cells.
pub proof fn lemma_hex_cells_grow(a: int, b: int)
    requires
        1 <= a <= b,
    ensures
        hex_cells(a) <= hex_cells(b),
        a < b ==> hex_cells(a) < hex_cells(b),
        hex_cells(a) >= a,
{
    assert(3 * a * (a - 1) <= 3 * b * (b - 1)) by (nonlinear_arith)
        requires
            1 <= a <= b,
    ;
    assert(a < b ==> 3 * a * (a - 1) < 3 * b * (b - 1)) by (nonlinear_arith)
        requires
            1 <= a <= b,
    ;
    assert(3 * a * (a - 1) + 1 >= a) by (nonlinear_arith)
        requires
            1 <= a,
    ;
}

proof fn lemma_side_from(n: nat, side: nat)
    requires
        side >= 1,
        side > 1 ==> hex_cells(side - 1) < n,
    ensures
        is_side_for(side_from(n, side) as int, n as int),
    decreases shortfall(n, side),
{
    if hex_cells(side as int) < n {
        lemma_hex_cells_grow(side as int, side as int + 1);
        lemma_side_from(n, side + 1);
    }
}

/// [`side_for`] yields the side length of the smallest hexagon with room
/// for `n` instructions, and no other side length is that.
pub proof fn lemma_side_for(n: nat, side: int)
    ensures
        is_side_for(side_for(n) as int, n as int),
        is_side_for(side, n as int) ==> side == side_for(n),
{
    lemma_side_from(n, 1);
    let best = side_for(n) as int;
    if is_side_for(side, n as int) {
        if side < best {
            lemma_hex_cells_grow(side, best - 1);
        } else if best < side {
            lemma_hex_cells_grow(best, side - 1);
        }
    }
}

/// What the scan of a source text has found so far: the instructions with
/// their debug flags, whether a backtick waits for its instruction, and the
/// first character that is no instruction, if one was met.
pub struct LexState {
    pub cells: Seq<Cell>,
    pub debug: bool,
    pub bad: Option<char>,
}

/// The scan after it has read `c` in state `st`.  White space is skipped, a
/// backtick flags the next instruction, and nothing is read past a character
/// that is no instruction.
pub open spec fn lex_step(st: LexState, c: char) -> LexState {
    if st.bad is Some || is_space(c) {
        st
    } else if c == '`' {
        LexState { debug: true, ..st }
    } else {
        match decode(c) {
            Some(op) => LexState { cells: st.cells.push((op, st.debug)), debug: false, bad: None },
            None => LexState { bad: Some(c), ..st },
        }
    }
}

/// The scan after it has read `src` from left to right, starting in state
/// `st`.
pub open spec fn lex_from(st: LexState, src: Seq<char>) -> LexState
    decreases src.len(),
{
    if src.len() == 0 {
        st
    } else {
        lex_step(lex_from(st, src.drop_last()), src.last())
    }
}

/// The scan of a whole source text.
pub open spec fn lex(src: Seq<char>) -> LexState {
    lex_from(LexState { cells: Seq::empty(), debug: false, bad: None }, src)
}

/// Number of characters of `src` that are neither white space nor a
/// backtick.
pub open spec fn instruction_count(src: Seq<char>) -> nat
    decreases src.len(),
{
    if src.len() == 0 {
        0
    } else {
        instruction_count(src.drop_last()) + if is_space(src.last()) || src.last() == '`' {
            0nat
        } else {
            1nat
        }
    }
}

/// The `k`-th of `cells`, or a no-op without a debug flag past their end.
pub open spec fn cell_or_nop(cells: Seq<Cell>, k: int) -> Cell {
    if 0 <= k < cells.len() {
        cells[k]
    } else {
        (Op::Nop, false)
    }
}

/// The grid of side length `side` filled row by row with `cells`, and with
/// no-ops where they run out.
pub open spec fn layout(cells: Seq<Cell>, side: nat) -> GridModel {
    GridModel {
        side,
        rows: Seq::new(
            (2 * side - 1) as nat,
            |i: int|
                Seq::new(
                    row_len(side as int, i) as nat,
                    |j: int| cell_or_nop(cells, row_start(side as int, i) + j),
                ),
        ),
    }
}

/// The grid that source text `src` describes, or the first character of it
/// that is no instruction.
pub open spec fn parse(src: Seq<char>) -> Result<GridModel, char> {
    let st = lex(src);
    match st.bad {
        Some(c) => Err(c),
        None => Ok(layout(st.cells, side_for(st.cells.len()))),
    }
}

/// Once the scan has met a character that is no instruction, reading on
/// changes nothing.
pub proof fn lemma_lex_stops(src: Seq<char>, i: int)
    requires
        0 <= i <= src.len(),
        lex(src.take(i)).bad is Some,
    ensures
        lex(src) == lex(src.take(i)),
    decreases src.len() - i,
{
    if i == src.len() {
        assert(src.take(i) =~= src);
    } else {
        assert(src.take(i + 1).drop_last() =~= src.take(i));
        lemma_lex_stops(src, i + 1);
    }
}

/// The scan finds well-formed instructions only; where it met nothing but
/// instructions, white space and backticks, it found as many instructions as
/// the text has characters that are neither white space nor backtick.
pub proof fn lemma_lex_cells(src: Seq<char>)
    ensures
        forall|k: int| 0 <= k < lex(src).cells.len() ==> (#[trigger] lex(src).cells[k]).0.wf(),
        lex(src).bad is None ==> lex(src).cells.len() == instruction_count(src),
    decreases src.len(),
{
    if src.len() > 0 {
        lemma_lex_cells(src.drop_last());
        if decode(src.last()) is Some {
            lemma_decode_char(src.last());
        }
    }
}

/// A text that parses gives a regular hexagon of well-formed instructions,
/// whose side length is the smallest with room for the instructions of the
/// text.
pub proof fn lemma_parse(src: Seq<char>)
    ensures
        parse(src) matches Ok(g) ==> g.wf() && is_side_for(
            g.side as int,
            instruction_count(src) as int,
        ),
{
    lemma_lex_cells(src);
    let cells = lex(src).cells;
    lemma_side_for(cells.len(), 1);
    let g = layout(cells, side_for(cells.len()));
    assert forall|i: int, j: int|
        0 <= i < g.rows.len() && 0 <= j < g.rows[i].len() implies (#[trigger] g.rows[i][j]).0.wf() by {
        let k = row_start(g.side as int, i) + j;
        if 0 <= k < cells.len() {
            assert(cells[k].0.wf());
        }
    }
}

/// The rows above row `row` hold no more cells than the whole hexagon, and
/// all rows together hold exactly its cells.
pub proof fn lemma_row_start(side: int, row: int)
    requires
        side >= 1,
        0 <= row <= 2 * side - 1,
    ensures
        row <= side ==> 2 * row_start(side, row) == row * (2 * side + row - 1),
        row >= side ==> row_start(side, row) == hex_cells(side) - row_start(
            side,
            2 * side - 1 - row,
        ),
        0 <= row_start(side, row) <= hex_cells(side),
        row_start(side, 2 * side - 1) == hex_cells(side),
{
    assert(side * (3 * side - 1) <= 2 * (3 * side * (side - 1) + 1)) by (nonlinear_arith)
        requires
            side >= 1,
    ;
    if row <= side {
        lemma_row_start_low(side, row);
    }
    if row >= side {
        lemma_row_start_low(side, 2 * side - 1 - row);
        lemma_row_start_high(side, row);
    }
    lemma_row_start_high(side, 2 * side - 1);
}

proof fn lemma_row_start_low(side: int, row: int)
    requires
        side >= 1,
        0 <= row <= side,
    ensures
        2 * row_start(side, row) == row * (2 * side + row - 1),
        0 <= row_start(side, row),
        2 * row_start(side, row) <= side * (3 * side - 1),
    decreases row,
{
    if row > 0 {
        lemma_row_start_low(side, row - 1);
        assert(row_start(side, row) == row_start(side, row - 1) + row_len(side, row - 1));
        assert(row * (2 * side + row - 1) == (row - 1) * (2 * side + (row - 1) - 1) + 2 * (side
            + row - 1)) by (nonlinear_arith);
    } else {
        assert(row * (2 * side + row - 1) == 0) by (nonlinear_arith)
            requires
                row == 0,
        ;
    }
    assert(row * (2 * side + row - 1) <= side * (3 * side - 1)) by (nonlinear_arith)
        requires
            0 <= row <= side,
    ;
    assert(0 <= row * (2 * side + row - 1)) by (nonlinear_arith)
        requires
            0 <= row <= side,
            side >= 1,
    ;
}

proof fn lemma_row_start_high(side: int, row: int)
    requires
        side >= 1,
        side <= row <= 2 * side - 1,
    ensures
        row_start(side, row) + row_start(side, 2 * side - 1 - row) == hex_cells(side),
    decreases row,
{
    let back = 2 * side - 1 - row;
    if row == side {
        lemma_row_start_low(side, side);
        lemma_row_start_low(side, side - 1);
        assert(side * (3 * side - 1) + (side - 1) * (3 * side - 2) == 2 * (3 * side * (side - 1)
            + 1)) by (nonlinear_arith);
    } else {
        lemma_row_start_high(side, row - 1);
        assert(row_start(side, back + 1) == row_start(side, back) + row_len(side, back));
    }
}

/// The character that stands before an instruction in rendered text: a
/// backtick where the cell carries a debug flag, a space where it does not.
pub open spec fn flag_char(debug: bool) -> char {
    if debug {
        '`'
    } else {
        ' '
    }
}

/// The text of a run of cells: for each cell its flag character, then the
/// character of its instruction.
pub open spec fn render_cells(cells: Seq<Cell>) -> Seq<char>
    decreases cells.len(),
{
    if cells.len() == 0 {
        Seq::empty()
    } else {
        render_cells(cells.drop_last()) + seq![
            flag_char(cells.last().1),
            op_char(cells.last().0),
        ]
    }
}

/// `n` spaces.
pub open spec fn spaces(n: int) -> Seq<char> {
    Seq::new(n as nat, |i: int| ' ')
}

/// The line of text for one row of a grid of side length `side`: spaces
/// that make up for what the row lacks of the longest row, the cells, and a
/// line feed.
pub open spec fn render_row(side: int, row: Seq<Cell>) -> Seq<char> {
    spaces(2 * side - 1 - row.len()) + render_cells(row) + seq!['\n']
}

/// The lines of text for `rows`, top row first.
pub open spec fn render_rows(side: int, rows: Seq<Seq<Cell>>) -> Seq<char>
    decreases rows.len(),
{
    if rows.len() == 0 {
        Seq::empty()
    } else {
        render_rows(side, rows.drop_last()) + render_row(side, rows.last())
    }
}

/// The text of a grid.
pub open spec fn render(g: GridModel) -> Seq<char> {
    render_rows(g.side as int, g.rows)
}

/// The text of an empty grid of side length `side`; no text for side
/// length 0.
pub open spec fn template(side: nat) -> Seq<char> {
    if side == 0 {
        Seq::empty()
    } else {
        render(GridModel::empty(side))
    }
}

/// A pointy-topped hexagonal grid of instructions.
pub struct Grid {
    size: usize,
    grid: Vec<Vec<Cell>>,
}

impl View for Grid {
    type V = GridModel;

    closed spec fn view(&self) -> GridModel {
        GridModel {
            side: self.size as nat,
            rows: Seq::new(self.grid@.len(), |i: int| self.grid@[i]@),
        }
    }
}

/// Whether a grid of side length `size` can be held: its diameter, and the
/// coordinates of its cells, fit the machine's integers.
pub open spec fn side_fits(size: int) -> bool {
    1 <= size && 2 * size <= isize::MAX
}

fn blank_row(len: usize) -> (row: Vec<Cell>)
    ensures
        row@ == Seq::new(len as nat, |j: int| (Op::Nop, false)),
{
    let mut row: Vec<Cell> = Vec::new();
    let mut j: usize = 0;
    while j < len
        invariant
            j <= len,
            row@ == Seq::new(j as nat, |k: int| (Op::Nop, false)),
        decreases len - j,
    {
        row.push((Op::Nop, false));
        j = j + 1;
        assert(row@ =~= Seq::new(j as nat, |k: int| (Op::Nop, false)));
    }
    row
}

/// The side length of the smallest hexagon with room for `n` instructions.
pub fn side_length(n: usize) -> (side: usize)
    ensures
        side == side_for(n as nat),
        is_side_for(side as int, n as int),
        side_fits(side as int),
{
    let mut side: usize = 1;
    let mut room: u128 = 1;
    while room < n as u128
        invariant
            1 <= side <= usize::MAX,
            room == hex_cells(side as int),
            side > 1 ==> hex_cells(side - 1) < n,
        decreases n - side,
    {
        proof {
            lemma_hex_cells_grow(side as int, side as int);
            assert(hex_cells(side + 1) == hex_cells(side as int) + 6 * side) by (nonlinear_arith);
        }
        room = room + 6 * (side as u128);
        side = side + 1;
    }
    proof {
        lemma_side_for(n as nat, side as int);
        if side >= 4 {
            assert(4 * side <= 3 * (side - 1) * (side - 1 - 1)) by (nonlinear_arith)
                requires
                    side >= 4,
            ;
        }
    }
    side
}

impl Grid {
    /// Whether the grid is a regular hexagon of well-formed instructions
    /// whose side length the machine can hold.
    pub closed spec fn wf(&self) -> bool {
        self@.wf() && side_fits(self.size as int)
    }

    /// What [`Grid::wf`] says of the model and of the side length.
    pub proof fn lemma_wf(&self)
        requires
            self.wf(),
        ensures
            self@.wf(),
            side_fits(self@.side as int),
    {
    }

    /// Creates an empty `Grid` of the given side length.
    pub fn new(size: usize) -> (g: Grid)
        requires
            side_fits(size as int),
        ensures
            g.wf(),
            g@ == GridModel::empty(size as nat),
    {
        let diameter = 2 * size - 1;
        let s = size - 1;
        let mut grid: Vec<Vec<Cell>> = Vec::new();
        let mut i: usize = 0;
        while i < diameter
            invariant
                i <= diameter,
                diameter == 2 * size - 1,
                s == size - 1,
                side_fits(size as int),
                grid@.len() == i,
                forall|k: int|
                    0 <= k < i ==> (#[trigger] grid@[k])@ == Seq::new(
                        row_len(size as int, k) as nat,
                        |j: int| (Op::Nop, false),
                    ),
            decreases diameter - i,
        {
            let b = if s > i {
                s - i
            } else {
                i - s
            };
            grid.push(blank_row(diameter - b));
            i = i + 1;
        }
        let g = Grid { size, grid };
        assert(g@.rows =~= GridModel::empty(size as nat).rows);
        g
    }

    /// Parses source text into the smallest grid that holds its
    /// instructions, filled row by row and padded with no-ops.  White space
    /// is ignored and a backtick flags the instruction after it.  The first
    /// character that is none of these is reported as a syntax error.
    pub fn from_str(s: &str) -> (res: Result<Grid, Error>)
        ensures
            match parse(s@) {
                Ok(model) => res matches Ok(g) && g.wf() && g@ == model,
                Err(c) => res matches Err(Error::SyntaxError(bad)) && bad == c,
            },
            res matches Ok(g) ==> is_side_for(g@.side as int, instruction_count(s@) as int),
    {
        let mut cells: Vec<Cell> = Vec::new();
        let mut debug = false;
        for c in it: s.chars()
            invariant
                it.seq() == s@,
                lex(s@.take(it.index() as int)) == (LexState {
                    cells: cells@,
                    debug,
                    bad: None,
                }),
        {
            assert(s@.take(it.index() + 1).drop_last() =~= s@.take(it.index() as int));
            if is_whitespace(c) {
            } else if c == '`' {
                debug = true;
            } else {
                match Op::from_char(c) {
                    Some(op) => {
                        cells.push((op, debug));
                        debug = false;
                    },
                    None => {
                        proof {
                            lemma_lex_stops(s@, it.index() + 1);
                        }
                        return Err(Error::SyntaxError(c));
                    },
                }
            }
        }
        proof {
            assert(s@.take(s@.len() as int) =~= s@);
            lemma_lex_cells(s@);
        }
        Ok(Grid::filled(&cells))
    }

    /// Lays `cells` out in the smallest grid that holds them.
    fn filled(cells: &Vec<Cell>) -> (g: Grid)
        requires
            forall|k: int| 0 <= k < cells@.len() ==> (#[trigger] cells@[k]).0.wf(),
        ensures
            g.wf(),
            g@ == layout(cells@, side_for(cells@.len())),
            is_side_for(g@.side as int, cells@.len() as int),
    {
        let n = cells.len();
        let size = side_length(n);
        let diameter = 2 * size - 1;
        let s = size - 1;
        let mut grid: Vec<Vec<Cell>> = Vec::new();
        let mut next: usize = 0;
        let mut i: usize = 0;
        while i < diameter
            invariant
                i <= diameter,
                diameter == 2 * size - 1,
                s == size - 1,
                side_fits(size as int),
                n == cells@.len(),
                grid@.len() == i,
                next <= n,
                next == if row_start(size as int, i as int) < n {
                    row_start(size as int, i as int)
                } else {
                    n as int
                },
                forall|k: int|
                    0 <= k < i ==> (#[trigger] grid@[k])@ == Seq::new(
                        row_len(size as int, k) as nat,
                        |j: int| cell_or_nop(cells@, row_start(size as int, k) + j),
                    ),
            decreases diameter - i,
        {
            let b = if s > i {
                s - i
            } else {
                i - s
            };
            let len = diameter - b;
            let ghost start = row_start(size as int, i as int);
            proof {
                lemma_row_start(size as int, i as int);
                assert(row_start(size as int, i + 1) == start + row_len(size as int, i as int));
            }
            let mut row: Vec<Cell> = Vec::new();
            let mut j: usize = 0;
            while j < len
                invariant
                    j <= len,
                    len == row_len(size as int, i as int),
                    n == cells@.len(),
                    0 <= start,
                    next <= n,
                    next == if start + j < n {
                        start + j
                    } else {
                        n as int
                    },
                    row@ == Seq::new(j as nat, |k: int| cell_or_nop(cells@, start + k)),
                decreases len - j,
            {
                let cell = if next < n {
                    let cell = cells[next];
                    next = next + 1;
                    cell
                } else {
                    (Op::Nop, false)
                };
                row.push(cell);
                j = j + 1;
                assert(row@ =~= Seq::new(j as nat, |k: int| cell_or_nop(cells@, start + k)));
            }
            grid.push(row);
            i = i + 1;
        }
        let g = Grid { size, grid };
        proof {
            let model = layout(cells@, size as nat);
            assert(g@.rows =~= model.rows);
            assert(g@ == model);
        }
        g
    }

    /// Renders the grid as source text, one line per row.
    pub fn to_string(&self) -> (text: String)
        requires
            self.wf(),
        ensures
            text@ == render(self@),
    {
        let mut out: Vec<char> = Vec::new();
        let rows = self.grid.len();
        let mut i: usize = 0;
        while i < rows
            invariant
                self.wf(),
                rows == self.grid@.len(),
                i <= rows,
                out@ == render_rows(self.size as int, self@.rows.take(i as int)),
            decreases rows - i,
        {
            let line = &self.grid[i];
            let ghost row = self@.rows[i as int];
            assert(row == line@);
            assert(row.len() == row_len(self.size as int, i as int));
            // Pad lines with whitespace for hex shape
            let pad = 2 * self.size - 1 - line.len();
            let ghost before = out@;
            let mut k: usize = 0;
            while k < pad
                invariant
                    k <= pad,
                    out@ == before + spaces(k as int),
                decreases pad - k,
            {
                out.push(' ');
                k = k + 1;
                assert(out@ =~= before + spaces(k as int));
            }
            let mut j: usize = 0;
            assert(row.take(0) =~= Seq::<Cell>::empty());
            assert(out@ =~= before + spaces(pad as int) + render_cells(row.take(0)));
            while j < line.len()
                invariant
                    self.wf(),
                    i < rows,
                    rows == self.grid@.len(),
                    row == self@.rows[i as int],
                    row == line@,
                    j <= line@.len(),
                    out@ == before + spaces(pad as int) + render_cells(row.take(j as int)),
                decreases line@.len() - j,
            {
                let (op, dbg) = line[j];
                assert(self@.rows[i as int][j as int].0.wf());
                out.push(if dbg {
                    '`'
                } else {
                    ' '
                });
                out.push(op.to_char());
                proof {
                    assert(row.take(j + 1).drop_last() =~= row.take(j as int));
                    assert(out@ =~= before + spaces(pad as int) + render_cells(row.take(j + 1)));
                }
                j = j + 1;
            }
            out.push('\n');
            proof {
                assert(row.take(row.len() as int) =~= row);
                assert(self@.rows.take(i + 1).drop_last() =~= self@.rows.take(i as int));
                assert(out@ =~= before + render_row(self.size as int, row));
            }
            i = i + 1;
        }
        assert(self@.rows.take(rows as int) =~= self@.rows);
        string_of(&out)
    }

    /// Returns the side length of the grid.
    pub fn size(&self) -> (s: usize)
        ensures
            s == self@.side,
    {
        self.size
    }

    /// Returns the `Op` and debug flag at the given grid coordinates.
    pub fn get(&self, coords: PointAxial) -> (cell: Cell)
        requires
            self.wf(),
            in_bounds(coords@, self@.side as int),
        ensures
            cell == self@.at(coords@),
    {
        let (row, col) = self.axial_to_index(coords);
        self.grid[row][col]
    }

    /// Converts a `PointAxial` to its corresponding internal 2D grid index.
    fn axial_to_index(&self, coords: PointAxial) -> (at: (usize, usize))
        requires
            self.wf(),
            in_bounds(coords@, self@.side as int),
        ensures
            (at.0 as int, at.1 as int) == cell_index(coords@, self@.side as int),
            at.0 < self.grid@.len(),
            at.1 < self.grid@[at.0 as int]@.len(),
    {
        let PointAxial(q, r) = coords;
        let size = self.size as isize;
        let row = r + size - 1;
        let col = q + if row < size - 1 {
            row
        } else {
            size - 1
        };
        proof {
            lemma_cell_index_in_shape(coords@, self@.side as int);
            assert(self@.rows[row as int] == self.grid@[row as int]@);
        }
        (row as usize, col as usize)
    }
}

} // verus!
