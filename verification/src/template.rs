//! Rendering a grid and parsing the text again gives the grid back.

use crate::grid::{
    cell_or_nop, hex_cells, is_side_for, layout, lemma_hex_cells_grow, lemma_row_start,
    lemma_side_for, lex, lex_from, lex_step, parse, render, render_cells, render_row,
    render_rows, row_len, row_start, side_for, spaces, template, Cell, GridModel, LexState,
};
use crate::op::{lemma_char_decode, Op};
use vstd::prelude::*;

verus! {

/// The cells of `rows` in reading order: row by row, each from left to
/// right.
pub open spec fn cells_of(rows: Seq<Seq<Cell>>) -> Seq<Cell>
    decreases rows.len(),
{
    if rows.len() == 0 {
        Seq::empty()
    } else {
        cells_of(rows.drop_last()) + rows.last()
    }
}

/// Whether every instruction among `cells` is well formed.
pub open spec fn all_wf(cells: Seq<Cell>) -> bool {
    forall|k: int| 0 <= k < cells.len() ==> (#[trigger] cells[k]).0.wf()
}

/// Scanning two texts one after the other is scanning their concatenation.
pub proof fn lemma_lex_concat(st: LexState, a: Seq<char>, b: Seq<char>)
    ensures
        lex_from(st, a + b) == lex_from(lex_from(st, a), b),
    decreases b.len(),
{
    if b.len() == 0 {
        assert(a + b =~= a);
    } else {
        assert((a + b).drop_last() =~= a + b.drop_last());
        lemma_lex_concat(st, a, b.drop_last());
    }
}

proof fn lemma_lex_one(st: LexState, c: char)
    ensures
        lex_from(st, seq![c]) == lex_step(st, c),
{
    let one = seq![c];
    assert(one.drop_last() =~= Seq::<char>::empty());
    assert(lex_from(st, one.drop_last()) == st);
}

proof fn lemma_lex_spaces(st: LexState, n: int)
    requires
        n >= 0,
    ensures
        lex_from(st, spaces(n)) == st,
    decreases n,
{
    if n > 0 {
        assert(spaces(n).drop_last() =~= spaces(n - 1));
        lemma_lex_spaces(st, n - 1);
    }
}

proof fn lemma_lex_cells_text(st: LexState, cells: Seq<Cell>)
    requires
        st.bad is None,
        !st.debug,
        all_wf(cells),
    ensures
        lex_from(st, render_cells(cells)) == (LexState {
            cells: st.cells + cells,
            debug: false,
            bad: None,
        }),
    decreases cells.len(),
{
    if cells.len() == 0 {
        assert(st.cells + cells =~= st.cells);
    } else {
        let front = cells.drop_last();
        let (op, debug) = cells.last();
        let pair = seq![crate::grid::flag_char(debug), crate::op::op_char(op)];
        lemma_lex_cells_text(st, front);
        lemma_lex_concat(st, render_cells(front), pair);
        let mid = lex_from(st, render_cells(front));
        assert(pair.drop_last() =~= seq![crate::grid::flag_char(debug)]);
        lemma_lex_one(mid, crate::grid::flag_char(debug));
        lemma_char_decode(op);
        assert((st.cells + front).push((op, debug)) =~= st.cells + cells);
    }
}

proof fn lemma_lex_row_text(st: LexState, side: int, row: Seq<Cell>)
    requires
        st.bad is None,
        !st.debug,
        all_wf(row),
        row.len() <= 2 * side - 1,
    ensures
        lex_from(st, render_row(side, row)) == (LexState {
            cells: st.cells + row,
            debug: false,
            bad: None,
        }),
{
    let pad = spaces(2 * side - 1 - row.len());
    let text = render_cells(row);
    let feed = seq!['\n'];
    lemma_lex_concat(st, pad + text, feed);
    lemma_lex_concat(st, pad, text);
    lemma_lex_spaces(st, 2 * side - 1 - row.len());
    lemma_lex_cells_text(st, row);
    lemma_lex_one(lex_from(st, pad + text), '\n');
}

proof fn lemma_lex_rows_text(st: LexState, side: int, rows: Seq<Seq<Cell>>)
    requires
        st.bad is None,
        !st.debug,
        forall|i: int| 0 <= i < rows.len() ==> all_wf(#[trigger] rows[i]),
        forall|i: int| 0 <= i < rows.len() ==> (#[trigger] rows[i]).len() <= 2 * side - 1,
    ensures
        lex_from(st, render_rows(side, rows)) == (LexState {
            cells: st.cells + cells_of(rows),
            debug: false,
            bad: None,
        }),
    decreases rows.len(),
{
    if rows.len() == 0 {
        assert(st.cells + cells_of(rows) =~= st.cells);
    } else {
        let front = rows.drop_last();
        assert forall|i: int| 0 <= i < front.len() implies all_wf(#[trigger] front[i]) by {
            assert(front[i] == rows[i]);
        }
        assert forall|i: int| 0 <= i < front.len() implies (#[trigger] front[i]).len() <= 2 * side
            - 1 by {
            assert(front[i] == rows[i]);
        }
        lemma_lex_rows_text(st, side, front);
        lemma_lex_concat(st, render_rows(side, front), render_row(side, rows.last()));
        let mid = lex_from(st, render_rows(side, front));
        assert(all_wf(rows[rows.len() - 1]));
        lemma_lex_row_text(mid, side, rows.last());
        assert((st.cells + cells_of(front)) + rows.last() =~= st.cells + cells_of(rows));
    }
}

proof fn lemma_cells_of(g: GridModel, upto: int)
    requires
        g.wf(),
        0 <= upto <= g.rows.len(),
    ensures
        cells_of(g.rows.take(upto)).len() == row_start(g.side as int, upto),
        forall|i: int, j: int|
            0 <= i < upto && 0 <= j < row_len(g.side as int, i) ==> cells_of(g.rows.take(upto))[
                row_start(g.side as int, i) + j
            ] == #[trigger] g.rows[i][j],
    decreases upto,
{
    let side = g.side as int;
    if upto > 0 {
        let rows = g.rows.take(upto);
        assert(rows.drop_last() =~= g.rows.take(upto - 1));
        assert(rows.last() == g.rows[upto - 1]);
        lemma_cells_of(g, upto - 1);
        lemma_row_start(side, upto - 1);
        let front = cells_of(g.rows.take(upto - 1));
        assert forall|i: int, j: int| 0 <= i < upto && 0 <= j < row_len(side, i) implies cells_of(
            rows,
        )[row_start(side, i) + j] == #[trigger] g.rows[i][j] by {
            if i < upto - 1 {
                lemma_row_start(side, i);
                lemma_row_start_monotone(side, i + 1, upto - 1);
                assert(row_start(side, i + 1) == row_start(side, i) + row_len(side, i));
                assert(front[row_start(side, i) + j] == g.rows[i][j]);
            }
        }
    }
}

proof fn lemma_row_start_monotone(side: int, a: int, b: int)
    requires
        side >= 1,
        0 <= a <= b <= 2 * side - 1,
    ensures
        row_start(side, a) <= row_start(side, b),
    decreases b - a,
{
    if a < b {
        lemma_row_start_monotone(side, a, b - 1);
    }
}

/// Parsing the text of a grid gives the grid back, whatever well-formed
/// instructions and debug flags it holds.
pub proof fn lemma_parse_render(g: GridModel)
    requires
        g.wf(),
    ensures
        parse(render(g)) == Ok::<GridModel, char>(g),
{
    let side = g.side as int;
    let start = LexState { cells: Seq::empty(), debug: false, bad: None };
    assert forall|i: int| 0 <= i < g.rows.len() implies all_wf(#[trigger] g.rows[i]) by {
        assert forall|k: int| 0 <= k < g.rows[i].len() implies (#[trigger] g.rows[i][k]).0.wf() by {}
    }
    lemma_lex_rows_text(start, side, g.rows);
    let cells = cells_of(g.rows);
    assert(start.cells + cells =~= cells);
    assert(g.rows.take(g.rows.len() as int) =~= g.rows);
    lemma_cells_of(g, g.rows.len() as int);
    lemma_row_start(side, 0);
    if side > 1 {
        lemma_hex_cells_grow(side - 1, side);
    }
    lemma_side_for(cells.len(), side);
    let back = layout(cells, g.side);
    assert forall|i: int| 0 <= i < g.rows.len() implies #[trigger] back.rows[i] =~= g.rows[i] by {
        lemma_row_start(side, i);
        lemma_row_start(side, i + 1);
        assert(row_start(side, i + 1) == row_start(side, i) + row_len(side, i));
        assert forall|j: int| 0 <= j < row_len(side, i) implies back.rows[i][j] == g.rows[i][j] by {
            assert(g.rows[i][j] == cells[row_start(side, i) + j]);
        }
    }
    assert(back.rows =~= g.rows);
}

/// Parsing the template of side length `side >= 1` gives the empty grid of
/// that side length, and rendering that grid gives the template again.
pub proof fn lemma_template_round_trip(side: nat)
    requires
        side >= 1,
    ensures
        parse(template(side)) == Ok::<GridModel, char>(GridModel::empty(side)),
        render(GridModel::empty(side)) == template(side),
{
    lemma_parse_render(GridModel::empty(side));
}

} // verus!
