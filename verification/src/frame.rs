//! Glyphs and the text of a frame.
//!
//! A frame is written row by row, from the top. A row is its cells from left
//! to right, one character each, and a line feed.

use vstd::prelude::*;

verus! {

/// The character that shows a cell: `#` where the ray met the scene, `.`
/// where it did not.
pub open spec fn glyph(hit: bool) -> char {
    if hit {
        '#'
    } else {
        '.'
    }
}

/// The characters that a frame's text is made of: the two glyphs and the
/// line feed.
pub open spec fn in_alphabet(c: char) -> bool {
    c == glyph(true) || c == glyph(false) || c == '\n'
}

/// How many cells a side of the grid has. A side that is not positive has none.
pub open spec fn extent(side: i32) -> nat {
    if side > 0 {
        side as nat
    } else {
        0
    }
}

/// Place in a frame's text of the character in column `col` of row `row`,
/// where a row has `cols` cells. Column `cols` is the row's line feed.
pub open spec fn cell_at(cols: nat, col: int, row: int) -> int {
    row * (cols + 1) + col
}

/// `c` shows what `hit` answers for the cell in column `col` of row `row`.
pub open spec fn shows<F: Fn(i32, i32) -> bool>(c: char, hit: &F, col: i32, row: i32) -> bool {
    ||| c == glyph(true) && call_ensures(*hit, (col, row), true)
    ||| c == glyph(false) && call_ensures(*hit, (col, row), false)
}

/// Text of one cell, for the outcome of its ray.
pub fn ray_hit(hit: bool) -> (mark: &'static str)
    ensures
        mark@ == seq![glyph(hit)],
{
    proof {
        reveal_strlit("#");
        reveal_strlit(".");
    }
    let mark = if hit {
        "#"
    } else {
        "."
    };
    assert(mark@ =~= seq![glyph(hit)]);
    mark
}

/// Text of row `row` of a grid `width` cells wide: for each column from the
/// left, the glyph of what `hit` answers for that cell, then a line feed.
/// `hit` is asked once for each cell, in that order.
pub fn draw_row<F>(width: i32, row: i32, hit: &F) -> (line: String) where F: Fn(i32, i32) -> bool
    requires
        forall|col: i32| 0 <= col < width ==> call_requires(*hit, (col, row)),
    ensures
        line@.len() == extent(width) + 1,
        line@[extent(width) as int] == '\n',
        forall|col: i32| 0 <= col < width ==> shows(#[trigger] line@[col as int], hit, col, row),
        forall|k: int| 0 <= k < line@.len() ==> in_alphabet(#[trigger] line@[k]),
{
    let mut line = String::new();
    let mut col: i32 = 0;
    while col < width
        invariant
            0 <= col <= extent(width),
            line@.len() == col,
            forall|c: i32| 0 <= c < width ==> call_requires(*hit, (c, row)),
            forall|c: i32| 0 <= c < col ==> shows(#[trigger] line@[c as int], hit, c, row),
            forall|k: int| 0 <= k < line@.len() ==> in_alphabet(#[trigger] line@[k]),
        decreases width - col,
    {
        let answer = hit(col, row);
        let mark = ray_hit(answer);
        line.append(mark);
        col = col + 1;
    }
    proof {
        reveal_strlit("\n");
    }
    line.append("\n");
    line
}

/// A cell of a grid with `rows` rows lies inside the text of those rows, and
/// past the text of the rows above its own.
proof fn lemma_cell_in_text(cols: nat, col: int, row: int, rows: int)
    requires
        0 <= col <= cols,
        0 <= row < rows,
    ensures
        row * (cols + 1) <= cell_at(cols, col, row) < (row + 1) * (cols + 1),
        (row + 1) * (cols + 1) <= rows * (cols + 1),
        (row + 1) * (cols + 1) == row * (cols + 1) + cols + 1,
{
    assert((row + 1) * (cols + 1) == row * (cols + 1) + cols + 1) by (nonlinear_arith);
    assert((row + 1) * (cols + 1) <= rows * (cols + 1)) by (nonlinear_arith)
        requires
            row + 1 <= rows,
            cols + 1 > 0,
    ;
}

/// Text of a frame `width` cells wide and `height` cells high: its rows from
/// the top, each as `draw_row` writes it. `hit` is asked once for each cell,
/// row by row and in each row from the left. A grid without rows has no text;
/// one without columns has a line feed for each row.
pub fn draw_frame<F>(width: i32, height: i32, hit: F) -> (frame: String) where
    F: Fn(i32, i32) -> bool,

    requires
        forall|col: i32, row: i32|
            0 <= col < width && 0 <= row < height ==> call_requires(hit, (col, row)),
    ensures
        frame@.len() == extent(height) * (extent(width) + 1),
        forall|row: i32|
            0 <= row < height ==> frame@[#[trigger] cell_at(
                extent(width),
                extent(width) as int,
                row as int,
            )] == '\n',
        forall|col: i32, row: i32|
            0 <= col < width && 0 <= row < height ==> shows(
                frame@[#[trigger] cell_at(extent(width), col as int, row as int)],
                &hit,
                col,
                row,
            ),
        forall|k: int| 0 <= k < frame@.len() ==> in_alphabet(#[trigger] frame@[k]),
{
    let ghost cols = extent(width);
    let mut frame = String::new();
    let mut row: i32 = 0;
    while row < height
        invariant
            cols == extent(width),
            0 <= row <= extent(height),
            frame@.len() == row * (cols + 1),
            forall|c: i32, r: i32|
                0 <= c < width && 0 <= r < height ==> call_requires(hit, (c, r)),
            forall|r: i32|
                0 <= r < row ==> frame@[#[trigger] cell_at(cols, cols as int, r as int)] == '\n',
            forall|c: i32, r: i32|
                0 <= c < width && 0 <= r < row ==> shows(
                    frame@[#[trigger] cell_at(cols, c as int, r as int)],
                    &hit,
                    c,
                    r,
                ),
            forall|k: int| 0 <= k < frame@.len() ==> in_alphabet(#[trigger] frame@[k]),
        decreases height - row,
    {
        let ghost above = frame@;
        let line = draw_row(width, row, &hit);
        frame.append(line.as_str());
        proof {
            lemma_cell_in_text(cols, 0, row as int, row + 1);
            assert forall|r: i32| 0 <= r < row + 1 implies frame@[#[trigger] cell_at(
                cols,
                cols as int,
                r as int,
            )] == '\n' by {
                lemma_cell_in_text(cols, cols as int, r as int, row + 1);
                if r < row {
                    lemma_cell_in_text(cols, cols as int, r as int, row as int);
                    assert(frame@[cell_at(cols, cols as int, r as int)] == above[cell_at(
                        cols,
                        cols as int,
                        r as int,
                    )]);
                } else {
                    assert(frame@[cell_at(cols, cols as int, r as int)] == line@[cols as int]);
                }
            }
            assert forall|c: i32, r: i32| 0 <= c < width && 0 <= r < row + 1 implies shows(
                frame@[#[trigger] cell_at(cols, c as int, r as int)],
                &hit,
                c,
                r,
            ) by {
                lemma_cell_in_text(cols, c as int, r as int, row + 1);
                if r < row {
                    lemma_cell_in_text(cols, c as int, r as int, row as int);
                    assert(frame@[cell_at(cols, c as int, r as int)] == above[cell_at(
                        cols,
                        c as int,
                        r as int,
                    )]);
                } else {
                    assert(frame@[cell_at(cols, c as int, r as int)] == line@[c as int]);
                }
            }
        }
        row = row + 1;
    }
    frame
}

} // verus!
