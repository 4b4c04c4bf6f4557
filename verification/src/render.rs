//! What a frame is made of: glyphs at cells, in the order they are drawn.

use crate::snake::Direction;
use crate::snake::Segment;
use vstd::prelude::*;

verus! {

pub const VERTICAL: char = '\u{2503}';

pub const HORIZONTAL: char = '\u{2501}';

/// Joins the cell above with the cell to the right.
pub const CORNER_UP_RIGHT: char = '\u{2517}';

/// Joins the cell below with the cell to the right.
pub const CORNER_DOWN_RIGHT: char = '\u{250F}';

/// Joins the cell below with the cell to the left.
pub const CORNER_DOWN_LEFT: char = '\u{2513}';

/// Joins the cell above with the cell to the left.
pub const CORNER_UP_LEFT: char = '\u{251B}';

pub const BACKGROUND: char = '+';

pub const FRUIT: char = 'o';

/// The colour of the background.
pub const GRAY: i32 = 90;

/// One glyph at one cell, in one colour.
#[derive(Clone, Copy, Debug, PartialEq, Eq, Structural)]
pub struct Glyph {
    pub x: i32,
    pub y: i32,
    pub symbol: char,
    pub color: i32,
}

/// The glyph of a segment entered while heading `from_dir` and left heading
/// `to_dir`, both by number. Straight on is a bar, a quarter turn is the
/// corner that joins the two cells, and every other pair is a flat bar.
pub open spec fn pipe_char(from_dir: int, to_dir: int) -> char {
    if (from_dir == 0 && to_dir == 0) || (from_dir == 2 && to_dir == 2) {
        VERTICAL
    } else if (from_dir == 1 && to_dir == 1) || (from_dir == 3 && to_dir == 3) {
        HORIZONTAL
    } else if (from_dir == 3 && to_dir == 0) || (from_dir == 2 && to_dir == 1) {
        CORNER_UP_RIGHT
    } else if (from_dir == 0 && to_dir == 1) || (from_dir == 3 && to_dir == 2) {
        CORNER_DOWN_RIGHT
    } else if (from_dir == 1 && to_dir == 2) || (from_dir == 0 && to_dir == 3) {
        CORNER_DOWN_LEFT
    } else if (from_dir == 2 && to_dir == 3) || (from_dir == 1 && to_dir == 0) {
        CORNER_UP_LEFT
    } else {
        HORIZONTAL
    }
}

pub fn get_pipe_char(from_dir: i32, to_dir: i32) -> (c: char)
    ensures
        c == pipe_char(from_dir as int, to_dir as int),
{
    if (from_dir == 0 && to_dir == 0) || (from_dir == 2 && to_dir == 2) {
        VERTICAL
    } else if (from_dir == 1 && to_dir == 1) || (from_dir == 3 && to_dir == 3) {
        HORIZONTAL
    } else if (from_dir == 3 && to_dir == 0) || (from_dir == 2 && to_dir == 1) {
        CORNER_UP_RIGHT
    } else if (from_dir == 0 && to_dir == 1) || (from_dir == 3 && to_dir == 2) {
        CORNER_DOWN_RIGHT
    } else if (from_dir == 1 && to_dir == 2) || (from_dir == 0 && to_dir == 3) {
        CORNER_DOWN_LEFT
    } else if (from_dir == 2 && to_dir == 3) || (from_dir == 1 && to_dir == 0) {
        CORNER_UP_LEFT
    } else {
        HORIZONTAL
    }
}

/// Whether a heading runs up or down.
pub open spec fn is_vertical(d: Direction) -> bool {
    d == Direction::Up || d == Direction::Down
}

/// Every pair of headings has a glyph: a bar along the heading where the
/// snake goes straight on, a corner where it makes a quarter turn, and the
/// flat bar for the one pair left, a turn straight back.
pub proof fn pipe_char_is_total(from: Direction, to: Direction)
    ensures
        from == to && is_vertical(from) ==> pipe_char(from.index(), to.index()) == VERTICAL,
        from == to && !is_vertical(from) ==> pipe_char(from.index(), to.index()) == HORIZONTAL,
        to == from.reversed() ==> pipe_char(from.index(), to.index()) == HORIZONTAL,
        from != to && to != from.reversed() ==> {
            let c = pipe_char(from.index(), to.index());
            c == CORNER_UP_RIGHT || c == CORNER_DOWN_RIGHT || c == CORNER_DOWN_LEFT || c
                == CORNER_UP_LEFT
        },
{
}

/// The glyph of the border cell in column `x` of the top row.
pub open spec fn top_glyph(x: int, width: int) -> char {
    if x == 0 {
        CORNER_DOWN_RIGHT
    } else if x == width - 1 {
        CORNER_DOWN_LEFT
    } else {
        HORIZONTAL
    }
}

/// The glyph of the border cell in column `x` of the bottom row.
pub open spec fn bottom_glyph(x: int, width: int) -> char {
    if x == 0 {
        CORNER_UP_RIGHT
    } else if x == width - 1 {
        CORNER_UP_LEFT
    } else {
        HORIZONTAL
    }
}

/// The top and bottom rows of the border, column by column from the left:
/// for each column the top cell, then the bottom cell.
pub open spec fn border_rows(width: int, height: int, color: i32) -> Seq<Glyph> {
    Seq::new(
        if width > 0 {
            (2 * width) as nat
        } else {
            0
        },
        |i: int|
            if i % 2 == 0 {
                Glyph { x: (i / 2) as i32, y: 0, symbol: top_glyph(i / 2, width), color }
            } else {
                Glyph {
                    x: (i / 2) as i32,
                    y: (height - 1) as i32,
                    symbol: bottom_glyph(i / 2, width),
                    color,
                }
            },
    )
}

/// The left and right columns of the border between the two rows, row by row
/// from the top: for each row the left cell, then the right cell.
pub open spec fn border_columns(width: int, height: int, color: i32) -> Seq<Glyph> {
    Seq::new(
        if height > 2 {
            (2 * (height - 2)) as nat
        } else {
            0
        },
        |i: int|
            if i % 2 == 0 {
                Glyph { x: 0, y: (1 + i / 2) as i32, symbol: VERTICAL, color }
            } else {
                Glyph { x: (width - 1) as i32, y: (1 + i / 2) as i32, symbol: VERTICAL, color }
            },
    )
}

/// The closed rectangle along the outermost ring of a `width` by `height`
/// field: the two rows first, then the two columns.
pub fn draw_border(width: i32, height: i32, color: i32) -> (out: Vec<Glyph>)
    requires
        height > i32::MIN,
        height > 2 ==> width > i32::MIN,
    ensures
        out@ == border_rows(width as int, height as int, color) + border_columns(
            width as int,
            height as int,
            color,
        ),
{
    let mut out: Vec<Glyph> = Vec::new();
    let mut x: i32 = 0;
    while x < width
        invariant
            0 <= x,
            x <= width || x == 0,
            height > i32::MIN,
            out@.len() == 2 * x,
            forall|i: int|
                0 <= i < out@.len() ==> #[trigger] out@[i] == border_rows(
                    width as int,
                    height as int,
                    color,
                )[i],
        decreases width - x,
    {
        let top: char = if x == 0 {
            CORNER_DOWN_RIGHT
        } else if x == width - 1 {
            CORNER_DOWN_LEFT
        } else {
            HORIZONTAL
        };
        let bottom: char = if x == 0 {
            CORNER_UP_RIGHT
        } else if x == width - 1 {
            CORNER_UP_LEFT
        } else {
            HORIZONTAL
        };
        out.push(Glyph { x, y: 0, symbol: top, color });
        out.push(Glyph { x, y: height - 1, symbol: bottom, color });
        x += 1;
    }
    assert(out@ =~= border_rows(width as int, height as int, color));
    let ghost rows = out@;
    let mut y: i32 = 1;
    while y < height - 1
        invariant
            1 <= y,
            y <= height - 1 || y == 1,
            height > i32::MIN,
            height > 2 ==> width > i32::MIN,
            out@.len() == rows.len() + 2 * (y - 1),
            forall|i: int| 0 <= i < rows.len() ==> #[trigger] out@[i] == rows[i],
            forall|i: int|
                0 <= i < 2 * (y - 1) ==> #[trigger] out@[rows.len() + i] == border_columns(
                    width as int,
                    height as int,
                    color,
                )[i],
        decreases height - y,
    {
        out.push(Glyph { x: 0, y, symbol: VERTICAL, color });
        out.push(Glyph { x: width - 1, y, symbol: VERTICAL, color });
        y += 1;
    }
    proof {
        let columns = border_columns(width as int, height as int, color);
        assert forall|k: int| 0 <= k < out@.len() implies out@[k] == (rows + columns)[k] by {
            if k >= rows.len() {
                assert(out@[rows.len() + (k - rows.len())] == columns[k - rows.len()]);
            }
        }
        assert(out@ =~= rows + columns);
    }
    out
}

/// Where the cell `(x, y)` stands among the interior cells of a field of the
/// given height, taken column by column from the left, each from the top.
pub open spec fn area_index(x: int, y: int, height: int) -> int {
    (x - 1) * (height - 2) + (y - 1)
}

/// How many interior cells a `width` by `height` field has.
pub open spec fn area_len(width: int, height: int) -> int {
    if width > 2 && height > 2 {
        (width - 2) * (height - 2)
    } else {
        0
    }
}

/// The background of the interior: one glyph for every cell inside the
/// border, column by column.
pub fn draw_area(width: i32, height: i32, color: i32) -> (out: Vec<Glyph>)
    requires
        width > i32::MIN,
        width > 2 ==> height > i32::MIN,
    ensures
        out@.len() == area_len(width as int, height as int),
        forall|x: int, y: int|
            1 <= x < width - 1 && 1 <= y < height - 1 ==> 0 <= #[trigger] area_index(
                x,
                y,
                height as int,
            ) < out@.len() && out@[area_index(x, y, height as int)] == (Glyph {
                x: x as i32,
                y: y as i32,
                symbol: BACKGROUND,
                color,
            }),
{
    let mut out: Vec<Glyph> = Vec::new();
    let mut x: i32 = 1;
    while x < width - 1
        invariant
            1 <= x,
            x <= width - 1 || x == 1,
            width > i32::MIN,
            width > 2 ==> height > i32::MIN,
            out@.len() == (if height > 2 {
                (x - 1) * (height - 2)
            } else {
                0
            }),
            forall|cx: int, cy: int|
                1 <= cx < x && 1 <= cy < height - 1 ==> 0 <= #[trigger] area_index(
                    cx,
                    cy,
                    height as int,
                ) < out@.len() && out@[area_index(cx, cy, height as int)] == (Glyph {
                    x: cx as i32,
                    y: cy as i32,
                    symbol: BACKGROUND,
                    color,
                }),
        decreases width - x,
    {
        let mut y: i32 = 1;
        while y < height - 1
            invariant
                1 <= y,
                y <= height - 1 || y == 1,
                1 <= x < width - 1,
                height > i32::MIN,
                out@.len() == (if height > 2 {
                    (x - 1) * (height - 2) + (y - 1)
                } else {
                    0
                }),
                forall|cx: int, cy: int|
                    ((1 <= cx < x && 1 <= cy < height - 1) || (cx == x && 1 <= cy < y)) ==> 0
                        <= #[trigger] area_index(cx, cy, height as int) < out@.len()
                        && out@[area_index(cx, cy, height as int)] == (Glyph {
                        x: cx as i32,
                        y: cy as i32,
                        symbol: BACKGROUND,
                        color,
                    }),
            decreases height - y,
        {
            out.push(Glyph { x, y, symbol: BACKGROUND, color });
            y += 1;
        }
        assert((x - 1) * (height - 2) + (height - 2) == (x + 1 - 1) * (height - 2))
            by (nonlinear_arith);
        x += 1;
    }
    out
}

/// The heading, by number, that the segment at `i` is left with: that of the
/// segment after it, or its own where it is the head.
pub open spec fn leaving(body: Seq<Segment>, i: int) -> int {
    if i + 1 < body.len() {
        body[i + 1].dir.index()
    } else {
        body[i].dir.index()
    }
}

/// The glyphs of a body, tail first.
pub open spec fn snake_glyphs(body: Seq<Segment>, color: i32) -> Seq<Glyph> {
    Seq::new(
        body.len(),
        |i: int|
            Glyph {
                x: body[i].x,
                y: body[i].y,
                symbol: pipe_char(body[i].dir.index(), leaving(body, i)),
                color,
            },
    )
}

/// Draws every segment of the body as the pipe that joins its neighbours.
pub fn draw_snake(body: &Vec<Segment>, color: i32) -> (out: Vec<Glyph>)
    ensures
        out@ == snake_glyphs(body@, color),
{
    let mut out: Vec<Glyph> = Vec::new();
    let n: usize = body.len();
    let mut i: usize = 0;
    while i < n
        invariant
            i <= n,
            n == body@.len(),
            out@.len() == i,
            forall|k: int| 0 <= k < i ==> #[trigger] out@[k] == snake_glyphs(body@, color)[k],
        decreases n - i,
    {
        let seg: Segment = body[i];
        let next: Direction = if i + 1 < n {
            body[i + 1].dir
        } else {
            seg.dir
        };
        let symbol: char = get_pipe_char(seg.dir.code(), next.code());
        out.push(Glyph { x: seg.x, y: seg.y, symbol, color });
        i += 1;
    }
    assert(out@ =~= snake_glyphs(body@, color));
    out
}

/// The glyph of a fruit at `cell`.
pub fn draw_fruit(cell: (i32, i32), color: i32) -> (g: Glyph)
    ensures
        g == (Glyph { x: cell.0, y: cell.1, symbol: FRUIT, color }),
{
    Glyph { x: cell.0, y: cell.1, symbol: FRUIT, color }
}

} // verus!
