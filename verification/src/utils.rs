use vstd::prelude::*;

verus! {

/// Packed colour of a cell that holds no matter.
pub const EMPTY_COLOR: u32 = 0x0;

/// The four channels of a packed colour, most significant byte first.
pub open spec fn spec_u32_rgba_to_u8_rgba(num: u32) -> Seq<u8> {
    seq![
        (num / 0x100_0000) as u8,
        ((num / 0x1_0000) % 0x100) as u8,
        ((num / 0x100) % 0x100) as u8,
        (num % 0x100) as u8,
    ]
}

/// The packed colour whose channels are `r`, `g`, `b` and `a`, most
/// significant byte first.
pub open spec fn spec_u8_rgba_to_u32_rgba(r: u8, g: u8, b: u8, a: u8) -> u32 {
    (r * 0x100_0000 + g * 0x1_0000 + b * 0x100 + a) as u32
}

/// A position on the canvas grid, or off it: the cursor may leave the canvas.
#[derive(Debug, Copy, Clone, Eq, PartialEq, Structural)]
pub struct GridPos {
    pub x: i32,
    pub y: i32,
}

impl GridPos {
    pub fn new(x: i32, y: i32) -> (res: GridPos)
        ensures
            res == (GridPos { x, y }),
    {
        GridPos { x, y }
    }
}

/// In a buffer that holds a canvas row after row, a cell inside the canvas
/// has its place inside the buffer.
pub proof fn lemma_index_in_range(width: int, height: int, x: int, y: int)
    requires
        0 <= x < width,
        0 <= y < height,
    ensures
        0 <= y * width <= y * width + x < width * height,
{
    assert(0 <= y * width && (y + 1) * width <= height * width) by (nonlinear_arith)
        requires
            0 <= y < height,
            0 < width,
    ;
    assert((y + 1) * width == y * width + width) by (nonlinear_arith);
    assert(height * width == width * height) by (nonlinear_arith);
}

/// Splits a packed colour into its four channels.
pub fn u32_rgba_to_u8_rgba(num: u32) -> (res: [u8; 4])
    ensures
        res@ == spec_u32_rgba_to_u8_rgba(num),
{
    let a: u32 = num & 255;
    let b: u32 = (num >> 8) & 255;
    let g: u32 = (num >> 16) & 255;
    let r: u32 = (num >> 24) & 255;
    assert(num & 255 == num % 0x100) by (bit_vector);
    assert((num >> 8) & 255 == (num / 0x100) % 0x100) by (bit_vector);
    assert((num >> 16) & 255 == (num / 0x1_0000) % 0x100) by (bit_vector);
    assert((num >> 24) & 255 == num / 0x100_0000) by (bit_vector);
    let res: [u8; 4] = [r as u8, g as u8, b as u8, a as u8];
    assert(res@ =~= spec_u32_rgba_to_u8_rgba(num));
    res
}

/// Packs four channels into one colour.
pub fn u8_rgba_to_u32_rgba(r: u8, g: u8, b: u8, a: u8) -> (res: u32)
    ensures
        res == spec_u8_rgba_to_u32_rgba(r, g, b, a),
{
    assert(((r as u32) << 24) | ((g as u32) << 16) | ((b as u32) << 8) | (a as u32 & 255)
        == (r as u32) * 0x100_0000 + (g as u32) * 0x1_0000 + (b as u32) * 0x100 + (a as u32))
        by (bit_vector);
    ((r as u32) << 24) | ((g as u32) << 16) | ((b as u32) << 8) | (a as u32 & 255)
}

/// The cells that Bresenham's line algorithm, as the `line_drawing` crate
/// runs it, visits on the way from `(x0, y0)` to `(x1, y1)`, in order.
pub uninterp spec fn bresenham_points(x0: int, y0: int, x1: int, y1: int) -> Seq<(int, int)>;

/// A line of grid positions as pairs of integers.
pub open spec fn points_of(line: Seq<GridPos>) -> Seq<(int, int)> {
    line.map_values(|p: GridPos| (p.x as int, p.y as int))
}

/// The larger of the two distances between `a` and `b` along the axes: the
/// number of steps of a line from one to the other.
pub open spec fn steps_between(a: GridPos, b: GridPos) -> int {
    let dx = if a.x <= b.x {
        b.x - a.x
    } else {
        a.x - b.x
    };
    let dy = if a.y <= b.y {
        b.y - a.y
    } else {
        a.y - b.y
    };
    if dx >= dy {
        dx
    } else {
        dy
    }
}

/// `b` is `a` or one of the eight cells around it.
pub open spec fn touching(a: GridPos, b: GridPos) -> bool {
    -1 <= b.x - a.x <= 1 && -1 <= b.y - a.y <= 1
}

/// `p` lies in the smallest upright box that holds `a` and `b`.
pub open spec fn between(a: GridPos, b: GridPos, p: GridPos) -> bool {
    &&& a.x <= p.x <= b.x || b.x <= p.x <= a.x
    &&& a.y <= p.y <= b.y || b.y <= p.y <= a.y
}

/// Where a traced line starts: at the previous position, or, where there is
/// none, at the current one.
pub open spec fn line_start(prev: Option<GridPos>, current: GridPos) -> GridPos {
    match prev {
        Some(prev) => prev,
        None => current,
    }
}

/// Calls `line_drawing::Bresenham::new` and collects what it yields.
///
/// Believed of that iterator, from its source: it yields the same cells
/// for the same end points; it walks the longer axis one cell at a time, so
/// that it yields one cell more than the end points are apart along that
/// axis, and from one cell to the next neither coordinate changes by more
/// than one; the first cell is `start` and the last is `end`, and no cell
/// lies outside the box that the two span. The coordinates are widened to
/// 64 bits for the call, so that no difference of two of them overflows;
/// by the last fact each cell fits 32 bits again.
#[verifier::external_body]
fn bresenham(start: GridPos, end: GridPos) -> (line: Vec<GridPos>)
    ensures
        points_of(line@) == bresenham_points(
            start.x as int,
            start.y as int,
            end.x as int,
            end.y as int,
        ),
        line@.len() == steps_between(start, end) + 1,
        line@[0] == start,
        line@[line@.len() - 1] == end,
        forall|i: int| 0 <= i < line@.len() - 1 ==> touching(#[trigger] line@[i], line@[i + 1]),
        forall|i: int| 0 <= i < line@.len() ==> between(start, end, #[trigger] line@[i]),
{
    line_drawing::Bresenham::new((start.x as i64, start.y as i64), (end.x as i64, end.y as i64))
        .map(|(x, y)| GridPos::new(x as i32, y as i32))
        .collect()
}

/// Traces the line of grid cells from the previous cursor position to the
/// current one, both included, so that a fast stroke leaves no gap. With no
/// previous position the line is the current cell alone.
pub fn get_canvas_line(prev: Option<GridPos>, current: GridPos) -> (line: Vec<GridPos>)
    ensures
        points_of(line@) == bresenham_points(
            line_start(prev, current).x as int,
            line_start(prev, current).y as int,
            current.x as int,
            current.y as int,
        ),
        line@.len() == steps_between(line_start(prev, current), current) + 1,
        line@[0] == line_start(prev, current),
        line@[line@.len() - 1] == current,
        forall|i: int| 0 <= i < line@.len() - 1 ==> touching(#[trigger] line@[i], line@[i + 1]),
        forall|i: int|
            0 <= i < line@.len() ==> between(line_start(prev, current), current, #[trigger] line@[i]),
        prev is None || prev == Some(current) ==> line@ == seq![current],
{
    let start: GridPos = match prev {
        Some(prev) => prev,
        None => current,
    };
    let line: Vec<GridPos> = bresenham(start, current);
    proof {
        if start == current {
            assert(line@ =~= seq![current]);
        }
    }
    line
}

} // verus!
