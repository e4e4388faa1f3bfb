use vstd::arithmetic::div_mod::{lemma_fundamental_div_mod, lemma_fundamental_div_mod_converse};
use vstd::prelude::*;

use crate::utils::{lemma_index_in_range, GridPos};

verus! {

/// Square of the Euclidean distance between the cell `(x, y)` and `center`.
pub open spec fn dist_sq(center: GridPos, x: int, y: int) -> int {
    (x - center.x) * (x - center.x) + (y - center.y) * (y - center.y)
}

/// `k` is the square root of `dist_sq` rounded to the nearest integer: the
/// root is at least `k - 1/2` and below `k + 1/2`. (The root of an integer
/// is never half way between two integers.)
pub open spec fn is_rounded_root(dist_sq: int, k: int) -> bool {
    &&& 0 <= k
    &&& 4 * dist_sq < (2 * k + 1) * (2 * k + 1)
    &&& k > 0 ==> (2 * k - 1) * (2 * k - 1) <= 4 * dist_sq
}

/// Whether a brush of the given radius, held at `center`, covers the cell
/// `(x, y)`: the distance between them, rounded to the nearest integer, is at
/// most the radius. Said without the root: the distance is below
/// `radius + 1/2`, whose square is `radius * radius + radius + 1/4`.
/// A negative radius covers nothing.
pub open spec fn in_brush(center: GridPos, radius: int, x: int, y: int) -> bool {
    radius >= 0 && dist_sq(center, x, y) <= radius * radius + radius
}

/// Whether the brush covers the cell `(x, y)` at some point of the stroke.
pub open spec fn brushed(line: Seq<GridPos>, radius: int, x: int, y: int) -> bool {
    exists|k: int| 0 <= k < line.len() && in_brush(#[trigger] line[k], radius, x, y)
}

/// A buffer of rows of `width` cells after a stroke: each cell that the
/// brush covered at some point of `line` holds `value`, every other cell
/// is as it was.
pub open spec fn stamped(
    cells: Seq<u32>,
    width: nat,
    line: Seq<GridPos>,
    radius: int,
    value: u32,
) -> Seq<u32> {
    Seq::new(
        cells.len(),
        |i: int|
            if brushed(line, radius, i % (width as int), i / (width as int)) {
                value
            } else {
                cells[i]
            },
    )
}

/// Whether a scan over the box `[x_lo, x_hi) x [y_lo, ..)`, row after row,
/// that now stands at `(x, y)`, has passed cell `i` of the buffer.
spec fn scanned(i: int, width: int, x_lo: int, x_hi: int, y_lo: int, y: int, x: int) -> bool {
    ||| y_lo <= i / width < y && x_lo <= i % width < x_hi
    ||| i / width == y && x_lo <= i % width < x
}

/// The buffer while one disk is being stamped: the cells that the scan has
/// passed and the brush covers hold `value`, the others are as before.
spec fn partly_stamped(
    before: Seq<u32>,
    now: Seq<u32>,
    width: int,
    center: GridPos,
    radius: int,
    value: u32,
    x_lo: int,
    x_hi: int,
    y_lo: int,
    y: int,
    x: int,
) -> bool {
    &&& now.len() == before.len()
    &&& forall|i: int|
        0 <= i < before.len() ==> #[trigger] now[i] == if scanned(i, width, x_lo, x_hi, y_lo, y, x)
            && in_brush(center, radius, i % width, i / width) {
            value
        } else {
            before[i]
        }
}

/// A cell that the brush covers lies in the square of side `2 * radius + 1`
/// around the centre.
pub proof fn lemma_in_brush_within_square(center: GridPos, radius: int, x: int, y: int)
    requires
        in_brush(center, radius, x, y),
    ensures
        center.x - radius <= x <= center.x + radius,
        center.y - radius <= y <= center.y + radius,
{
    let dx = x - center.x;
    let dy = y - center.y;
    assert(-radius <= dx <= radius && -radius <= dy <= radius) by (nonlinear_arith)
        requires
            radius >= 0,
            dx * dx + dy * dy <= radius * radius + radius,
    ;
}

/// Stamps one disk: every cell of the canvas that a brush of the given
/// radius covers when held at `center` is set to `value`. Cells of the disk
/// that fall off the canvas are passed over.
pub fn draw_disk(
    cells: &mut [u32],
    width: u32,
    height: u32,
    center: GridPos,
    radius: i32,
    value: u32,
)
    requires
        old(cells)@.len() == width * height,
    ensures
        final(cells)@ == stamped(old(cells)@, width as nat, seq![center], radius as int, value),
{
    let ghost before = cells@;
    let ghost w = width as int;
    let len: usize = cells.len();
    if radius < 0 || width == 0 || height == 0 {
        assert(cells@ =~= stamped(before, width as nat, seq![center], radius as int, value)) by {
            if width == 0 || height == 0 {
                assert(width * height == 0) by (nonlinear_arith)
                    requires
                        width == 0 || height == 0,
                ;
            }
        }
        return ;
    }
    let r: i64 = radius as i64;
    let cx: i64 = center.x as i64;
    let cy: i64 = center.y as i64;
    let x_lo: i64 = if cx - r > 0 { cx - r } else { 0 };
    let x_hi: i64 = if cx + r + 1 < width as i64 { cx + r + 1 } else { width as i64 };
    let y_lo: i64 = if cy - r > 0 { cy - r } else { 0 };
    let y_hi: i64 = if cy + r + 1 < height as i64 { cy + r + 1 } else { height as i64 };
    assert(0 <= r * r <= 0x3fff_ffff_0000_0001) by (nonlinear_arith)
        requires
            0 <= r <= 0x7fff_ffff,
    ;
    let limit: i64 = r * r + r;
    let mut y: i64 = y_lo;
    while y < y_hi
        invariant
            cells@.len() == before.len() == width * height,
            width * height == len,
            w == width,
            w > 0,
            0 <= r <= 0x7fff_ffff,
            0 <= r * r <= 0x3fff_ffff_0000_0001,
            limit == r * r + r,
            r == radius,
            cx == center.x,
            cy == center.y,
            0 <= x_lo,
            cx - r <= x_lo,
            x_hi <= cx + r + 1,
            x_hi <= width,
            0 <= y_lo <= y,
            cy - r <= y_lo,
            y_hi <= cy + r + 1,
            y_hi <= height,
            partly_stamped(before, cells@, w, center, r as int, value, x_lo as int, x_hi as int, y_lo as int, y as int, x_lo as int),
        decreases y_hi - y,
    {
        let dy: i64 = y - cy;
        assert(0 <= dy * dy <= r * r) by (nonlinear_arith)
            requires
                -r <= dy <= r,
        ;
        let mut x: i64 = x_lo;
        while x < x_hi
            invariant
                cells@.len() == before.len() == width * height,
                width * height == len,
                w == width,
                w > 0,
                0 <= r <= 0x7fff_ffff,
                0 <= r * r <= 0x3fff_ffff_0000_0001,
                limit == r * r + r,
                r == radius,
                cx == center.x,
                cy == center.y,
                dy == y - cy,
                0 <= dy * dy <= r * r,
                0 <= x_lo <= x,
                x <= x_hi || x == x_lo,
                cx - r <= x_lo,
                x_hi <= cx + r + 1,
                x_hi <= width,
                0 <= y < height,
                partly_stamped(before, cells@, w, center, r as int, value, x_lo as int, x_hi as int, y_lo as int, y as int, x as int),
            decreases x_hi - x,
        {
            let dx: i64 = x - cx;
            assert(0 <= dx * dx <= r * r) by (nonlinear_arith)
                requires
                    -r <= dx <= r,
            ;
            let ghost prev = cells@;
            let ghost offset = y * w + x;
            proof {
                lemma_index_in_range(w, height as int, x as int, y as int);
                lemma_fundamental_div_mod_converse(offset, w, y as int, x as int);
            }
            if dx * dx + dy * dy <= limit {
                let idx: usize = (y as usize) * (width as usize) + (x as usize);
                cells[idx] = value;
            }
            proof {
                assert forall|i: int| 0 <= i < before.len() implies #[trigger] cells@[i] == if scanned(
                    i,
                    w,
                    x_lo as int,
                    x_hi as int,
                    y_lo as int,
                    y as int,
                    x + 1,
                ) && in_brush(center, r as int, i % w, i / w) {
                    value
                } else {
                    before[i]
                } by {
                    lemma_fundamental_div_mod(i, w);
                    assert(w * (i / w) == (i / w) * w) by (nonlinear_arith);
                    if i != offset {
                        assert(cells@[i] == prev[i]);
                        assert(!(i / w == y && i % w == x));
                    }
                }
            }
            x += 1;
        }
        y += 1;
    }
    proof {
        assert forall|i: int| 0 <= i < before.len() implies #[trigger] cells@[i] == stamped(
            before,
            width as nat,
            seq![center],
            radius as int,
            value,
        )[i] by {
            let px = i % w;
            let py = i / w;
            lemma_fundamental_div_mod(i, w);
            assert(0 <= py < height) by (nonlinear_arith)
                requires
                    0 <= i < w * height,
                    i == w * py + px,
                    0 <= px < w,
            ;
            if in_brush(center, radius as int, px, py) {
                lemma_in_brush_within_square(center, radius as int, px, py);
                assert(seq![center][0] == center);
                assert(brushed(seq![center], radius as int, px, py));
            }
        }
        assert(cells@ =~= stamped(before, width as nat, seq![center], radius as int, value));
    }
}

/// Stamping the first `k` points of a stroke and then the disk at point `k`
/// is stamping the first `k + 1` points.
proof fn lemma_stamped_step(
    cells: Seq<u32>,
    width: nat,
    line: Seq<GridPos>,
    k: int,
    radius: int,
    value: u32,
)
    requires
        0 <= k < line.len(),
    ensures
        stamped(stamped(cells, width, line.take(k), radius, value), width, seq![line[k]], radius, value)
            == stamped(cells, width, line.take(k + 1), radius, value),
{
    let w = width as int;
    let head = stamped(cells, width, line.take(k), radius, value);
    let both = stamped(head, width, seq![line[k]], radius, value);
    let whole = stamped(cells, width, line.take(k + 1), radius, value);
    assert forall|i: int| 0 <= i < cells.len() implies both[i] == whole[i] by {
        let x = i % w;
        let y = i / w;
        if brushed(line.take(k + 1), radius, x, y) {
            let j = choose|j: int|
                0 <= j < line.take(k + 1).len() && in_brush(
                    #[trigger] line.take(k + 1)[j],
                    radius,
                    x,
                    y,
                );
            if j < k {
                assert(line.take(k)[j] == line[j]);
                assert(brushed(line.take(k), radius, x, y));
            } else {
                assert(seq![line[k]][0] == line[k]);
                assert(brushed(seq![line[k]], radius, x, y));
            }
        }
        if brushed(line.take(k), radius, x, y) {
            let j = choose|j: int|
                0 <= j < line.take(k).len() && in_brush(#[trigger] line.take(k)[j], radius, x, y);
            assert(line.take(k + 1)[j] == line[j]);
            assert(brushed(line.take(k + 1), radius, x, y));
        }
        if brushed(seq![line[k]], radius, x, y) {
            assert(line.take(k + 1)[k] == line[k]);
            assert(brushed(line.take(k + 1), radius, x, y));
        }
    }
    assert(both =~= whole);
}

/// Paints a stroke: at every point of `line`, in turn, the disk of the given
/// radius is stamped with `value`. What was in a covered cell is
/// overwritten without being looked at; cells off the canvas are passed
/// over, whether or not the point itself is on the canvas.
pub fn draw_line(
    cells: &mut [u32],
    width: u32,
    height: u32,
    line: &[GridPos],
    radius: i32,
    value: u32,
)
    requires
        old(cells)@.len() == width * height,
    ensures
        final(cells)@ == stamped(old(cells)@, width as nat, line@, radius as int, value),
{
    let ghost before = cells@;
    assert(cells@ =~= stamped(before, width as nat, line@.take(0), radius as int, value));
    for k in 0..line.len()
        invariant
            cells@.len() == width * height,
            cells@ == stamped(before, width as nat, line@.take(k as int), radius as int, value),
    {
        draw_disk(cells, width, height, line[k], radius, value);
        proof {
            lemma_stamped_step(before, width as nat, line@, k as int, radius as int, value);
        }
    }
    assert(line@.take(line@.len() as int) =~= line@);
}

/// The brush's edge is set by rounding the distance, not the radius: a
/// cell is covered exactly if the distance from the centre, rounded to the
/// nearest integer `k`, is at most the radius.
pub proof fn lemma_in_brush_rounds(center: GridPos, radius: int, x: int, y: int, k: int)
    requires
        is_rounded_root(dist_sq(center, x, y), k),
    ensures
        in_brush(center, radius, x, y) <==> k <= radius,
{
    let d = dist_sq(center, x, y);
    if k <= radius {
        assert((2 * k + 1) * (2 * k + 1) <= (2 * radius + 1) * (2 * radius + 1))
            by (nonlinear_arith)
            requires
                0 <= k <= radius,
        ;
        assert((2 * radius + 1) * (2 * radius + 1) == 4 * (radius * radius + radius) + 1)
            by (nonlinear_arith);
    } else if radius >= 0 {
        assert((2 * radius + 1) * (2 * radius + 1) <= (2 * k - 1) * (2 * k - 1))
            by (nonlinear_arith)
            requires
                0 <= radius < k,
        ;
        assert((2 * radius + 1) * (2 * radius + 1) == 4 * (radius * radius + radius) + 1)
            by (nonlinear_arith);
    }
}

/// Every distance rounds to one integer and no other.
pub proof fn lemma_rounded_root_unique(dist_sq: int, k: int, m: int)
    requires
        is_rounded_root(dist_sq, k),
        is_rounded_root(dist_sq, m),
    ensures
        k == m,
{
    if k < m {
        assert((2 * k + 1) * (2 * k + 1) <= (2 * m - 1) * (2 * m - 1)) by (nonlinear_arith)
            requires
                0 <= k < m,
        ;
    } else if m < k {
        assert((2 * m + 1) * (2 * m + 1) <= (2 * k - 1) * (2 * k - 1)) by (nonlinear_arith)
            requires
                0 <= m < k,
        ;
    }
}

/// Every distance rounds to some integer.
pub proof fn lemma_rounded_root_exists(dist_sq: int) -> (k: int)
    requires
        0 <= dist_sq,
    ensures
        is_rounded_root(dist_sq, k),
    decreases dist_sq,
{
    if dist_sq == 0 {
        let k = 0int;
        assert((2 * k + 1) * (2 * k + 1) == 1) by (nonlinear_arith)
            requires
                k == 0,
        ;
        k
    } else {
        let below = lemma_rounded_root_exists(dist_sq - 1);
        if 4 * dist_sq < (2 * below + 1) * (2 * below + 1) {
            below
        } else {
            // 4 * dist_sq - 4 < (2 * below + 1)^2 <= 4 * dist_sq, and the
            // square is odd: it is 4 * dist_sq - 3, so that below + 1 fits.
            assert((2 * below + 1) * (2 * below + 1) == 4 * (below * below + below) + 1)
                by (nonlinear_arith);
            let k = below + 1;
            assert((2 * k + 1) * (2 * k + 1) == 4 * (below * below + below) + 8 * below + 9)
                by (nonlinear_arith)
                requires
                    k == below + 1,
            ;
            assert((2 * k - 1) * (2 * k - 1) == 4 * (below * below + below) + 1)
                by (nonlinear_arith)
                requires
                    k == below + 1,
            ;
            k
        }
    }
}

/// A brush of radius zero covers the cell under it and no other.
pub proof fn lemma_in_brush_radius_zero(center: GridPos, x: int, y: int)
    ensures
        in_brush(center, 0, x, y) <==> x == center.x && y == center.y,
{
    let dx = x - center.x;
    let dy = y - center.y;
    assert(dx * dx + dy * dy <= 0 <==> dx == 0 && dy == 0) by (nonlinear_arith);
}

/// What a stroke leaves in the cell `(x, y)` of a canvas of `width` by
/// `height` cells: `value` if the brush covered the cell at some point of
/// the stroke, and what was there if it did not.
pub proof fn lemma_stamped_at(
    cells: Seq<u32>,
    width: nat,
    height: nat,
    line: Seq<GridPos>,
    radius: int,
    value: u32,
    x: int,
    y: int,
)
    requires
        cells.len() == width * height,
        0 <= x < width,
        0 <= y < height,
    ensures
        0 <= y * width + x < cells.len(),
        stamped(cells, width, line, radius, value)[y * width + x] == if brushed(line, radius, x, y) {
            value
        } else {
            cells[y * width + x]
        },
{
    lemma_index_in_range(width as int, height as int, x, y);
    lemma_fundamental_div_mod_converse(y * width + x, width as int, y, x);
}

} // verus!
