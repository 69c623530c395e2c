//! Drawing on the RGB canvas of the spectrogram PNG: whole-canvas fills,
//! single pixels, boxes, axis-parallel lines and Bresenham lines.
use vstd::prelude::*;

use crate::analyze::{SPECTROGRAM_HEIGHT, SPECTROGRAM_WIDTH};

verus! {

/// Canvas width and height, in pixels.
pub const W: u32 = SPECTROGRAM_WIDTH;

pub const H: u32 = SPECTROGRAM_HEIGHT;

/// Bytes of a whole canvas: three (R, G, B) per pixel, row by row.
pub open spec fn canvas_len() -> int {
    W * H * 3
}

pub open spec fn in_canvas(x: int, y: int) -> bool {
    0 <= x < W && 0 <= y < H
}

/// Where pixel `(x, y)` starts in the canvas bytes.
pub open spec fn pixel_offset(x: int, y: int) -> int {
    (y * W + x) * 3
}

/// The three bytes of pixel `(x, y)`.
pub open spec fn pixel(s: Seq<u8>, x: int, y: int) -> Seq<u8> {
    s.subrange(pixel_offset(x, y), pixel_offset(x, y) + 3)
}

/// `after` is `before` with exactly the canvas pixels for which `inside` holds
/// set to `c`.
pub open spec fn painted(
    before: Seq<u8>,
    after: Seq<u8>,
    inside: spec_fn(int, int) -> bool,
    c: [u8; 3],
) -> bool {
    &&& after.len() == before.len()
    &&& forall|x: int, y: int|
        in_canvas(x, y) ==> #[trigger] pixel(after, x, y) == if inside(x, y) {
            c@
        } else {
            pixel(before, x, y)
        }
}

/// Painting `p` and then `q` paints their union.
proof fn lemma_painted_then(
    s0: Seq<u8>,
    s1: Seq<u8>,
    s2: Seq<u8>,
    p: spec_fn(int, int) -> bool,
    q: spec_fn(int, int) -> bool,
    both: spec_fn(int, int) -> bool,
    c: [u8; 3],
)
    requires
        painted(s0, s1, p, c),
        painted(s1, s2, q, c),
        forall|x: int, y: int| #[trigger] both(x, y) == (p(x, y) || q(x, y)),
    ensures
        painted(s0, s2, both, c),
{
    assert forall|x: int, y: int| in_canvas(x, y) implies #[trigger] pixel(s2, x, y) == if both(
        x,
        y,
    ) {
        c@
    } else {
        pixel(s0, x, y)
    } by {
        assert(pixel(s1, x, y) == if p(x, y) {
            c@
        } else {
            pixel(s0, x, y)
        });
        assert(both(x, y) == (p(x, y) || q(x, y)));
    }
}

/// Painting no canvas pixel leaves the canvas as it was.
proof fn lemma_painted_nothing(s: Seq<u8>, none: spec_fn(int, int) -> bool, c: [u8; 3])
    requires
        forall|x: int, y: int| in_canvas(x, y) ==> !#[trigger] none(x, y),
    ensures
        painted(s, s, none, c),
{
    assert forall|x: int, y: int| in_canvas(x, y) implies #[trigger] pixel(s, x, y) == if none(
        x,
        y,
    ) {
        c@
    } else {
        pixel(s, x, y)
    } by {
        assert(!none(x, y));
    }
}

/// Sets pixel `(x, y)` to `c`; a pixel off the canvas is ignored.
pub fn put(px: &mut [u8], x: u32, y: u32, c: [u8; 3])
    requires
        old(px)@.len() == canvas_len(),
    ensures
        painted(old(px)@, final(px)@, |a: int, b: int| a == x && b == y, c),
{
    if x >= W || y >= H {
        proof {
            lemma_painted_nothing(px@, |a: int, b: int| a == x && b == y, c);
        }
        return;
    }
    let ghost before = px@;
    let i = ((y * W + x) * 3) as usize;
    px[i] = c[0];
    px[i + 1] = c[1];
    px[i + 2] = c[2];
    assert forall|a: int, b: int| in_canvas(a, b) implies #[trigger] pixel(px@, a, b) == if a == x
        && b == y {
        c@
    } else {
        pixel(before, a, b)
    } by {
        if a == x && b == y {
            assert(pixel(px@, a, b) =~= c@);
        } else {
            assert(pixel(px@, a, b) =~= pixel(before, a, b));
        }
    }
}

/// Sets every whole pixel of `px` (each run of three bytes from the start) to
/// `c`; bytes after the last whole pixel are left alone.
pub fn fill(px: &mut [u8], c: [u8; 3])
    ensures
        final(px)@.len() == old(px)@.len(),
        forall|k: int|
            0 <= k < old(px)@.len() ==> #[trigger] final(px)@[k] == if k < old(px)@.len() - old(
                px,
            )@.len() % 3 {
                c@[k % 3]
            } else {
                old(px)@[k]
            },
        old(px)@.len() == canvas_len() ==> painted(
            old(px)@,
            final(px)@,
            |a: int, b: int| true,
            c,
        ),
{
    let ghost before = px@;
    let n = px.len();
    let mut i: usize = 0;
    while 3 <= n - i
        invariant
            n == px@.len(),
            before.len() == n,
            i % 3 == 0,
            i <= n,
            forall|k: int| 0 <= k < i ==> #[trigger] px@[k] == c@[k % 3],
            forall|k: int| i <= k < n ==> #[trigger] px@[k] == before[k],
        decreases n - i,
    {
        px[i] = c[0];
        px[i + 1] = c[1];
        px[i + 2] = c[2];
        i = i + 3;
    }
    assert(i == n - n % 3);
    proof {
        if n as int == canvas_len() {
            assert forall|a: int, b: int| in_canvas(a, b) implies #[trigger] pixel(px@, a, b)
                == c@ by {
                let o = pixel_offset(a, b);
                assert(o % 3 == 0 && o + 3 <= n);
                assert((o + 1) % 3 == 1 && (o + 2) % 3 == 2);
                assert(pixel(px@, a, b) =~= c@);
            }
        }
    }
}

/// Fills the `w` by `h` box whose top-left pixel is `(x, y)`; the parts off
/// the canvas are ignored.
pub fn rect(px: &mut [u8], x: u32, y: u32, w: u32, h: u32, c: [u8; 3])
    requires
        old(px)@.len() == canvas_len(),
        w > 0 && h > 0 ==> x + w <= 0x1_0000_0000 && y + h <= 0x1_0000_0000,
    ensures
        painted(
            old(px)@,
            final(px)@,
            |a: int, b: int| x <= a < x + w && y <= b < y + h,
            c,
        ),
{
    let ghost before = px@;
    proof {
        lemma_painted_nothing(before, |a: int, b: int| x <= a < x + w && y <= b < y + 0, c);
    }
    let mut dy: u32 = 0;
    while dy < h
        invariant
            dy <= h,
            w > 0 && h > 0 ==> x + w <= 0x1_0000_0000 && y + h <= 0x1_0000_0000,
            px@.len() == canvas_len(),
            painted(before, px@, |a: int, b: int| x <= a < x + w && y <= b < y + dy, c),
        decreases h - dy,
    {
        let mut dx: u32 = 0;
        while dx < w
            invariant
                dx <= w,
                dy < h,
                w > 0 && h > 0 ==> x + w <= 0x1_0000_0000 && y + h <= 0x1_0000_0000,
                px@.len() == canvas_len(),
                painted(
                    before,
                    px@,
                    |a: int, b: int| (x <= a < x + w && y <= b < y + dy) || (x <= a < x + dx && b
                        == y + dy),
                    c,
                ),
            decreases w - dx,
        {
            let ghost mid = px@;
            put(px, x + dx, y + dy, c);
            proof {
                lemma_painted_then(
                    before,
                    mid,
                    px@,
                    |a: int, b: int| (x <= a < x + w && y <= b < y + dy) || (x <= a < x + dx && b
                        == y + dy),
                    |a: int, b: int| a == x + dx && b == y + dy,
                    |a: int, b: int| (x <= a < x + w && y <= b < y + dy) || (x <= a < x + dx + 1
                        && b == y + dy),
                    c,
                );
            }
            dx = dx + 1;
        }
        proof {
            lemma_painted_then(
                before,
                px@,
                px@,
                |a: int, b: int| (x <= a < x + w && y <= b < y + dy) || (x <= a < x + w && b == y
                    + dy),
                |a: int, b: int| false,
                |a: int, b: int| x <= a < x + w && y <= b < y + dy + 1,
                c,
            );
        }
        dy = dy + 1;
    }
}

/// Paints the pixels from `(x0, y)` to `(x1, y)`, both ends included, in
/// either direction.
pub fn hline(px: &mut [u8], x0: u32, x1: u32, y: u32, c: [u8; 3])
    requires
        old(px)@.len() == canvas_len(),
    ensures
        painted(
            old(px)@,
            final(px)@,
            |a: int, b: int| b == y && ((x0 <= a <= x1) || (x1 <= a <= x0)),
            c,
        ),
{
    let ghost before = px@;
    let (lo, hi) = if x0 <= x1 {
        (x0, x1)
    } else {
        (x1, x0)
    };
    proof {
        lemma_painted_nothing(before, |a: int, b: int| b == y && lo <= a < lo, c);
    }
    let mut x: u32 = lo;
    while x < hi
        invariant
            lo <= x <= hi,
            px@.len() == canvas_len(),
            painted(before, px@, |a: int, b: int| b == y && lo <= a < x, c),
        decreases hi - x,
    {
        let ghost mid = px@;
        put(px, x, y, c);
        proof {
            lemma_painted_then(
                before,
                mid,
                px@,
                |a: int, b: int| b == y && lo <= a < x,
                |a: int, b: int| a == x && b == y,
                |a: int, b: int| b == y && lo <= a < x + 1,
                c,
            );
        }
        x = x + 1;
    }
    let ghost mid = px@;
    put(px, hi, y, c);
    proof {
        lemma_painted_then(
            before,
            mid,
            px@,
            |a: int, b: int| b == y && lo <= a < hi,
            |a: int, b: int| a == hi && b == y,
            |a: int, b: int| b == y && ((x0 <= a <= x1) || (x1 <= a <= x0)),
            c,
        );
    }
}

/// Paints the pixels from `(x, y0)` to `(x, y1)`, both ends included, in
/// either direction.
pub fn vline(px: &mut [u8], x: u32, y0: u32, y1: u32, c: [u8; 3])
    requires
        old(px)@.len() == canvas_len(),
    ensures
        painted(
            old(px)@,
            final(px)@,
            |a: int, b: int| a == x && ((y0 <= b <= y1) || (y1 <= b <= y0)),
            c,
        ),
{
    let ghost before = px@;
    let (lo, hi) = if y0 <= y1 {
        (y0, y1)
    } else {
        (y1, y0)
    };
    proof {
        lemma_painted_nothing(before, |a: int, b: int| a == x && lo <= b < lo, c);
    }
    let mut y: u32 = lo;
    while y < hi
        invariant
            lo <= y <= hi,
            px@.len() == canvas_len(),
            painted(before, px@, |a: int, b: int| a == x && lo <= b < y, c),
        decreases hi - y,
    {
        let ghost mid = px@;
        put(px, x, y, c);
        proof {
            lemma_painted_then(
                before,
                mid,
                px@,
                |a: int, b: int| a == x && lo <= b < y,
                |a: int, b: int| a == x && b == y,
                |a: int, b: int| a == x && lo <= b < y + 1,
                c,
            );
        }
        y = y + 1;
    }
    let ghost mid = px@;
    put(px, x, hi, c);
    proof {
        lemma_painted_then(
            before,
            mid,
            px@,
            |a: int, b: int| a == x && lo <= b < hi,
            |a: int, b: int| a == x && b == hi,
            |a: int, b: int| a == x && ((y0 <= b <= y1) || (y1 <= b <= y0)),
            c,
        );
    }
}

pub open spec fn abs_diff(a: int, b: int) -> int {
    if a <= b {
        b - a
    } else {
        a - b
    }
}

/// The unit step from `a` toward `b` (`-1` when they are equal).
pub open spec fn toward(a: int, b: int) -> int {
    if a < b {
        1
    } else {
        -1
    }
}

/// One step of Bresenham's walk from `(x, y)` with error term `err`, for
/// `dx = |x1 - x0|`, `dy = -|y1 - y0|` and unit steps `sx`, `sy`.
pub open spec fn line_step(x: int, y: int, err: int, dx: int, dy: int, sx: int, sy: int) -> (
    int,
    int,
    int,
) {
    let e2 = 2 * err;
    let x2 = if e2 >= dy {
        x + sx
    } else {
        x
    };
    let err2 = if e2 >= dy {
        err + dy
    } else {
        err
    };
    let y2 = if e2 <= dx {
        y + sy
    } else {
        y
    };
    let err3 = if e2 <= dx {
        err2 + dx
    } else {
        err2
    };
    (x2, y2, err3)
}

/// The pixels the walk plots from `(x, y)` until it reaches `(x1, y1)`, at
/// most `fuel` of them.
pub open spec fn line_walk(
    x: int,
    y: int,
    err: int,
    x1: int,
    y1: int,
    dx: int,
    dy: int,
    sx: int,
    sy: int,
    fuel: nat,
) -> Seq<(int, int)>
    decreases fuel,
{
    if fuel == 0 {
        Seq::empty()
    } else if x == x1 && y == y1 {
        seq![(x, y)]
    } else {
        let next = line_step(x, y, err, dx, dy, sx, sy);
        seq![(x, y)] + line_walk(next.0, next.1, next.2, x1, y1, dx, dy, sx, sy, (fuel - 1) as nat)
    }
}

/// The pixels a line from `(x0, y0)` to `(x1, y1)` plots, in drawing order.
pub open spec fn line_points(x0: int, y0: int, x1: int, y1: int) -> Seq<(int, int)> {
    let dx = abs_diff(x0, x1);
    let dy = -abs_diff(y0, y1);
    line_walk(x0, y0, dx + dy, x1, y1, dx, dy, toward(x0, x1), toward(y0, y1), (dx - dy + 1) as nat)
}

/// Steps still to take along x and along y from `(x, y)`.
pub open spec fn x_left(x: int, x0: int, x1: int) -> int {
    if toward(x0, x1) == 1 {
        x1 - x
    } else {
        x - x1
    }
}

pub open spec fn y_left(y: int, y0: int, y1: int) -> int {
    if toward(y0, y1) == 1 {
        y1 - y
    } else {
        y - y1
    }
}

/// What holds at every point of the walk: it has not passed the end on
/// either axis, and the error term measures the distance to the ideal line.
pub open spec fn walk_ok(x: int, y: int, err: int, x0: int, y0: int, x1: int, y1: int) -> bool {
    let dx = abs_diff(x0, x1);
    let big_dy = abs_diff(y0, y1);
    let p = x_left(x, x0, x1);
    let q = y_left(y, y0, y1);
    &&& 0 <= p <= dx
    &&& 0 <= q <= big_dy
    &&& err == big_dy * p - dx * q + dx - big_dy
    &&& -3 * big_dy <= 2 * err <= 3 * dx
}

proof fn lemma_walk_products(dx: int, big_dy: int, p: int, q: int)
    by (nonlinear_arith)
    requires
        0 <= p <= dx,
        0 <= q <= big_dy,
    ensures
        big_dy * (p - 1) == big_dy * p - big_dy,
        dx * (q - 1) == dx * q - dx,
        q >= 1 ==> dx * q >= dx,
        p >= 1 ==> big_dy * p >= big_dy,
        p == 0 ==> big_dy * p == 0,
        q == 0 ==> dx * q == 0,
        big_dy * dx == dx * big_dy,
{
}

/// A step from a point short of the end keeps `walk_ok` and gets strictly
/// closer to the end.
proof fn lemma_walk_step(x: int, y: int, err: int, x0: int, y0: int, x1: int, y1: int)
    requires
        walk_ok(x, y, err, x0, y0, x1, y1),
        !(x == x1 && y == y1),
    ensures
        ({
            let n = line_step(
                x,
                y,
                err,
                abs_diff(x0, x1),
                -abs_diff(y0, y1),
                toward(x0, x1),
                toward(y0, y1),
            );
            &&& walk_ok(n.0, n.1, n.2, x0, y0, x1, y1)
            &&& x_left(n.0, x0, x1) + y_left(n.1, y0, y1) < x_left(x, x0, x1) + y_left(y, y0, y1)
            &&& (n.0 == x || n.0 == x + toward(x0, x1))
            &&& (n.1 == y || n.1 == y + toward(y0, y1))
        }),
{
    let dx = abs_diff(x0, x1);
    let big_dy = abs_diff(y0, y1);
    let p = x_left(x, x0, x1);
    let q = y_left(y, y0, y1);
    lemma_walk_products(dx, big_dy, p, q);
    assert(p == 0 <==> x == x1);
    assert(q == 0 <==> y == y1);
}

/// The walk from a good point with enough fuel starts there, ends at
/// `(x1, y1)`, and never leaves the box between `(x0, y0)` and `(x1, y1)`.
proof fn lemma_walk(x: int, y: int, err: int, x0: int, y0: int, x1: int, y1: int, fuel: nat)
    requires
        walk_ok(x, y, err, x0, y0, x1, y1),
        fuel >= x_left(x, x0, x1) + y_left(y, y0, y1) + 1,
    ensures
        ({
            let w = line_walk(
                x,
                y,
                err,
                x1,
                y1,
                abs_diff(x0, x1),
                -abs_diff(y0, y1),
                toward(x0, x1),
                toward(y0, y1),
                fuel,
            );
            &&& w.len() >= 1
            &&& w[0] == (x, y)
            &&& w.last() == (x1, y1)
            &&& forall|i: int|
                0 <= i < w.len() ==> 0 <= x_left(#[trigger] w[i].0, x0, x1) <= abs_diff(x0, x1)
                    && 0 <= y_left(w[i].1, y0, y1) <= abs_diff(y0, y1)
        }),
    decreases fuel,
{
    let dx = abs_diff(x0, x1);
    let dy = -abs_diff(y0, y1);
    let sx = toward(x0, x1);
    let sy = toward(y0, y1);
    if !(x == x1 && y == y1) {
        let n = line_step(x, y, err, dx, dy, sx, sy);
        lemma_walk_step(x, y, err, x0, y0, x1, y1);
        lemma_walk(n.0, n.1, n.2, x0, y0, x1, y1, (fuel - 1) as nat);
        let rest = line_walk(n.0, n.1, n.2, x1, y1, dx, dy, sx, sy, (fuel - 1) as nat);
        let w = line_walk(x, y, err, x1, y1, dx, dy, sx, sy, fuel);
        assert(w == seq![(x, y)] + rest);
        assert forall|i: int| 0 <= i < w.len() implies 0 <= x_left(#[trigger] w[i].0, x0, x1)
            <= dx && 0 <= y_left(w[i].1, y0, y1) <= abs_diff(y0, y1) by {
            if i > 0 {
                assert(w[i] == rest[i - 1]);
            }
        }
    }
}

proof fn lemma_walk_start(x0: int, y0: int, x1: int, y1: int)
    ensures
        walk_ok(x0, y0, abs_diff(x0, x1) - abs_diff(y0, y1), x0, y0, x1, y1),
        x_left(x0, x0, x1) + y_left(y0, y0, y1) + 1 == abs_diff(x0, x1) + abs_diff(y0, y1) + 1,
{
    lemma_walk_products(abs_diff(x0, x1), abs_diff(y0, y1), abs_diff(x0, x1), abs_diff(y0, y1));
}

/// Bresenham's line from `(x0, y0)` to `(x1, y1)`, both ends included.
pub fn line(px: &mut [u8], x0: u32, y0: u32, x1: u32, y1: u32, c: [u8; 3])
    requires
        old(px)@.len() == canvas_len(),
        x0 < 0x2AAA_AAAB,
        y0 < 0x2AAA_AAAB,
        x1 < 0x2AAA_AAAB,
        y1 < 0x2AAA_AAAB,
    ensures
        painted(
            old(px)@,
            final(px)@,
            |a: int, b: int| line_points(x0 as int, y0 as int, x1 as int, y1 as int).contains((a, b)),
            c,
        ),
{
    let ghost before = px@;
    let ghost (gx0, gy0, gx1, gy1) = (x0 as int, y0 as int, x1 as int, y1 as int);
    let ghost pts = line_points(gx0, gy0, gx1, gy1);
    let ghost total: nat = (abs_diff(gx0, gx1) + abs_diff(gy0, gy1) + 1) as nat;
    let ex1 = x1 as i32;
    let ey1 = y1 as i32;
    let mut x = x0 as i32;
    let mut y = y0 as i32;
    let dx: i32 = if x < ex1 {
        ex1 - x
    } else {
        x - ex1
    };
    let sx: i32 = if x < ex1 {
        1
    } else {
        -1
    };
    let dy: i32 = if y < ey1 {
        y - ey1
    } else {
        ey1 - y
    };
    let sy: i32 = if y < ey1 {
        1
    } else {
        -1
    };
    let mut err: i32 = dx + dy;
    proof {
        lemma_walk_start(gx0, gy0, gx1, gy1);
        lemma_painted_nothing(
            before,
            |a: int, b: int| exists|i: int| 0 <= i < 0 && pts[i] == (a, b),
            c,
        );
    }
    let ghost mut k: int = 0;
    while !(x == ex1 && y == ey1)
        invariant
            px@.len() == canvas_len(),
            gx0 == x0 && gy0 == y0 && gx1 == x1 && gy1 == y1,
            ex1 == x1 && ey1 == y1,
            x1 < 0x2AAA_AAAB && y1 < 0x2AAA_AAAB && x0 < 0x2AAA_AAAB && y0 < 0x2AAA_AAAB,
            dx == abs_diff(gx0, gx1),
            dy == -abs_diff(gy0, gy1),
            sx == toward(gx0, gx1),
            sy == toward(gy0, gy1),
            pts == line_points(gx0, gy0, gx1, gy1),
            total == abs_diff(gx0, gx1) + abs_diff(gy0, gy1) + 1,
            walk_ok(x as int, y as int, err as int, gx0, gy0, gx1, gy1),
            0 <= k <= pts.len(),
            total - k >= x_left(x as int, gx0, gx1) + y_left(y as int, gy0, gy1) + 1,
            pts == pts.subrange(0, k) + line_walk(
                x as int,
                y as int,
                err as int,
                gx1,
                gy1,
                dx as int,
                dy as int,
                sx as int,
                sy as int,
                (total - k) as nat,
            ),
            painted(before, px@, |a: int, b: int| exists|i: int| 0 <= i < k && pts[i] == (a, b), c),
        decreases x_left(x as int, gx0, gx1) + y_left(y as int, gy0, gy1),
    {
        let ghost mid = px@;
        let ghost w = line_walk(
            x as int,
            y as int,
            err as int,
            gx1,
            gy1,
            dx as int,
            dy as int,
            sx as int,
            sy as int,
            (total - k) as nat,
        );
        proof {
            lemma_walk(x as int, y as int, err as int, gx0, gy0, gx1, gy1, (total - k) as nat);
            assert(pts[k] == w[0]);
        }
        put(px, x as u32, y as u32, c);
        let ghost n = line_step(x as int, y as int, err as int, dx as int, dy as int, sx as int, sy as int);
        proof {
            lemma_walk_step(x as int, y as int, err as int, gx0, gy0, gx1, gy1);
            assert(w == seq![(x as int, y as int)] + line_walk(
                n.0,
                n.1,
                n.2,
                gx1,
                gy1,
                dx as int,
                dy as int,
                sx as int,
                sy as int,
                (total - k - 1) as nat,
            ));
            assert(pts[k] == (x as int, y as int));
            lemma_painted_then(
                before,
                mid,
                px@,
                |a: int, b: int| exists|i: int| 0 <= i < k && pts[i] == (a, b),
                |a: int, b: int| a == x && b == y,
                |a: int, b: int| exists|i: int| 0 <= i < k + 1 && pts[i] == (a, b),
                c,
            );
            assert(pts.subrange(0, k + 1) == pts.subrange(0, k).push(pts[k]));
        }
        let e2 = 2 * err;
        if e2 >= dy {
            err = err + dy;
            x = x + sx;
        }
        if e2 <= dx {
            err = err + dx;
            y = y + sy;
        }
        proof {
            k = k + 1;
            assert(pts == pts.subrange(0, k) + line_walk(
                x as int,
                y as int,
                err as int,
                gx1,
                gy1,
                dx as int,
                dy as int,
                sx as int,
                sy as int,
                (total - k) as nat,
            ));
        }
    }
    let ghost mid = px@;
    put(px, x as u32, y as u32, c);
    proof {
        let w = line_walk(
            x as int,
            y as int,
            err as int,
            gx1,
            gy1,
            dx as int,
            dy as int,
            sx as int,
            sy as int,
            (total - k) as nat,
        );
        lemma_walk(x as int, y as int, err as int, gx0, gy0, gx1, gy1, (total - k) as nat);
        assert(w == seq![(x as int, y as int)]);
        assert(pts.len() == k + 1);
        assert(pts[k] == (x as int, y as int));
        lemma_painted_then(
            before,
            mid,
            px@,
            |a: int, b: int| exists|i: int| 0 <= i < k && pts[i] == (a, b),
            |a: int, b: int| a == x && b == y,
            |a: int, b: int| pts.contains((a, b)),
            c,
        );
    }
}

/// A line starts at its first end point, finishes at its second, and plots
/// no pixel outside the box the two span.
pub proof fn lemma_line_ends(x0: int, y0: int, x1: int, y1: int)
    ensures
        ({
            let pts = line_points(x0, y0, x1, y1);
            &&& pts.len() >= 1
            &&& pts[0] == (x0, y0)
            &&& pts.last() == (x1, y1)
            &&& forall|i: int|
                0 <= i < pts.len() ==> ((x0 <= (#[trigger] pts[i]).0 <= x1) || (x1 <= pts[i].0
                    <= x0)) && ((y0 <= pts[i].1 <= y1) || (y1 <= pts[i].1 <= y0))
        }),
{
    let dx = abs_diff(x0, x1);
    let big_dy = abs_diff(y0, y1);
    lemma_walk_start(x0, y0, x1, y1);
    lemma_walk(x0, y0, dx - big_dy, x0, y0, x1, y1, (dx + big_dy + 1) as nat);
}

/// Along a row, the walk from `x` visits every pixel between `x` and `x1`.
proof fn lemma_walk_row(x: int, err: int, x0: int, x1: int, y: int, fuel: nat)
    requires
        walk_ok(x, y, err, x0, y, x1, y),
        fuel >= x_left(x, x0, x1) + 1,
    ensures
        forall|a: int|
            0 <= #[trigger] x_left(a, x0, x1) <= x_left(x, x0, x1) ==> line_walk(
                x,
                y,
                err,
                x1,
                y,
                abs_diff(x0, x1),
                0,
                toward(x0, x1),
                toward(y, y),
                fuel,
            ).contains((a, y)),
    decreases fuel,
{
    let dx = abs_diff(x0, x1);
    let sx = toward(x0, x1);
    let sy = toward(y, y);
    let w = line_walk(x, y, err, x1, y, dx, 0, sx, sy, fuel);
    assert(w[0] == (x, y));
    if x == x1 {
        assert forall|a: int| 0 <= #[trigger] x_left(a, x0, x1) <= x_left(x, x0, x1) implies w.contains(
            (a, y),
        ) by {
            assert(a == x);
            assert(w[0] == (a, y));
        }
    } else {
        let n = line_step(x, y, err, dx, 0, sx, sy);
        lemma_walk_step(x, y, err, x0, y, x1, y);
        assert(n.1 == y);
        assert(n.0 == x + sx);
        lemma_walk_row(n.0, n.2, x0, x1, y, (fuel - 1) as nat);
        let rest = line_walk(n.0, y, n.2, x1, y, dx, 0, sx, sy, (fuel - 1) as nat);
        assert(w == seq![(x, y)] + rest);
        assert forall|a: int| 0 <= #[trigger] x_left(a, x0, x1) <= x_left(x, x0, x1) implies w.contains(
            (a, y),
        ) by {
            if a == x {
                assert(w[0] == (a, y));
            } else {
                assert(0 <= x_left(a, x0, x1) <= x_left(n.0, x0, x1));
                assert(rest.contains((a, y)));
                let i = choose|i: int| 0 <= i < rest.len() && rest[i] == (a, y);
                assert(w[i + 1] == (a, y));
            }
        }
    }
}

/// Down a column, the walk from `y` visits every pixel between `y` and `y1`.
proof fn lemma_walk_column(y: int, err: int, y0: int, y1: int, x: int, fuel: nat)
    requires
        walk_ok(x, y, err, x, y0, x, y1),
        fuel >= y_left(y, y0, y1) + 1,
    ensures
        forall|b: int|
            0 <= #[trigger] y_left(b, y0, y1) <= y_left(y, y0, y1) ==> line_walk(
                x,
                y,
                err,
                x,
                y1,
                0,
                -abs_diff(y0, y1),
                toward(x, x),
                toward(y0, y1),
                fuel,
            ).contains((x, b)),
    decreases fuel,
{
    let dy = -abs_diff(y0, y1);
    let sx = toward(x, x);
    let sy = toward(y0, y1);
    let w = line_walk(x, y, err, x, y1, 0, dy, sx, sy, fuel);
    assert(w[0] == (x, y));
    if y == y1 {
        assert forall|b: int| 0 <= #[trigger] y_left(b, y0, y1) <= y_left(y, y0, y1) implies w.contains(
            (x, b),
        ) by {
            assert(b == y);
            assert(w[0] == (x, b));
        }
    } else {
        let n = line_step(x, y, err, 0, dy, sx, sy);
        lemma_walk_step(x, y, err, x, y0, x, y1);
        assert(n.0 == x);
        assert(n.1 == y + sy);
        lemma_walk_column(n.1, n.2, y0, y1, x, (fuel - 1) as nat);
        let rest = line_walk(x, n.1, n.2, x, y1, 0, dy, sx, sy, (fuel - 1) as nat);
        assert(w == seq![(x, y)] + rest);
        assert forall|b: int| 0 <= #[trigger] y_left(b, y0, y1) <= y_left(y, y0, y1) implies w.contains(
            (x, b),
        ) by {
            if b == y {
                assert(w[0] == (x, b));
            } else {
                assert(0 <= y_left(b, y0, y1) <= y_left(n.1, y0, y1));
                assert(rest.contains((x, b)));
                let i = choose|i: int| 0 <= i < rest.len() && rest[i] == (x, b);
                assert(w[i + 1] == (x, b));
            }
        }
    }
}

/// A line along one row plots exactly the pixels `hline` paints.
pub proof fn lemma_line_row(x0: int, x1: int, y: int)
    ensures
        forall|a: int, b: int|
            #[trigger] line_points(x0, y, x1, y).contains((a, b)) == (b == y && ((x0 <= a <= x1) || (
            x1 <= a <= x0))),
{
    let pts = line_points(x0, y, x1, y);
    let dx = abs_diff(x0, x1);
    lemma_line_ends(x0, y, x1, y);
    lemma_walk_start(x0, y, x1, y);
    lemma_walk_row(x0, dx, x0, x1, y, (dx + 1) as nat);
    assert forall|a: int, b: int| #[trigger] pts.contains((a, b)) == (b == y && ((x0 <= a <= x1) || (
    x1 <= a <= x0))) by {
        if pts.contains((a, b)) {
            let i = choose|i: int| 0 <= i < pts.len() && pts[i] == (a, b);
            assert(pts[i].1 == y);
        }
        if b == y && ((x0 <= a <= x1) || (x1 <= a <= x0)) {
            assert(0 <= x_left(a, x0, x1) <= x_left(x0, x0, x1));
        }
    }
}

/// A line down one column plots exactly the pixels `vline` paints.
pub proof fn lemma_line_column(x: int, y0: int, y1: int)
    ensures
        forall|a: int, b: int|
            #[trigger] line_points(x, y0, x, y1).contains((a, b)) == (a == x && ((y0 <= b <= y1) || (
            y1 <= b <= y0))),
{
    let pts = line_points(x, y0, x, y1);
    let big_dy = abs_diff(y0, y1);
    lemma_line_ends(x, y0, x, y1);
    lemma_walk_start(x, y0, x, y1);
    lemma_walk_column(y0, -big_dy, y0, y1, x, (big_dy + 1) as nat);
    assert forall|a: int, b: int| #[trigger] pts.contains((a, b)) == (a == x && ((y0 <= b <= y1) || (
    y1 <= b <= y0))) by {
        if pts.contains((a, b)) {
            let i = choose|i: int| 0 <= i < pts.len() && pts[i] == (a, b);
            assert(pts[i].0 == x);
        }
        if a == x && ((y0 <= b <= y1) || (y1 <= b <= y0)) {
            assert(0 <= y_left(b, y0, y1) <= y_left(y0, y0, y1));
        }
    }
}

/// The samples drawn in column `x` of a `w`-column waveform of `n` samples:
/// from `x * n / w` up to `(x + 1) * n / w`, at least one sample, never past
/// the end.
pub open spec fn column_span(x: int, w: int, n: int) -> (int, int) {
    let lo = x * n / w;
    let hi = (x + 1) * n / w;
    let hi = if hi > lo + 1 {
        hi
    } else {
        lo + 1
    };
    (lo, if hi < n {
        hi
    } else {
        n
    })
}

/// The sample range `[lo, hi)` that column `x` of a waveform panel shows.
pub fn column_samples(x: u32, w: u32, n: usize) -> (r: (usize, usize))
    requires
        x < w,
        (x + 1) * n <= usize::MAX,
    ensures
        r.0 == column_span(x as int, w as int, n as int).0,
        r.1 == column_span(x as int, w as int, n as int).1,
{
    proof {
        lemma_column_products(x as int, n as int);
        if n > 0 {
            lemma_column_in_buffer(x as int, w as int, n as int);
        } else {
            assert(x * n == 0) by (nonlinear_arith)
                requires
                    n == 0,
            ;
        }
    }
    let lo = (x as usize) * n / (w as usize);
    let hi = ((x as usize) + 1) * n / (w as usize);
    let hi = if hi > lo + 1 {
        hi
    } else {
        lo + 1
    };
    let hi = if hi < n {
        hi
    } else {
        n
    };
    (lo, hi)
}

proof fn lemma_column_products(x: int, n: int)
    by (nonlinear_arith)
    requires
        0 <= x,
        0 <= n,
    ensures
        x * n <= (x + 1) * n,
{
}

/// Every column of a waveform panel shows a non-empty range of samples that
/// lies inside the buffer, so slicing the samples by it cannot fail.
pub proof fn lemma_column_in_buffer(x: int, w: int, n: int)
    requires
        0 <= x < w,
        n > 0,
    ensures
        0 <= column_span(x, w, n).0 < column_span(x, w, n).1 <= n,
{
    assert(x * n < w * n) by (nonlinear_arith)
        requires
            0 <= x < w,
            n > 0,
    ;
    assert(x * n / w < n) by (nonlinear_arith)
        requires
            x * n < w * n,
            0 <= x,
            n > 0,
            w > 0,
    ;
    assert(0 <= x * n / w) by (nonlinear_arith)
        requires
            0 <= x,
            n > 0,
            w > 0,
    ;
}

} // verus!
