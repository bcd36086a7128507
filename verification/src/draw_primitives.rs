//! The thick-line rasterizer.
//!
//! A `HardLine` is the oriented rectangle ("thick line") of width
//! `thickness` centered on the segment between two pixel coordinates, both
//! taken at their pixel centers. `draw` enumerates every pixel whose center
//! the rectangle covers, by testing each candidate of a conservative
//! bounding box with an exact integer containment test.
//!
//! The containment test is the same-sign-of-cross-products test on the
//! rectangle's four edges, boundary included, written without the
//! irrational unit normal: a pixel center `c` lies in the rectangle iff its
//! distance to the carrying line is at most `thickness / 2` — squared,
//! `4 * cross^2 <= thickness^2 * |d|^2` — and its projection onto the
//! segment direction falls within the segment, `0 <= dot <= |d|^2`. Both
//! comparisons are exact in integers because pixel centers differ from the
//! endpoints' centers by whole pixels.
//!
//! The degenerate zero-length segment, whose normal is undefined, is given
//! an explicit policy: it covers exactly its single pixel, whatever the
//! thickness.

use vstd::prelude::*;

use crate::geometry::Point;
use vstd::arithmetic::mul::lemma_mul_inequality;

verus! {

/// How one region relates to another.
#[derive(Debug, Clone, Copy, PartialEq, Eq, Structural)]
pub enum Intersection {
    Contained,
    Overlaps,
    Disjoint,
}

/// Largest accepted magnitude of a line endpoint coordinate.
pub const MAX_LINE_COORD: i64 = 67108864;

/// Largest accepted line thickness.
pub const MAX_THICKNESS: u32 = 65535;

/// Whether the thick line from `(ax, ay)` to `(bx, by)` with thickness `t`
/// covers the pixel `(px, py)`: its center lies in the oriented rectangle,
/// boundary included. A zero-length line covers exactly its own pixel.
pub open spec fn covers(ax: int, ay: int, bx: int, by: int, t: int, px: int, py: int) -> bool {
    let dx = bx - ax;
    let dy = by - ay;
    if dx == 0 && dy == 0 {
        px == ax && py == ay
    } else {
        let ux = px - ax;
        let uy = py - ay;
        let cross = ux * dy - uy * dx;
        let dot = ux * dx + uy * dy;
        let dd = dx * dx + dy * dy;
        4 * cross * cross <= t * t * dd && 0 <= dot <= dd
    }
}

/// Drawing symmetry: the thick line covers the same pixels whichever way
/// round its endpoints are given.
pub proof fn law_draw_symmetric(ax: int, ay: int, bx: int, by: int, t: int, px: int, py: int)
    ensures
        covers(ax, ay, bx, by, t, px, py) == covers(bx, by, ax, ay, t, px, py),
{
    let dx = bx - ax;
    let dy = by - ay;
    if dx == 0 && dy == 0 {
    } else {
        let ux = px - ax;
        let uy = py - ay;
        let vx = px - bx;
        let vy = py - by;
        let cross_ab = ux * dy - uy * dx;
        let cross_ba = vx * (-dy) - vy * (-dx);
        let dot_ab = ux * dx + uy * dy;
        let dot_ba = vx * (-dx) + vy * (-dy);
        let dd = dx * dx + dy * dy;
        assert(cross_ba == -cross_ab && dot_ba == dd - dot_ab && (-dx) * (-dx) + (-dy) * (-dy)
            == dd && 4 * cross_ba * cross_ba == 4 * cross_ab * cross_ab) by (nonlinear_arith)
            requires
                ux == vx + dx && uy == vy + dy && cross_ab == ux * dy - uy * dx && cross_ba == vx
                    * (-dy) - vy * (-dx) && dot_ab == ux * dx + uy * dy && dot_ba == vx * (-dx) + vy
                    * (-dy) && dd == dx * dx + dy * dy,
        ;
    }
}

/// A thick line always covers its own endpoints' pixels: their centers lie
/// on the segment itself. Writing the covered set therefore paints the
/// endpoints too, with no separate endpoint handling.
pub proof fn lemma_covers_endpoints(ax: int, ay: int, bx: int, by: int, t: int)
    requires
        t >= 1,
    ensures
        covers(ax, ay, bx, by, t, ax, ay),
        covers(ax, ay, bx, by, t, bx, by),
{
    let dx = bx - ax;
    let dy = by - ay;
    if dx == 0 && dy == 0 {
    } else {
        let dd = dx * dx + dy * dy;
        assert(dd >= 1 && t * t * dd >= 0) by (nonlinear_arith)
            requires
                dd == dx * dx + dy * dy && (dx != 0 || dy != 0) && t >= 1,
        ;
        assert(0 * dy - 0 * dx == 0 && 0 * dx + 0 * dy == 0 && 4 * 0 * 0 == 0);
        assert(dx * dy - dy * dx == 0 && dx * dx + dy * dy == dd && 4 * 0 * 0 <= t * t * dd)
            by (nonlinear_arith)
            requires
                dd == dx * dx + dy * dy && t * t * dd >= 0,
        ;
    }
}

/// Covered width grows monotonically with the thickness: every pixel a
/// thinner line covers, a thicker line between the same endpoints covers
/// too.
pub proof fn law_thickness_monotone(
    ax: int,
    ay: int,
    bx: int,
    by: int,
    t1: int,
    t2: int,
    px: int,
    py: int,
)
    requires
        1 <= t1 <= t2,
        covers(ax, ay, bx, by, t1, px, py),
    ensures
        covers(ax, ay, bx, by, t2, px, py),
{
    let dx = bx - ax;
    let dy = by - ay;
    if dx == 0 && dy == 0 {
    } else {
        let ux = px - ax;
        let uy = py - ay;
        let cross = ux * dy - uy * dx;
        let dd = dx * dx + dy * dy;
        assert(t1 * t1 * dd <= t2 * t2 * dd) by (nonlinear_arith)
            requires
                1 <= t1 <= t2 && dd >= 0,
        ;
        assert(dd >= 0) by (nonlinear_arith)
            requires
                dd == dx * dx + dy * dy,
        ;
    }
}

/// Every covered pixel lies within `(t + 1) / 2` of the endpoint span on
/// each axis: the bounding box the rasterizer scans — this span with one
/// more pixel on every side — misses nothing.
pub proof fn lemma_covers_in_bbox(ax: int, ay: int, bx: int, by: int, t: int, px: int, py: int)
    requires
        t >= 1,
        covers(ax, ay, bx, by, t, px, py),
    ensures
        (if ax <= bx {
            ax
        } else {
            bx
        }) - (t + 1) / 2 <= px <= (if ax <= bx {
            bx
        } else {
            ax
        }) + (t + 1) / 2,
        (if ay <= by {
            ay
        } else {
            by
        }) - (t + 1) / 2 <= py <= (if ay <= by {
            by
        } else {
            ay
        }) + (t + 1) / 2,
{
    let dx = bx - ax;
    let dy = by - ay;
    if dx == 0 && dy == 0 {
    } else {
        let ux = px - ax;
        let uy = py - ay;
        let cross = ux * dy - uy * dx;
        let dot = ux * dx + uy * dy;
        let dd = dx * dx + dy * dy;
        assert(dd >= 1 && dx * dx <= dd && dy * dy <= dd) by (nonlinear_arith)
            requires
                dd == dx * dx + dy * dy && (dx != 0 || dy != 0),
        ;
        // Decompose the pixel offset along the segment direction and its
        // normal: scaled by dd, the direction part is bounded by the slab
        // test and the normal part by the distance test.
        assert(ux * dd == dot * dx + cross * dy && uy * dd == dot * dy - cross * dx)
            by (nonlinear_arith)
            requires
                cross == ux * dy - uy * dx && dot == ux * dx + uy * dy && dd == dx * dx + dy * dy,
        ;
        // The normal part: |2 * cross * e| <= t * dd for either component e
        // of the direction, squaring both sides.
        assert(4 * cross * cross >= 0 && t * t * dd >= 1 && t * dd >= 1 && dy * dy >= 0 && dx * dx
            >= 0) by (nonlinear_arith)
            requires
                t >= 1 && dd >= 1,
        ;
        lemma_mul_inequality(4 * cross * cross, t * t * dd, dy * dy);
        lemma_mul_inequality(4 * cross * cross, t * t * dd, dx * dx);
        assert((2 * cross * dy) * (2 * cross * dy) <= (t * dd) * (t * dd) && (2 * cross * dx) * (2
            * cross * dx) <= (t * dd) * (t * dd)) by (nonlinear_arith)
            requires
                (4 * cross * cross) * (dy * dy) <= (t * t * dd) * (dy * dy) && (4 * cross * cross)
                    * (dx * dx) <= (t * t * dd) * (dx * dx) && dy * dy <= dd && dx * dx <= dd && t
                    * t * dd >= 0 && 4 * cross * cross >= 0 && dd >= 1 && t >= 1,
        ;
        assert(-(t * dd) <= 2 * cross * dy <= t * dd && -(t * dd) <= 2 * cross * dx <= t * dd)
            by (nonlinear_arith)
            requires
                (2 * cross * dy) * (2 * cross * dy) <= (t * dd) * (t * dd) && (2 * cross * dx) * (2
                    * cross * dx) <= (t * dd) * (t * dd) && t * dd >= 1,
        ;
        // The direction part: 0 <= dot <= dd keeps dot * e between 0 and
        // dd * e, whichever way round.
        let mnx = if dx >= 0 {
            0
        } else {
            dx
        };
        let mxx = if dx >= 0 {
            dx
        } else {
            0
        };
        let mny = if dy >= 0 {
            0
        } else {
            dy
        };
        let mxy = if dy >= 0 {
            dy
        } else {
            0
        };
        assert(2 * (mnx * dd) - t * dd <= 2 * (ux * dd) <= 2 * (mxx * dd) + t * dd && 2 * (mny * dd)
            - t * dd <= 2 * (uy * dd) <= 2 * (mxy * dd) + t * dd) by (nonlinear_arith)
            requires
                ux * dd == dot * dx + cross * dy && uy * dd == dot * dy - cross * dx && 0 <= dot
                    <= dd && -(t * dd) <= 2 * cross * dy <= t * dd && -(t * dd) <= 2 * cross * dx
                    <= t * dd && dd >= 1 && mnx == (if dx >= 0 {
                    0int
                } else {
                    dx
                }) && mxx == (if dx >= 0 {
                    dx
                } else {
                    0int
                }) && mny == (if dy >= 0 {
                    0int
                } else {
                    dy
                }) && mxy == (if dy >= 0 {
                    dy
                } else {
                    0int
                }),
        ;
        // Cancel the positive factor dd.
        assert(2 * mnx - t <= 2 * ux <= 2 * mxx + t && 2 * mny - t <= 2 * uy <= 2 * mxy + t)
            by (nonlinear_arith)
            requires
                2 * (mnx * dd) - t * dd <= 2 * (ux * dd) <= 2 * (mxx * dd) + t * dd && 2 * (mny
                    * dd) - t * dd <= 2 * (uy * dd) <= 2 * (mxy * dd) + t * dd && dd >= 1,
        ;
        assert(t <= 2 * ((t + 1) / 2));
        assert((if ax <= bx {
            ax
        } else {
            bx
        }) == ax + mnx && (if ax <= bx {
            bx
        } else {
            ax
        }) == ax + mxx);
        assert((if ay <= by {
            ay
        } else {
            by
        }) == ay + mny && (if ay <= by {
            by
        } else {
            ay
        }) == ay + mxy);
    }
}

/// True iff the sequence holds the pixel `(px, py)`.
pub open spec fn seq_has_pixel(s: Seq<Point<u32>>, px: int, py: int) -> bool {
    exists|k: int| 0 <= k < s.len() && (#[trigger] s[k]).x == px && s[k].y == py
}

/// Strict row-major order: `p` comes before `q`.
pub open spec fn pixel_lex_lt(p: Point<u32>, q: Point<u32>) -> bool {
    p.y < q.y || (p.y == q.y && p.x < q.x)
}

/// The thick line between two canvas pixel coordinates.
#[derive(Debug, Clone, Copy, PartialEq, Eq, Structural)]
pub struct HardLine {
    a: Point<i64>,
    b: Point<i64>,
    thickness: u32,
}

impl HardLine {
    pub closed spec fn spec_a(self) -> Point<i64> {
        self.a
    }

    pub closed spec fn spec_b(self) -> Point<i64> {
        self.b
    }

    pub closed spec fn spec_thickness(self) -> int {
        self.thickness as int
    }

    pub open spec fn wf(self) -> bool {
        &&& -MAX_LINE_COORD <= self.spec_a().x <= MAX_LINE_COORD
        &&& -MAX_LINE_COORD <= self.spec_a().y <= MAX_LINE_COORD
        &&& -MAX_LINE_COORD <= self.spec_b().x <= MAX_LINE_COORD
        &&& -MAX_LINE_COORD <= self.spec_b().y <= MAX_LINE_COORD
        &&& 1 <= self.spec_thickness() <= MAX_THICKNESS
    }

    /// Whether this line covers the pixel `(px, py)`.
    pub open spec fn spec_covers(self, px: int, py: int) -> bool {
        covers(
            self.spec_a().x as int,
            self.spec_a().y as int,
            self.spec_b().x as int,
            self.spec_b().y as int,
            self.spec_thickness(),
            px,
            py,
        )
    }

    pub fn new(a: Point<i64>, b: Point<i64>, thickness: u32) -> (r: HardLine)
        requires
            -MAX_LINE_COORD <= a.x <= MAX_LINE_COORD,
            -MAX_LINE_COORD <= a.y <= MAX_LINE_COORD,
            -MAX_LINE_COORD <= b.x <= MAX_LINE_COORD,
            -MAX_LINE_COORD <= b.y <= MAX_LINE_COORD,
            1 <= thickness <= MAX_THICKNESS,
        ensures
            r.wf(),
            r.spec_a() == a,
            r.spec_b() == b,
            r.spec_thickness() == thickness,
    {
        HardLine { a, b, thickness }
    }

    /// The exact containment test for one pixel.
    fn covers_at(&self, px: i64, py: i64) -> (r: bool)
        requires
            self.wf(),
            -0x1000_0000 <= px <= 0x1000_0000,
            -0x1000_0000 <= py <= 0x1000_0000,
        ensures
            r == self.spec_covers(px as int, py as int),
    {
        let ax = self.a.x;
        let ay = self.a.y;
        let bx = self.b.x;
        let by = self.b.y;
        let dx = (bx - ax) as i128;
        let dy = (by - ay) as i128;
        if dx == 0 && dy == 0 {
            px == ax && py == ay
        } else {
            let ux = (px - ax) as i128;
            let uy = (py - ay) as i128;
            proof {
                assert(-0x4000_0000 <= dx <= 0x4000_0000 && -0x4000_0000 <= dy <= 0x4000_0000
                    && -0x4000_0000 <= ux <= 0x4000_0000 && -0x4000_0000 <= uy <= 0x4000_0000);
                assert(-0x1000_0000_0000_0000 <= ux * dy <= 0x1000_0000_0000_0000
                    && -0x1000_0000_0000_0000 <= uy * dx <= 0x1000_0000_0000_0000
                    && -0x1000_0000_0000_0000 <= ux * dx <= 0x1000_0000_0000_0000
                    && -0x1000_0000_0000_0000 <= uy * dy <= 0x1000_0000_0000_0000 && 0 <= dx * dx
                    <= 0x1000_0000_0000_0000 && 0 <= dy * dy <= 0x1000_0000_0000_0000)
                    by (nonlinear_arith)
                    requires
                        -0x4000_0000 <= dx <= 0x4000_0000 && -0x4000_0000 <= dy <= 0x4000_0000
                            && -0x4000_0000 <= ux <= 0x4000_0000 && -0x4000_0000 <= uy
                            <= 0x4000_0000,
                ;
            }
            let cross = ux * dy - uy * dx;
            let dot = ux * dx + uy * dy;
            let dd = dx * dx + dy * dy;
            let t = self.thickness as i128;
            proof {
                assert(-0x2000_0000_0000_0000 <= cross <= 0x2000_0000_0000_0000 && 0 <= dd
                    <= 0x2000_0000_0000_0000 && 1 <= t <= 0x1_0000);
                assert(0 <= 4 * cross * cross
                    <= 0x1000_0000_0000_0000_0000_0000_0000_0000 && 0 <= t * t <= 0x1_0000_0000 && 0
                    <= t * t * dd <= 0x1000_0000_0000_0000_0000_0000_0000_0000) by (nonlinear_arith)
                    requires
                        -0x2000_0000_0000_0000 <= cross <= 0x2000_0000_0000_0000 && 0 <= dd
                            <= 0x2000_0000_0000_0000 && 1 <= t <= 0x1_0000,
                ;
            }
            4 * cross * cross <= t * t * dd && 0 <= dot && dot <= dd
        }
    }

    /// Enumerates every pixel the thick line covers that has nonnegative
    /// coordinates — pixels at negative coordinates are skipped — in
    /// row-major order, each exactly once. The caller walks the returned
    /// pixels and writes each through its own bounds-checked setter, which
    /// rejects coordinates beyond the buffer: the rasterizer does not know
    /// the buffer's dimensions.
    pub fn draw(&self) -> (pts: Vec<Point<u32>>)
        requires
            self.wf(),
        ensures
            forall|k: int|
                0 <= k < pts@.len() ==> self.spec_covers(
                    (#[trigger] pts@[k]).x as int,
                    pts@[k].y as int,
                ),
            forall|px: int, py: int|
                self.spec_covers(px, py) && px >= 0 && py >= 0 ==> seq_has_pixel(pts@, px, py),
            forall|k1: int, k2: int|
                0 <= k1 < k2 < pts@.len() ==> pixel_lex_lt(pts@[k1], pts@[k2]),
    {
        let ax = self.a.x;
        let ay = self.a.y;
        let bx = self.b.x;
        let by = self.b.y;
        let t = self.thickness as i64;
        let reach = (t + 1) / 2 + 1;
        let xmin = if ax <= bx {
            ax
        } else {
            bx
        };
        let xmax = if ax <= bx {
            bx
        } else {
            ax
        };
        let ymin = if ay <= by {
            ay
        } else {
            by
        };
        let ymax = if ay <= by {
            by
        } else {
            ay
        };
        let x_lo = if xmin - reach > 0 {
            xmin - reach
        } else {
            0
        };
        let x_hi = xmax + reach;
        let y_lo = if ymin - reach > 0 {
            ymin - reach
        } else {
            0
        };
        let y_hi = ymax + reach;
        let mut pts: Vec<Point<u32>> = Vec::new();
        let mut y = y_lo;
        proof {
            assert forall|px: int, py: int|
                self.spec_covers(px, py) && px >= 0 && py >= 0 && py < y implies seq_has_pixel(
                pts@,
                px,
                py,
            ) by {
                lemma_covers_in_bbox(ax as int, ay as int, bx as int, by as int, t as int, px, py);
            }
        }
        while y <= y_hi
            invariant
                self.wf(),
                ax == self.spec_a().x && ay == self.spec_a().y && bx == self.spec_b().x && by
                    == self.spec_b().y && t == self.spec_thickness(),
                reach == (t + 1) / 2 + 1,
                xmin == (if ax <= bx {
                    ax
                } else {
                    bx
                }) && xmax == (if ax <= bx {
                    bx
                } else {
                    ax
                }),
                ymin == (if ay <= by {
                    ay
                } else {
                    by
                }) && ymax == (if ay <= by {
                    by
                } else {
                    ay
                }),
                x_lo == (if xmin - reach > 0 {
                    xmin - reach
                } else {
                    0
                }) && x_hi == xmax + reach,
                y_lo == (if ymin - reach > 0 {
                    ymin - reach
                } else {
                    0
                }) && y_hi == ymax + reach,
                0 <= y,
                y_lo <= y,
                y <= y_hi + 1 || y == y_lo,
                forall|k: int|
                    0 <= k < pts@.len() ==> self.spec_covers(
                        (#[trigger] pts@[k]).x as int,
                        pts@[k].y as int,
                    ) && (pts@[k].y as int) < y,
                forall|px: int, py: int|
                    self.spec_covers(px, py) && px >= 0 && py >= 0 && py < y ==> seq_has_pixel(
                        pts@,
                        px,
                        py,
                    ),
                forall|k1: int, k2: int|
                    0 <= k1 < k2 < pts@.len() ==> pixel_lex_lt(pts@[k1], pts@[k2]),
            decreases y_hi + 1 - y,
        {
            let mut x = x_lo;
            proof {
                assert forall|px: int, py: int|
                    self.spec_covers(px, py) && px >= 0 && py >= 0 && (py < y || (py == y && px
                        < x)) implies seq_has_pixel(pts@, px, py) by {
                    if py >= y {
                        lemma_covers_in_bbox(
                            ax as int,
                            ay as int,
                            bx as int,
                            by as int,
                            t as int,
                            px,
                            py,
                        );
                    }
                }
            }
            while x <= x_hi
                invariant
                    self.wf(),
                    ax == self.spec_a().x && ay == self.spec_a().y && bx == self.spec_b().x && by
                        == self.spec_b().y && t == self.spec_thickness(),
                    reach == (t + 1) / 2 + 1,
                    xmin == (if ax <= bx {
                        ax
                    } else {
                        bx
                    }) && xmax == (if ax <= bx {
                        bx
                    } else {
                        ax
                    }),
                    x_lo == (if xmin - reach > 0 {
                        xmin - reach
                    } else {
                        0
                    }) && x_hi == xmax + reach,
                    y_hi == (if ay <= by {
                        by
                    } else {
                        ay
                    }) + reach,
                    0 <= x,
                    x_lo <= x,
                    x <= x_hi + 1 || x == x_lo,
                    0 <= y <= y_hi,
                    forall|k: int|
                        0 <= k < pts@.len() ==> self.spec_covers(
                            (#[trigger] pts@[k]).x as int,
                            pts@[k].y as int,
                        ) && ((pts@[k].y as int) < y || (pts@[k].y as int == y && (
                        pts@[k].x as int) < x)),
                    forall|px: int, py: int|
                        self.spec_covers(px, py) && px >= 0 && py >= 0 && (py < y || (py == y && px
                            < x)) ==> seq_has_pixel(pts@, px, py),
                    forall|k1: int, k2: int|
                        0 <= k1 < k2 < pts@.len() ==> pixel_lex_lt(pts@[k1], pts@[k2]),
                decreases x_hi + 1 - x,
            {
                if self.covers_at(x, y) {
                    let ghost before = pts@;
                    let p = Point { x: x as u32, y: y as u32 };
                    pts.push(p);
                    proof {
                        assert(pts@ == before.push(p));
                        assert(pts@[before.len() as int] == p);
                        assert(p.x as int == x as int && p.y as int == y as int);
                        assert forall|px: int, py: int|
                            self.spec_covers(px, py) && px >= 0 && py >= 0 && (py < y || (py == y
                                && px < x + 1)) implies seq_has_pixel(pts@, px, py) by {
                            if py == y && px == x {
                                assert(pts@[before.len() as int].x as int == px && pts@[before.len()
                                    as int].y as int == py);
                            } else {
                                assert(seq_has_pixel(before, px, py));
                                let k = choose|k: int|
                                    0 <= k < before.len() && (#[trigger] before[k]).x == px
                                        && before[k].y == py;
                                assert(pts@[k] == before[k]);
                            }
                        }
                    }
                } else {
                    proof {
                        assert forall|px: int, py: int|
                            self.spec_covers(px, py) && px >= 0 && py >= 0 && (py < y || (py == y
                                && px < x + 1)) implies seq_has_pixel(pts@, px, py) by {
                        }
                    }
                }
                x = x + 1;
            }
            proof {
                assert forall|px: int, py: int|
                    self.spec_covers(px, py) && px >= 0 && py >= 0 && py < y + 1 implies
                    seq_has_pixel(pts@, px, py) by {
                    if py == y {
                        lemma_covers_in_bbox(
                            ax as int,
                            ay as int,
                            bx as int,
                            by as int,
                            t as int,
                            px,
                            py,
                        );
                    }
                }
            }
            y = y + 1;
        }
        proof {
            assert forall|px: int, py: int|
                self.spec_covers(px, py) && px >= 0 && py >= 0 implies seq_has_pixel(
                pts@,
                px,
                py,
            ) by {
                if py >= y {
                    lemma_covers_in_bbox(
                        ax as int,
                        ay as int,
                        bx as int,
                        by as int,
                        t as int,
                        px,
                        py,
                    );
                }
            }
        }
        pts
    }
}

} // verus!
