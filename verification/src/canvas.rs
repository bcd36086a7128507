//! The pixel buffer: a `width` by `height` image stored as one flat byte
//! array, four bytes per pixel in the order blue, green, red, alpha.
//!
//! All accessors are bounds-checked; a coordinate off the buffer is a normal,
//! checked outcome, never a panic. The buffer also computes sparse diffs
//! against a shadow copy of itself and applies such diffs in either
//! direction, which is what the undo/redo machinery builds on.

use vstd::prelude::*;

use crate::history::{Diff, DiffDirection, SparsePixelDelta};
use vstd::pervasive::VecAdditionalExecFns;

verus! {

/// An 8-bit-per-channel color. Equality is exact byte equality.
#[derive(Debug, Clone, Copy, PartialEq, Eq, Structural)]
pub struct Color {
    pub r: u8,
    pub g: u8,
    pub b: u8,
    pub a: u8,
}

impl Color {
    pub fn rgba(r: u8, g: u8, b: u8, a: u8) -> (c: Color)
        ensures
            c == (Color { r, g, b, a }),
    {
        Color { r, g, b, a }
    }

    /// Opaque white, the color every pixel starts with.
    pub open spec fn white() -> Color {
        Color { r: 255, g: 255, b: 255, a: 255 }
    }
}

/// The number of bytes that encode one pixel.
pub const BYTES_PER_PIXEL: usize = 4;

/// The color stored at pixel index `i` of a raw byte sequence, decoded from
/// the blue, green, red, alpha byte order.
pub open spec fn color_at(bytes: Seq<u8>, i: int) -> Color {
    Color { r: bytes[4 * i + 2], g: bytes[4 * i + 1], b: bytes[4 * i], a: bytes[4 * i + 3] }
}

/// A raw byte sequence read as a sequence of pixel colors.
pub open spec fn pixels_of(bytes: Seq<u8>) -> Seq<Color> {
    Seq::new((bytes.len() / 4) as nat, |i: int| color_at(bytes, i))
}

/// The color stored at pixel index `i` of a raw byte sequence in red,
/// green, blue, alpha order, the layout common image encoders expect.
pub open spec fn color_at_rgba(bytes: Seq<u8>, i: int) -> Color {
    Color { r: bytes[4 * i], g: bytes[4 * i + 1], b: bytes[4 * i + 2], a: bytes[4 * i + 3] }
}

/// The color a delta writes when applied in the given direction.
pub open spec fn delta_color(d: SparsePixelDelta, dir: DiffDirection) -> Color {
    match dir {
        DiffDirection::Normal => d.after,
        DiffDirection::Reverse => d.before,
    }
}

/// Deltas are well-formed for a buffer of `area` pixels when their indices
/// are strictly ascending and all within the buffer.
pub open spec fn deltas_wf(ds: Seq<SparsePixelDelta>, area: int) -> bool {
    &&& forall|k: int| 0 <= k < ds.len() ==> 0 <= (#[trigger] ds[k]).index < area
    &&& forall|k1: int, k2: int|
        0 <= k1 < k2 < ds.len() ==> (#[trigger] ds[k1]).index < (#[trigger] ds[k2]).index
}

/// True iff some delta touches pixel index `i`.
pub open spec fn has_delta_index(ds: Seq<SparsePixelDelta>, i: int) -> bool {
    exists|k: int| 0 <= k < ds.len() && (#[trigger] ds[k]).index == i
}

/// True iff every delta's `before` color agrees with the pixels: the state
/// the deltas were computed against.
pub open spec fn deltas_match_before(pixels: Seq<Color>, ds: Seq<SparsePixelDelta>) -> bool {
    forall|k: int| 0 <= k < ds.len() ==> pixels[(#[trigger] ds[k]).index as int] == ds[k].before
}

/// True iff every delta's `after` color agrees with the pixels.
pub open spec fn deltas_match_after(pixels: Seq<Color>, ds: Seq<SparsePixelDelta>) -> bool {
    forall|k: int| 0 <= k < ds.len() ==> pixels[(#[trigger] ds[k]).index as int] == ds[k].after
}

/// The pixels after writing every delta in the chosen direction, in order.
pub open spec fn apply_deltas(
    pixels: Seq<Color>,
    ds: Seq<SparsePixelDelta>,
    dir: DiffDirection,
) -> Seq<Color>
    decreases ds.len(),
{
    if ds.len() == 0 {
        pixels
    } else {
        apply_deltas(pixels, ds.drop_last(), dir).update(
            ds.last().index as int,
            delta_color(ds.last(), dir),
        )
    }
}

/// The sparse diff of the first `n` pixels of two equal-length states:
/// one delta per differing pixel, in ascending index order.
pub open spec fn diff_upto(before: Seq<Color>, after: Seq<Color>, n: int) -> Seq<SparsePixelDelta>
    decreases n,
{
    if n <= 0 {
        Seq::empty()
    } else if before[n - 1] != after[n - 1] {
        diff_upto(before, after, n - 1).push(
            SparsePixelDelta { index: (n - 1) as usize, before: before[n - 1], after: after[n - 1] },
        )
    } else {
        diff_upto(before, after, n - 1)
    }
}

/// The sparse diff between two equal-length pixel states.
pub open spec fn diff_between(before: Seq<Color>, after: Seq<Color>) -> Seq<SparsePixelDelta> {
    diff_upto(before, after, after.len() as int)
}

/// What `apply_deltas` does pixel by pixel: a touched pixel takes its
/// delta's color for the direction, every other pixel keeps its color.
pub proof fn lemma_apply_deltas_pointwise(
    pixels: Seq<Color>,
    ds: Seq<SparsePixelDelta>,
    dir: DiffDirection,
)
    requires
        deltas_wf(ds, pixels.len() as int),
    ensures
        apply_deltas(pixels, ds, dir).len() == pixels.len(),
        forall|k: int|
            0 <= k < ds.len() ==> apply_deltas(pixels, ds, dir)[(#[trigger] ds[k]).index as int]
                == delta_color(ds[k], dir),
        forall|i: int|
            0 <= i < pixels.len() && !has_delta_index(ds, i) ==> apply_deltas(pixels, ds, dir)[i]
                == pixels[i],
    decreases ds.len(),
{
    if ds.len() > 0 {
        let prefix = ds.drop_last();
        let last = ds.last();
        assert(deltas_wf(prefix, pixels.len() as int));
        lemma_apply_deltas_pointwise(pixels, prefix, dir);
        let mid = apply_deltas(pixels, prefix, dir);
        let res = apply_deltas(pixels, ds, dir);
        assert(res == mid.update(last.index as int, delta_color(last, dir)));
        assert forall|k: int| 0 <= k < ds.len() implies res[(#[trigger] ds[k]).index as int]
            == delta_color(ds[k], dir) by {
            if k < ds.len() - 1 {
                assert(ds[k] == prefix[k]);
                assert(ds[k].index < last.index);
            }
        }
        assert forall|i: int| 0 <= i < pixels.len() && !has_delta_index(ds, i) implies res[i]
            == pixels[i] by {
            assert(i != last.index);
            if has_delta_index(prefix, i) {
                let k = choose|k: int| 0 <= k < prefix.len() && (#[trigger] prefix[k]).index == i;
                assert(ds[k].index == i);
            }
        }
    }
}

/// Applying the same diff in the same direction twice yields the same
/// state as applying it once: re-writing every delta's color changes
/// nothing the first application did not already write.
pub proof fn lemma_apply_deltas_idempotent(
    pixels: Seq<Color>,
    ds: Seq<SparsePixelDelta>,
    dir: DiffDirection,
)
    requires
        deltas_wf(ds, pixels.len() as int),
    ensures
        apply_deltas(apply_deltas(pixels, ds, dir), ds, dir) == apply_deltas(pixels, ds, dir),
{
    let once = apply_deltas(pixels, ds, dir);
    lemma_apply_deltas_pointwise(pixels, ds, dir);
    assert(deltas_wf(ds, once.len() as int));
    lemma_apply_deltas_pointwise(once, ds, dir);
    let twice = apply_deltas(once, ds, dir);
    assert forall|i: int| 0 <= i < pixels.len() implies twice[i] == once[i] by {
        if has_delta_index(ds, i) {
            let k = choose|k: int| 0 <= k < ds.len() && (#[trigger] ds[k]).index == i;
            assert(twice[ds[k].index as int] == delta_color(ds[k], dir));
            assert(once[ds[k].index as int] == delta_color(ds[k], dir));
        }
    }
    assert(twice =~= once);
}

/// Diff invertibility, forward first: applying a diff in `Normal` direction
/// and then in `Reverse` direction restores the state it was applied to,
/// provided that state agrees with the deltas' `before` colors — as the
/// state a diff was computed against always does.
pub proof fn lemma_diff_roundtrip_normal(pixels: Seq<Color>, ds: Seq<SparsePixelDelta>)
    requires
        deltas_wf(ds, pixels.len() as int),
        deltas_match_before(pixels, ds),
    ensures
        apply_deltas(apply_deltas(pixels, ds, DiffDirection::Normal), ds, DiffDirection::Reverse)
            == pixels,
{
    let mid = apply_deltas(pixels, ds, DiffDirection::Normal);
    lemma_apply_deltas_pointwise(pixels, ds, DiffDirection::Normal);
    assert(deltas_wf(ds, mid.len() as int));
    lemma_apply_deltas_pointwise(mid, ds, DiffDirection::Reverse);
    let back = apply_deltas(mid, ds, DiffDirection::Reverse);
    assert forall|i: int| 0 <= i < pixels.len() implies back[i] == pixels[i] by {
        if has_delta_index(ds, i) {
            let k = choose|k: int| 0 <= k < ds.len() && (#[trigger] ds[k]).index == i;
            assert(back[ds[k].index as int] == delta_color(ds[k], DiffDirection::Reverse));
        }
    }
    assert(back =~= pixels);
}

/// Diff invertibility, backward first: applying a diff in `Reverse`
/// direction and then in `Normal` direction restores the state it was
/// applied to, provided that state agrees with the deltas' `after` colors.
pub proof fn lemma_diff_roundtrip_reverse(pixels: Seq<Color>, ds: Seq<SparsePixelDelta>)
    requires
        deltas_wf(ds, pixels.len() as int),
        deltas_match_after(pixels, ds),
    ensures
        apply_deltas(apply_deltas(pixels, ds, DiffDirection::Reverse), ds, DiffDirection::Normal)
            == pixels,
{
    let mid = apply_deltas(pixels, ds, DiffDirection::Reverse);
    lemma_apply_deltas_pointwise(pixels, ds, DiffDirection::Reverse);
    assert(deltas_wf(ds, mid.len() as int));
    lemma_apply_deltas_pointwise(mid, ds, DiffDirection::Normal);
    let back = apply_deltas(mid, ds, DiffDirection::Normal);
    assert forall|i: int| 0 <= i < pixels.len() implies back[i] == pixels[i] by {
        if has_delta_index(ds, i) {
            let k = choose|k: int| 0 <= k < ds.len() && (#[trigger] ds[k]).index == i;
            assert(back[ds[k].index as int] == delta_color(ds[k], DiffDirection::Normal));
        }
    }
    assert(back =~= pixels);
}

/// The shape of a computed diff: ascending in-range indices, one delta per
/// differing pixel and none for an agreeing pixel, with `before` and `after`
/// read from the respective states.
pub proof fn lemma_diff_upto_props(before: Seq<Color>, after: Seq<Color>, n: int)
    requires
        before.len() == after.len(),
        0 <= n <= after.len(),
        n <= usize::MAX,
    ensures
        deltas_wf(diff_upto(before, after, n), n),
        deltas_match_before(before, diff_upto(before, after, n)),
        deltas_match_after(after, diff_upto(before, after, n)),
        forall|k: int|
            0 <= k < diff_upto(before, after, n).len() ==> (#[trigger] diff_upto(
                before,
                after,
                n,
            )[k]).before != diff_upto(before, after, n)[k].after,
        forall|i: int|
            0 <= i < n && before[i] != after[i] ==> has_delta_index(diff_upto(before, after, n), i),
        forall|i: int|
            0 <= i < n && before[i] == after[i] ==> !has_delta_index(diff_upto(before, after, n), i),
    decreases n,
{
    if n > 0 {
        lemma_diff_upto_props(before, after, n - 1);
        let prev = diff_upto(before, after, n - 1);
        let ds = diff_upto(before, after, n);
        assert forall|i: int| 0 <= i < n && before[i] != after[i] implies has_delta_index(
            ds,
            i,
        ) by {
            if i < n - 1 {
                let k = choose|k: int| 0 <= k < prev.len() && (#[trigger] prev[k]).index == i;
                assert(ds[k].index == i);
            } else {
                let d = SparsePixelDelta {
                    index: (n - 1) as usize,
                    before: before[n - 1],
                    after: after[n - 1],
                };
                assert(ds == prev.push(d));
                assert(ds[prev.len() as int].index == i);
            }
        }
        assert forall|i: int| 0 <= i < n && before[i] == after[i] implies !has_delta_index(
            ds,
            i,
        ) by {
            if has_delta_index(ds, i) {
                let k = choose|k: int| 0 <= k < ds.len() && (#[trigger] ds[k]).index == i;
                if before[n - 1] != after[n - 1] && k == ds.len() - 1 {
                    assert(i == n - 1);
                } else {
                    assert(has_delta_index(prev, i));
                }
            }
        }
    }
}

/// Applying the computed diff of two states to the first state, in `Normal`
/// direction, yields the second state.
pub proof fn lemma_diff_between_applies(before: Seq<Color>, after: Seq<Color>)
    requires
        before.len() == after.len(),
        after.len() <= usize::MAX,
    ensures
        deltas_wf(diff_between(before, after), before.len() as int),
        deltas_match_before(before, diff_between(before, after)),
        deltas_match_after(after, diff_between(before, after)),
        apply_deltas(before, diff_between(before, after), DiffDirection::Normal) == after,
{
    let n = after.len() as int;
    lemma_diff_upto_props(before, after, n);
    let ds = diff_between(before, after);
    lemma_apply_deltas_pointwise(before, ds, DiffDirection::Normal);
    let res = apply_deltas(before, ds, DiffDirection::Normal);
    assert forall|i: int| 0 <= i < n implies res[i] == after[i] by {
        if has_delta_index(ds, i) {
            let k = choose|k: int| 0 <= k < ds.len() && (#[trigger] ds[k]).index == i;
            assert(res[ds[k].index as int] == delta_color(ds[k], DiffDirection::Normal));
        } else {
            assert(before[i] == after[i]);
        }
    }
    assert(res =~= after);
}

/// The image buffer.
pub struct Canvas {
    data: Vec<u8>,
    width: u32,
    height: u32,
}

impl Canvas {
    /// The raw bytes, in blue, green, red, alpha order per pixel.
    pub closed spec fn bytes(&self) -> Seq<u8> {
        self.data@
    }

    pub closed spec fn spec_width(&self) -> int {
        self.width as int
    }

    pub closed spec fn spec_height(&self) -> int {
        self.height as int
    }

    /// The number of pixels.
    pub open spec fn spec_area(&self) -> int {
        self.spec_width() * self.spec_height()
    }

    /// The byte array always holds exactly `width * height` four-byte pixels;
    /// the buffer is never resized after construction.
    pub open spec fn wf(&self) -> bool {
        &&& 0 <= self.spec_width()
        &&& 0 <= self.spec_height()
        &&& self.bytes().len() == self.spec_area() * 4
        &&& self.spec_area() * 4 <= usize::MAX
    }

    /// The buffer as the sequence of its pixel colors, row-major.
    pub open spec fn pixels(&self) -> Seq<Color> {
        pixels_of(self.bytes())
    }

    /// The flat pixel index of the coordinate `(x, y)`.
    pub open spec fn spec_index_of(&self, x: int, y: int) -> int {
        y * self.spec_width() + x
    }

    pub open spec fn in_bounds(&self, x: int, y: int) -> bool {
        0 <= x < self.spec_width() && 0 <= y < self.spec_height()
    }

    /// Distinct in-bounds coordinates have distinct flat indices.
    pub proof fn lemma_index_of_injective(&self, x1: int, y1: int, x2: int, y2: int)
        requires
            self.in_bounds(x1, y1),
            self.in_bounds(x2, y2),
            !(x1 == x2 && y1 == y2),
        ensures
            self.spec_index_of(x1, y1) != self.spec_index_of(x2, y2),
    {
        let w = self.spec_width();
        assert(y1 * w + x1 != y2 * w + x2) by (nonlinear_arith)
            requires
                0 <= x1 < w && 0 <= x2 < w && (x1 != x2 || y1 != y2),
        ;
    }

    /// An in-bounds coordinate's flat index lies within the pixel count.
    pub proof fn lemma_index_in_area(&self, x: int, y: int)
        requires
            self.in_bounds(x, y),
        ensures
            0 <= self.spec_index_of(x, y) < self.spec_area(),
    {
        let w = self.spec_width();
        let h = self.spec_height();
        assert(y * w + x < (y + 1) * w <= h * w) by (nonlinear_arith)
            requires
                0 <= x < w && 0 <= y < h,
        ;
        assert(h * w == w * h) by (nonlinear_arith);
    }

    /// Allocates the buffer and fills it with opaque white.
    pub fn new(width: u32, height: u32) -> (r: Canvas)
        requires
            width * height * 4 <= usize::MAX,
        ensures
            r.wf(),
            r.spec_width() == width,
            r.spec_height() == height,
            r.pixels() == Seq::new((width * height) as nat, |i: int| Color::white()),
    {
        let area: usize = (width as usize) * (height as usize);
        let data_size: usize = area * BYTES_PER_PIXEL;
        let mut data: Vec<u8> = Vec::new();
        while data.len() < data_size
            invariant
                data@.len() <= data_size,
                forall|i: int| 0 <= i < data@.len() ==> data@[i] == 255u8,
            decreases data_size - data@.len(),
        {
            data.push(255);
        }
        let r = Canvas { data, width, height };
        proof {
            assert(r.pixels() =~= Seq::new((width * height) as nat, |i: int| Color::white()));
        }
        r
    }

    /// The number of pixels in the buffer.
    pub fn area(&self) -> (r: usize)
        requires
            self.wf(),
        ensures
            r == self.spec_area(),
    {
        (self.width as usize) * (self.height as usize)
    }

    pub fn width(&self) -> (r: u32)
        ensures
            r == self.spec_width(),
    {
        self.width
    }

    pub fn height(&self) -> (r: u32)
        ensures
            r == self.spec_height(),
    {
        self.height
    }

    /// The flat pixel index of a coordinate the caller has range-checked.
    fn index_of(&self, x: u32, y: u32) -> (idx: usize)
        requires
            self.wf(),
            self.in_bounds(x as int, y as int),
        ensures
            idx == self.spec_index_of(x as int, y as int),
            idx < self.spec_area(),
    {
        proof {
            self.lemma_index_in_area(x as int, y as int);
        }
        (y as usize) * (self.width as usize) + (x as usize)
    }

    /// The byte offset of `(x, y)`, or `None` when the coordinate is off the
    /// buffer.
    fn calc_offset(&self, x: u32, y: u32) -> (r: Option<usize>)
        requires
            self.wf(),
        ensures
            match r {
                Some(off) => self.in_bounds(x as int, y as int) && off == self.spec_index_of(
                    x as int,
                    y as int,
                ) * 4 && off + 4 <= self.bytes().len(),
                None => !self.in_bounds(x as int, y as int),
            },
    {
        if x >= self.width || y >= self.height {
            None
        } else {
            let idx = self.index_of(x, y);
            proof {
                assert(idx * 4 + 4 <= self.spec_area() * 4);
            }
            Some(idx * BYTES_PER_PIXEL)
        }
    }

    /// Reads the color at `(x, y)`, or `None` when the coordinate is off the
    /// buffer.
    pub fn try_get_at(&self, x: u32, y: u32) -> (r: Option<Color>)
        requires
            self.wf(),
        ensures
            match r {
                Some(c) => self.in_bounds(x as int, y as int) && c == self.pixels()[self
                    .spec_index_of(x as int, y as int)],
                None => !self.in_bounds(x as int, y as int),
            },
    {
        match self.calc_offset(x, y) {
            None => None,
            Some(offset) => {
                let b = self.data[offset];
                let g = self.data[offset + 1];
                let r = self.data[offset + 2];
                let a = self.data[offset + 3];
                Some(Color { r, g, b, a })
            },
        }
    }

    /// Reads the color at a coordinate the caller has already range-checked.
    pub fn get_at(&self, x: u32, y: u32) -> (r: Color)
        requires
            self.wf(),
            self.in_bounds(x as int, y as int),
        ensures
            r == self.pixels()[self.spec_index_of(x as int, y as int)],
    {
        let r = self.try_get_at(x, y);
        r.unwrap()
    }

    /// The pixel round trip, as a law over the accessors' contracts: for
    /// any valid coordinate, `set_at` leaves the buffer's pixels at
    /// `update(index, color)` and `get_at` returns the pixel at `index`, so
    /// writing a color and then reading it back yields exactly that color.
    pub proof fn law_set_then_get(&self, x: int, y: int, color: Color)
        requires
            self.wf(),
            self.in_bounds(x, y),
        ensures
            self.pixels().update(self.spec_index_of(x, y), color)[self.spec_index_of(x, y)]
                == color,
    {
        self.lemma_index_in_area(x, y);
    }

    /// Writes the four bytes of pixel `index`.
    fn write_pixel(&mut self, index: usize, color: Color)
        requires
            old(self).wf(),
            index < old(self).spec_area(),
        ensures
            final(self).wf(),
            final(self).spec_width() == old(self).spec_width(),
            final(self).spec_height() == old(self).spec_height(),
            final(self).pixels() == old(self).pixels().update(index as int, color),
    {
        proof {
            assert(index * 4 + 4 <= old(self).spec_area() * 4);
        }
        let offset = index * BYTES_PER_PIXEL;
        self.data.set(offset, color.b);
        self.data.set(offset + 1, color.g);
        self.data.set(offset + 2, color.r);
        self.data.set(offset + 3, color.a);
        proof {
            assert forall|j: int| 0 <= j < self.pixels().len() implies self.pixels()[j] == old(
                self,
            ).pixels().update(index as int, color)[j] by {
                if j != index {
                    assert(color_at(self.bytes(), j) == color_at(old(self).bytes(), j));
                }
            }
            assert(self.pixels() =~= old(self).pixels().update(index as int, color));
        }
    }

    /// Writes `color` at `(x, y)`, or returns `None` — leaving the buffer
    /// unchanged — when the coordinate is off the buffer.
    pub fn try_set_at(&mut self, x: u32, y: u32, color: Color) -> (r: Option<()>)
        requires
            old(self).wf(),
        ensures
            final(self).wf(),
            final(self).spec_width() == old(self).spec_width(),
            final(self).spec_height() == old(self).spec_height(),
            old(self).in_bounds(x as int, y as int) ==> r is Some
                && final(self).pixels() == old(self).pixels().update(
                old(self).spec_index_of(x as int, y as int),
                color,
            ),
            !old(self).in_bounds(x as int, y as int) ==> r is None
                && final(self).pixels() == old(self).pixels(),
    {
        if x < self.width && y < self.height {
            let idx = self.index_of(x, y);
            self.write_pixel(idx, color);
            Some(())
        } else {
            None
        }
    }

    /// Writes `color` at a coordinate the caller has already range-checked.
    pub fn set_at(&mut self, x: u32, y: u32, color: Color)
        requires
            old(self).wf(),
            old(self).in_bounds(x as int, y as int),
        ensures
            final(self).wf(),
            final(self).spec_width() == old(self).spec_width(),
            final(self).spec_height() == old(self).spec_height(),
            final(self).pixels() == old(self).pixels().update(
                old(self).spec_index_of(x as int, y as int),
                color,
            ),
    {
        let r = self.try_set_at(x, y, color);
    }

    /// True iff the integer coordinate lies on the canvas.
    pub fn contains_point(&self, p: crate::geometry::Point<i64>) -> (r: bool)
        ensures
            r == (0 <= p.x < self.spec_width() && 0 <= p.y < self.spec_height()),
    {
        p.x >= 0 && p.y >= 0 && p.x < self.width as i64 && p.y < self.height as i64
    }

    /// The raw bytes, blue, green, red, alpha per pixel: with the width and
    /// height this is everything an external encoder needs.
    pub fn data(&self) -> (r: &Vec<u8>)
        ensures
            r@ == self.bytes(),
    {
        &self.data
    }

    /// A full copy of the current bytes, used as the transaction shadow.
    pub fn create_shadow_data(&self) -> (r: Vec<u8>)
        ensures
            r@ == self.bytes(),
    {
        let mut shadow: Vec<u8> = Vec::new();
        self.update_shadow_data(&mut shadow);
        shadow
    }

    /// Scans the whole buffer against a shadow copy and records every pixel
    /// whose color changed, in ascending pixel index order.
    pub fn compare_shadow_data(&self, shadow_data: &Vec<u8>) -> (r: Diff)
        requires
            self.wf(),
            shadow_data@.len() == self.bytes().len(),
        ensures
            r.deltas() == diff_between(pixels_of(shadow_data@), self.pixels()),
    {
        let ghost shadow_pixels = pixels_of(shadow_data@);
        let mut deltas: Vec<SparsePixelDelta> = Vec::new();
        let area = self.area();
        let mut index: usize = 0;
        while index < area
            invariant
                self.wf(),
                shadow_data@.len() == self.bytes().len(),
                shadow_pixels == pixels_of(shadow_data@),
                area == self.spec_area(),
                index <= area,
                deltas@ == diff_upto(shadow_pixels, self.pixels(), index as int),
            decreases area - index,
        {
            proof {
                assert(index * 4 + 4 <= self.spec_area() * 4);
            }
            let left = index * BYTES_PER_PIXEL;
            let before = Color {
                r: shadow_data[left + 2],
                g: shadow_data[left + 1],
                b: shadow_data[left],
                a: shadow_data[left + 3],
            };
            let after = Color {
                r: self.data[left + 2],
                g: self.data[left + 1],
                b: self.data[left],
                a: self.data[left + 3],
            };
            proof {
                assert(before == shadow_pixels[index as int]);
                assert(after == self.pixels()[index as int]);
            }
            if before != after {
                deltas.push(SparsePixelDelta { index, before, after });
            }
            index = index + 1;
        }
        Diff::Sparse(deltas)
    }

    /// Writes every delta of the diff to the buffer: its `after` color in
    /// `Normal` direction, its `before` color in `Reverse` direction.
    pub fn apply_diff(&mut self, diff: &Diff, direction: DiffDirection)
        requires
            old(self).wf(),
            deltas_wf(diff.deltas(), old(self).spec_area()),
        ensures
            final(self).wf(),
            final(self).spec_width() == old(self).spec_width(),
            final(self).spec_height() == old(self).spec_height(),
            final(self).pixels() == apply_deltas(old(self).pixels(), diff.deltas(), direction),
    {
        match diff {
            Diff::Sparse(deltas) => {
                let mut k: usize = 0;
                while k < deltas.len()
                    invariant
                        self.wf(),
                        self.spec_width() == old(self).spec_width(),
                        self.spec_height() == old(self).spec_height(),
                        deltas_wf(deltas@, self.spec_area()),
                        k <= deltas@.len(),
                        self.pixels() == apply_deltas(
                            old(self).pixels(),
                            deltas@.take(k as int),
                            direction,
                        ),
                    decreases deltas.len() - k,
                {
                    let d = deltas[k];
                    let color = match direction {
                        DiffDirection::Normal => d.after,
                        DiffDirection::Reverse => d.before,
                    };
                    self.write_pixel(d.index, color);
                    proof {
                        let taken = deltas@.take(k as int + 1);
                        assert(taken.drop_last() =~= deltas@.take(k as int));
                        assert(taken.last() == deltas@[k as int]);
                    }
                    k = k + 1;
                }
                proof {
                    assert(deltas@.take(deltas@.len() as int) =~= deltas@);
                }
            },
        }
    }

    /// Re-encodes the buffer as red, green, blue, alpha bytes, pixel for
    /// pixel, for export to a standard image encoder.
    pub fn build_image(&self) -> (out: Vec<u8>)
        requires
            self.wf(),
        ensures
            out@.len() == self.spec_area() * 4,
            forall|i: int| 0 <= i < self.spec_area() ==> color_at_rgba(out@, i) == self.pixels()[i],
    {
        let mut out: Vec<u8> = Vec::new();
        let area = self.area();
        let mut index: usize = 0;
        while index < area
            invariant
                self.wf(),
                area == self.spec_area(),
                index <= area,
                out@.len() == index * 4,
                forall|i: int| 0 <= i < index ==> color_at_rgba(out@, i) == self.pixels()[i],
            decreases area - index,
        {
            proof {
                assert(index * 4 + 4 <= self.spec_area() * 4);
            }
            let left = index * BYTES_PER_PIXEL;
            let ghost prior = out@;
            out.push(self.data[left + 2]);
            out.push(self.data[left + 1]);
            out.push(self.data[left]);
            out.push(self.data[left + 3]);
            proof {
                assert forall|i: int| 0 <= i < index + 1 implies color_at_rgba(out@, i)
                    == self.pixels()[i] by {
                    if i < index {
                        assert(color_at_rgba(out@, i) == color_at_rgba(prior, i));
                    } else {
                        assert(out@[4 * i] == self.bytes()[4 * i + 2]);
                        assert(out@[4 * i + 1] == self.bytes()[4 * i + 1]);
                        assert(out@[4 * i + 2] == self.bytes()[4 * i]);
                        assert(out@[4 * i + 3] == self.bytes()[4 * i + 3]);
                    }
                }
            }
            index = index + 1;
        }
        out
    }

    /// Overwrites `shadow_data` with a copy of the current bytes.
    pub fn update_shadow_data(&self, shadow_data: &mut Vec<u8>)
        ensures
            final(shadow_data)@ == self.bytes(),
    {
        shadow_data.clear();
        let mut i: usize = 0;
        while i < self.data.len()
            invariant
                i <= self.data.len(),
                shadow_data@ == self.data@.take(i as int),
            decreases self.data.len() - i,
        {
            shadow_data.push(self.data[i]);
            proof {
                assert(self.data@.take(i as int + 1) =~= self.data@.take(i as int).push(
                    self.data@[i as int],
                ));
            }
            i = i + 1;
        }
        proof {
            assert(self.data@.take(self.data@.len() as int) =~= self.data@);
        }
    }
}

} // verus!
