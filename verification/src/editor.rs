//! The editor: the pixel buffer, the undo/redo history and the viewport
//! transform composed into transactional editing operations.
//!
//! A transaction is bounded by `begin` and `end`: `begin` snapshots the
//! buffer into a shadow copy, `end` diffs the live buffer against the shadow
//! and records exactly one history entry. Undo and redo apply recorded diffs
//! backward and forward and are refused while a transaction is open.
//!
//! The viewport state is exact: the canvas point shown at the viewport
//! center is kept as a pair of integer numerators over the denominator
//! `2 * scale`, and every zoom and scroll step is integer arithmetic on
//! that grid. Zooming is anchored: the caller names a canvas point that
//! stays visually fixed, and the new center is computed so that it does,
//! exactly. The screen mapping matches what is drawn: the renderer places
//! the canvas origin at the left-top offset rounded to whole screen pixels,
//! and the inverse transform subtracts that same rounded offset.

use vstd::prelude::*;

use crate::canvas::{
    apply_deltas, deltas_match_before, deltas_wf, diff_between, pixels_of, Canvas, Color,
};
use crate::geometry::{Point, Rectangle, Scale, SubpixelPoint};
use crate::history::{DiffDirection, History, SparsePixelDelta};

verus! {

/// Largest accepted canvas width or height: keeps every intermediate of the
/// exact transform arithmetic far inside `i64`.
pub const MAX_CANVAS_DIM: u32 = 16777216;

/// Largest accepted screen dimension or screen coordinate magnitude.
pub const MAX_SCREEN_DIM: u32 = 16777216;

/// Largest magnitude of a stationary-point coordinate handed to a zoom step.
pub const MAX_ANCHOR: i64 = 33554432;

/// Why an undo or redo was refused.
#[derive(Debug, Clone, Copy, PartialEq, Eq, Structural)]
pub enum TimeMachineError {
    /// A transaction is open; history may not observe a half-finished edit.
    TransactionInProgress,
    /// There is nothing left to undo (or redo) in that direction.
    AlreadyAtTimeEdge,
}

/// A screen position carried into canvas space, classified for the tools:
/// on the canvas, off the canvas but inside the window, or off the window.
#[derive(Debug, Clone, Copy, PartialEq, Eq, Structural)]
pub enum TranslatedPoint {
    WithinCanvas(SubpixelPoint),
    OutsideCanvas(SubpixelPoint),
    OutsideWindow,
}

impl TranslatedPoint {
    /// The carried canvas position; meaningless for `OutsideWindow`.
    pub open spec fn spec_point(self) -> SubpixelPoint {
        match self {
            TranslatedPoint::WithinCanvas(p) => p,
            TranslatedPoint::OutsideCanvas(p) => p,
            TranslatedPoint::OutsideWindow => arbitrary(),
        }
    }

    pub fn point(self) -> (r: Option<SubpixelPoint>)
        ensures
            match self {
                TranslatedPoint::WithinCanvas(p) => r == Some(p),
                TranslatedPoint::OutsideCanvas(p) => r == Some(p),
                TranslatedPoint::OutsideWindow => r is None,
            },
    {
        match self {
            TranslatedPoint::WithinCanvas(p) => Some(p),
            TranslatedPoint::OutsideCanvas(p) => Some(p),
            TranslatedPoint::OutsideWindow => None,
        }
    }
}

/// The all-white pixel state a fresh `width` by `height` buffer starts in.
pub open spec fn white_pixels(w: int, h: int) -> Seq<Color> {
    Seq::new((w * h) as nat, |i: int| Color::white())
}

/// The buffer state after the first `i` recorded diffs, starting from the
/// all-white initial state.
pub open spec fn state_at(w: int, h: int, entries: Seq<Seq<SparsePixelDelta>>, i: int) -> Seq<
    Color,
>
    decreases i,
{
    if i <= 0 {
        white_pixels(w, h)
    } else {
        apply_deltas(state_at(w, h, entries, i - 1), entries[i - 1], DiffDirection::Normal)
    }
}

/// The recorded diffs form a consistent chain: each is well-formed for the
/// buffer and was computed against exactly the state its predecessors build.
pub open spec fn chain_wf(w: int, h: int, entries: Seq<Seq<SparsePixelDelta>>) -> bool {
    forall|i: int|
        0 <= i < entries.len() ==> deltas_wf(#[trigger] entries[i], w * h)
            && deltas_match_before(state_at(w, h, entries, i), entries[i])
}

/// Every state in a chain of well-formed diffs has the buffer's area.
pub proof fn lemma_state_at_len(w: int, h: int, entries: Seq<Seq<SparsePixelDelta>>, i: int)
    requires
        0 <= i <= entries.len(),
        forall|j: int| 0 <= j < entries.len() ==> deltas_wf(#[trigger] entries[j], w * h),
        w * h >= 0,
    ensures
        state_at(w, h, entries, i).len() == w * h,
    decreases i,
{
    if i > 0 {
        lemma_state_at_len(w, h, entries, i - 1);
        crate::canvas::lemma_apply_deltas_pointwise(
            state_at(w, h, entries, i - 1),
            entries[i - 1],
            DiffDirection::Normal,
        );
    }
}

/// `state_at` reads only the first `i` entries, so histories that agree on
/// that prefix agree on the state.
pub proof fn lemma_state_at_prefix(
    w: int,
    h: int,
    e1: Seq<Seq<SparsePixelDelta>>,
    e2: Seq<Seq<SparsePixelDelta>>,
    i: int,
)
    requires
        0 <= i <= e1.len(),
        i <= e2.len(),
        forall|j: int| 0 <= j < i ==> e1[j] == e2[j],
    ensures
        state_at(w, h, e1, i) == state_at(w, h, e2, i),
    decreases i,
{
    if i > 0 {
        lemma_state_at_prefix(w, h, e1, e2, i - 1);
    }
}

/// Clamps a value into `[lo, hi]`.
pub open spec fn clamp_int(v: int, lo: int, hi: int) -> int {
    if v < lo {
        lo
    } else if v > hi {
        hi
    } else {
        v
    }
}

/// The center numerator after an anchored zoom step, before clamping.
///
/// With the center at `cn / (2 * s0)` and the zoom changing from `s0` to
/// `s1`, keeping the canvas point `p` stationary puts the new center at
/// `p - (s0 / s1) * (p - c0)`, whose numerator over `2 * s1` is exactly
/// this value.
pub open spec fn rescale_center_num(cn: int, s0: int, s1: int, p: int) -> int {
    2 * (s1 - s0) * p + cn
}

/// Numerator over 2 of the exact left-top offset: the screen coordinate of
/// the canvas origin is `screen_dim / 2 - scale * center`, which is
/// `(screen_dim - cn) / 2` for a center numerator `cn` over `2 * scale`.
pub open spec fn offset_num2(screen_dim: int, cn: int) -> int {
    screen_dim - cn
}

/// The ideal inverse transform on one axis, on numerators: a screen
/// position given in half screen pixels (`q2 / 2` screen pixels) maps to
/// the canvas value `(q2 - screen_dim + cn) / (2 * scale)`; this is that
/// numerator. The anchored-zoom identity holds of this exact inverse.
pub open spec fn translate_num(q2: int, screen_dim: int, cn: int) -> int {
    q2 - screen_dim + cn
}

/// The inverse transform the editor ships, on numerators: the renderer
/// places the canvas origin at the left-top offset rounded to whole screen
/// pixels, and the inverse subtracts that same rounded offset before
/// dividing by the scale. It stays within one numerator step of the ideal
/// `translate_num`.
pub open spec fn translate_rounded_num(q2: int, screen_dim: int, cn: int) -> int {
    q2 - 2 * round_half_num(offset_num2(screen_dim, cn))
}

/// The forward transform on one axis, on numerators: the canvas point `p`
/// projects to the screen position `scale * (p - center) + screen_dim / 2`,
/// which is this value in half screen pixels.
pub open spec fn projection_num2(p: int, s: int, cn: int, screen_dim: int) -> int {
    2 * s * p - cn + screen_dim
}

/// `n2 / 2` rounded to the nearest integer, halves away from zero.
pub open spec fn round_half_num(n2: int) -> int {
    if n2 >= 0 {
        (n2 + 1) / 2
    } else {
        -((-n2 + 1) / 2)
    }
}

/// `n / d` rounded to the nearest integer for an even positive `d`, halves
/// away from zero.
pub open spec fn round_div_num(n: int, d: int) -> int {
    if n >= 0 {
        (n + d / 2) / d
    } else {
        -((-n + d / 2) / d)
    }
}

fn clamp_i128(v: i128, lo: i128, hi: i128) -> (r: i128)
    requires
        lo <= hi,
    ensures
        r == clamp_int(v as int, lo as int, hi as int),
{
    if v < lo {
        lo
    } else if v > hi {
        hi
    } else {
        v
    }
}

fn clamp_i64(v: i64, lo: i64, hi: i64) -> (r: i64)
    requires
        lo <= hi,
    ensures
        r == clamp_int(v as int, lo as int, hi as int),
{
    if v < lo {
        lo
    } else if v > hi {
        hi
    } else {
        v
    }
}

fn round_half(n2: i64) -> (r: i64)
    requires
        -0x2000_0000_0000_0000 < n2 < 0x2000_0000_0000_0000,
    ensures
        r == round_half_num(n2 as int),
{
    if n2 >= 0 {
        (n2 + 1) / 2
    } else {
        -((-n2 + 1) / 2)
    }
}

fn round_div(n: i64, d: i64) -> (r: i64)
    requires
        d >= 1,
        -0x2000_0000_0000_0000 < n < 0x2000_0000_0000_0000,
        d < 0x2000_0000_0000_0000,
    ensures
        r == round_div_num(n as int, d as int),
{
    if n >= 0 {
        (n + d / 2) / d
    } else {
        -((-n + d / 2) / d)
    }
}

/// The editor.
pub struct Editor {
    canvas: Canvas,
    shadow_data: Vec<u8>,
    history: History,
    in_transaction: bool,
    scale: Scale,
    center_num_x: i64,
    center_num_y: i64,
}

impl Editor {
    pub closed spec fn spec_canvas(&self) -> Canvas {
        self.canvas
    }

    /// The live buffer's pixels.
    pub open spec fn pixels(&self) -> Seq<Color> {
        self.spec_canvas().pixels()
    }

    pub open spec fn spec_width(&self) -> int {
        self.spec_canvas().spec_width()
    }

    pub open spec fn spec_height(&self) -> int {
        self.spec_canvas().spec_height()
    }

    pub closed spec fn shadow(&self) -> Seq<u8> {
        self.shadow_data@
    }

    pub closed spec fn spec_history(&self) -> History {
        self.history
    }

    /// The recorded diffs, oldest first.
    pub open spec fn entries(&self) -> Seq<Seq<SparsePixelDelta>> {
        self.spec_history().entries()
    }

    /// How many recorded diffs are currently applied.
    pub open spec fn cursor(&self) -> int {
        self.spec_history().spec_cursor()
    }

    pub closed spec fn spec_in_transaction(&self) -> bool {
        self.in_transaction
    }

    pub closed spec fn spec_scale(&self) -> Scale {
        self.scale
    }

    /// Numerator of the center's x coordinate over `2 * scale`.
    pub closed spec fn center_x(&self) -> int {
        self.center_num_x as int
    }

    /// Numerator of the center's y coordinate over `2 * scale`.
    pub closed spec fn center_y(&self) -> int {
        self.center_num_y as int
    }

    /// The denominator the center numerators — and every translated
    /// coordinate — are expressed over.
    pub open spec fn den(&self) -> int {
        2 * self.spec_scale().factor()
    }

    /// The two editors show the same document history and buffer.
    pub open spec fn same_document(a: Editor, b: Editor) -> bool {
        &&& a.pixels() == b.pixels()
        &&& a.entries() == b.entries()
        &&& a.cursor() == b.cursor()
        &&& a.spec_in_transaction() == b.spec_in_transaction()
    }

    /// The two editors show the same viewport transform.
    pub open spec fn same_transform(a: Editor, b: Editor) -> bool {
        &&& a.spec_scale() == b.spec_scale()
        &&& a.center_x() == b.center_x()
        &&& a.center_y() == b.center_y()
    }

    pub open spec fn dims_eq(a: Editor, b: Editor) -> bool {
        a.spec_width() == b.spec_width() && a.spec_height() == b.spec_height()
    }

    /// The editor's invariant. Besides structural well-formedness it ties
    /// the live buffer to the history: outside a transaction the buffer is
    /// exactly the state the applied diffs build from the initial all-white
    /// buffer; inside one, the shadow copy is.
    pub open spec fn wf(&self) -> bool {
        &&& self.spec_canvas().wf()
        &&& self.spec_width() <= MAX_CANVAS_DIM
        &&& self.spec_height() <= MAX_CANVAS_DIM
        &&& self.spec_scale().wf()
        &&& self.spec_scale().factor() <= u32::MAX
        &&& 0 <= self.center_x() <= self.den() * self.spec_width()
        &&& 0 <= self.center_y() <= self.den() * self.spec_height()
        &&& self.spec_history().wf()
        &&& chain_wf(self.spec_width(), self.spec_height(), self.entries())
        &&& self.spec_in_transaction() ==> self.shadow().len() == self.spec_canvas().bytes().len()
            && pixels_of(self.shadow()) == state_at(
            self.spec_width(),
            self.spec_height(),
            self.entries(),
            self.cursor(),
        )
        &&& !self.spec_in_transaction() ==> self.pixels() == state_at(
            self.spec_width(),
            self.spec_height(),
            self.entries(),
            self.cursor(),
        )
    }

    /// Numeric bounds on the center numerators that follow from the
    /// invariant: handy for overflow reasoning in the transform arithmetic.
    pub proof fn lemma_center_bounds(e: Editor)
        requires
            e.wf(),
        ensures
            0 <= e.center_x() <= 0x200_0000_0000_0000,
            0 <= e.center_y() <= 0x200_0000_0000_0000,
    {
        let s = e.spec_scale().factor();
        let w = e.spec_width();
        let h = e.spec_height();
        assert(2 * s * w <= 0x200_0000_0000_0000 && 2 * s * h <= 0x200_0000_0000_0000)
            by (nonlinear_arith)
            requires
                1 <= s <= 0x1_0000_0000 && 0 <= w <= 0x100_0000 && 0 <= h <= 0x100_0000,
        ;
    }

    /// A fresh editor: an all-white canvas, an empty history, 100% zoom and
    /// the view centered on the middle of the canvas.
    pub fn new(width: u32, height: u32) -> (r: Editor)
        requires
            width <= MAX_CANVAS_DIM,
            height <= MAX_CANVAS_DIM,
            width * height * 4 <= usize::MAX,
        ensures
            r.wf(),
            r.spec_width() == width,
            r.spec_height() == height,
            r.pixels() == white_pixels(width as int, height as int),
            r.entries().len() == 0,
            r.cursor() == 0,
            !r.spec_in_transaction(),
            r.spec_scale() == Scale::Times(1),
            r.center_x() == width,
            r.center_y() == height,
    {
        let canvas = Canvas::new(width, height);
        let shadow_data = canvas.create_shadow_data();
        let history = History::new();
        let r = Editor {
            canvas,
            shadow_data,
            history,
            in_transaction: false,
            scale: Scale::Times(1),
            center_num_x: width as i64,
            center_num_y: height as i64,
        };
        proof {
            assert(r.pixels() =~= white_pixels(width as int, height as int));
            assert(r.spec_scale().factor() == 1);
            assert(r.den() == 2);
            assert(r.center_x() == width as int && width as int <= 2 * (width as int));
            assert(r.center_y() == height as int && height as int <= 2 * (height as int));
        }
        r
    }

    /// A read-only view of the pixel buffer.
    pub fn canvas(&self) -> (r: &Canvas)
        ensures
            *r == self.spec_canvas(),
    {
        &self.canvas
    }

    /// A read-only view of the undo/redo history.
    pub fn history(&self) -> (r: &History)
        ensures
            *r == self.spec_history(),
    {
        &self.history
    }

    pub fn in_transaction(&self) -> (r: bool)
        ensures
            r == self.spec_in_transaction(),
    {
        self.in_transaction
    }

    pub fn scale(&self) -> (r: Scale)
        ensures
            r == self.spec_scale(),
    {
        self.scale
    }

    /// Opens a transaction: snapshots the live buffer into the shadow copy.
    /// Only one transaction may be open at a time; a nested `begin` is a
    /// caller contract violation.
    pub fn begin(&mut self)
        requires
            old(self).wf(),
            !old(self).spec_in_transaction(),
        ensures
            final(self).wf(),
            final(self).spec_in_transaction(),
            Editor::same_transform(*old(self), *final(self)),
            Editor::dims_eq(*old(self), *final(self)),
            final(self).pixels() == old(self).pixels(),
            final(self).entries() == old(self).entries(),
            final(self).cursor() == old(self).cursor(),
    {
        let canvas = &self.canvas;
        canvas.update_shadow_data(&mut self.shadow_data);
        self.in_transaction = true;
    }

    /// Closes the transaction: diffs the live buffer against the shadow and
    /// records the diff — exactly one history entry, empty or not — after
    /// discarding any stale redo-able future.
    pub fn end(&mut self)
        requires
            old(self).wf(),
            old(self).spec_in_transaction(),
        ensures
            final(self).wf(),
            !final(self).spec_in_transaction(),
            Editor::same_transform(*old(self), *final(self)),
            Editor::dims_eq(*old(self), *final(self)),
            final(self).pixels() == old(self).pixels(),
            final(self).entries() == old(self).entries().take(old(self).cursor()).push(
                diff_between(
                    state_at(
                        old(self).spec_width(),
                        old(self).spec_height(),
                        old(self).entries(),
                        old(self).cursor(),
                    ),
                    old(self).pixels(),
                ),
            ),
            final(self).cursor() == old(self).cursor() + 1,
    {
        let diff = self.canvas.compare_shadow_data(&self.shadow_data);
        let ghost w = self.spec_width();
        let ghost h = self.spec_height();
        let ghost shadow_pixels = pixels_of(self.shadow());
        let ghost live = self.pixels();
        let ghost prior = self.entries();
        let ghost cur = self.cursor();
        self.history.record(diff);
        self.in_transaction = false;
        proof {
            let ds = diff_between(shadow_pixels, live);
            let now = self.entries();
            assert(shadow_pixels.len() == live.len()) by {
                assert(self.spec_canvas().wf());
            }
            crate::canvas::lemma_diff_between_applies(shadow_pixels, live);
            assert forall|i: int|
                0 <= i < now.len() implies deltas_wf(#[trigger] now[i], w * h)
                && deltas_match_before(state_at(w, h, now, i), now[i]) by {
                if i < cur {
                    assert(now[i] == prior[i]);
                    lemma_state_at_prefix(w, h, now, prior, i);
                } else {
                    assert(now[i] == ds);
                    lemma_state_at_prefix(w, h, now, prior, cur);
                    assert(state_at(w, h, now, cur) == shadow_pixels);
                    assert(shadow_pixels.len() == w * h) by {
                        assert(live.len() == w * h);
                    }
                }
            }
            lemma_state_at_prefix(w, h, now, prior, cur);
            assert(state_at(w, h, now, cur + 1) == apply_deltas(
                shadow_pixels,
                ds,
                DiffDirection::Normal,
            ));
            assert(state_at(w, h, now, cur + 1) == live);
        }
    }

    /// Writes a pixel of the live buffer during a transaction. Off-buffer
    /// coordinates are refused with `None` and change nothing.
    pub fn try_set_pixel(&mut self, x: u32, y: u32, color: Color) -> (r: Option<()>)
        requires
            old(self).wf(),
            old(self).spec_in_transaction(),
        ensures
            final(self).wf(),
            final(self).spec_in_transaction(),
            Editor::same_transform(*old(self), *final(self)),
            Editor::dims_eq(*old(self), *final(self)),
            final(self).entries() == old(self).entries(),
            final(self).cursor() == old(self).cursor(),
            old(self).spec_canvas().in_bounds(x as int, y as int) ==> r is Some
                && final(self).pixels() == old(self).pixels().update(
                old(self).spec_canvas().spec_index_of(x as int, y as int),
                color,
            ),
            !old(self).spec_canvas().in_bounds(x as int, y as int) ==> r is None
                && final(self).pixels() == old(self).pixels(),
    {
        self.canvas.try_set_at(x, y, color)
    }

    /// Steps one diff into the past and applies it to the buffer in
    /// `Reverse` direction. Refused while a transaction is open, and at the
    /// beginning of the timeline.
    pub fn undo(&mut self) -> (r: Result<(), TimeMachineError>)
        requires
            old(self).wf(),
        ensures
            final(self).wf(),
            Editor::same_transform(*old(self), *final(self)),
            Editor::dims_eq(*old(self), *final(self)),
            final(self).entries() == old(self).entries(),
            final(self).spec_in_transaction() == old(self).spec_in_transaction(),
            old(self).spec_in_transaction() ==> r == Err::<(), TimeMachineError>(
                TimeMachineError::TransactionInProgress,
            ) && Editor::same_document(*old(self), *final(self)),
            !old(self).spec_in_transaction() && old(self).cursor() == 0 ==> r == Err::<
                (),
                TimeMachineError,
            >(TimeMachineError::AlreadyAtTimeEdge) && Editor::same_document(
                *old(self),
                *final(self),
            ),
            !old(self).spec_in_transaction() && old(self).cursor() > 0 ==> r == Ok::<
                (),
                TimeMachineError,
            >(()) && final(self).cursor() == old(self).cursor() - 1 && final(self).pixels()
                == state_at(
                old(self).spec_width(),
                old(self).spec_height(),
                old(self).entries(),
                old(self).cursor() - 1,
            ),
    {
        if self.in_transaction {
            return Err(TimeMachineError::TransactionInProgress);
        }
        let ghost w = self.spec_width();
        let ghost h = self.spec_height();
        let ghost cur = self.cursor();
        match self.history.undo() {
            None => Err(TimeMachineError::AlreadyAtTimeEdge),
            Some(diff) => {
                proof {
                    assert(deltas_wf(diff.deltas(), w * h));
                    lemma_state_at_len(w, h, self.entries(), cur - 1);
                    crate::canvas::lemma_diff_roundtrip_normal(
                        state_at(w, h, self.entries(), cur - 1),
                        diff.deltas(),
                    );
                }
                self.canvas.apply_diff(&diff, DiffDirection::Reverse);
                Ok(())
            },
        }
    }

    /// Steps one diff into the future and applies it to the buffer in
    /// `Normal` direction. Refused while a transaction is open, and at the
    /// end of the timeline.
    pub fn redo(&mut self) -> (r: Result<(), TimeMachineError>)
        requires
            old(self).wf(),
        ensures
            final(self).wf(),
            Editor::same_transform(*old(self), *final(self)),
            Editor::dims_eq(*old(self), *final(self)),
            final(self).entries() == old(self).entries(),
            final(self).spec_in_transaction() == old(self).spec_in_transaction(),
            old(self).spec_in_transaction() ==> r == Err::<(), TimeMachineError>(
                TimeMachineError::TransactionInProgress,
            ) && Editor::same_document(*old(self), *final(self)),
            !old(self).spec_in_transaction() && old(self).cursor() == old(self).entries().len()
                ==> r == Err::<(), TimeMachineError>(TimeMachineError::AlreadyAtTimeEdge)
                && Editor::same_document(*old(self), *final(self)),
            !old(self).spec_in_transaction() && old(self).cursor() < old(self).entries().len()
                ==> r == Ok::<(), TimeMachineError>(()) && final(self).cursor() == old(
                self,
            ).cursor() + 1 && final(self).pixels() == state_at(
                old(self).spec_width(),
                old(self).spec_height(),
                old(self).entries(),
                old(self).cursor() + 1,
            ),
    {
        if self.in_transaction {
            return Err(TimeMachineError::TransactionInProgress);
        }
        let ghost w = self.spec_width();
        let ghost h = self.spec_height();
        let ghost cur = self.cursor();
        match self.history.redo() {
            None => Err(TimeMachineError::AlreadyAtTimeEdge),
            Some(diff) => {
                proof {
                    assert(deltas_wf(diff.deltas(), w * h));
                }
                self.canvas.apply_diff(&diff, DiffDirection::Normal);
                Ok(())
            },
        }
    }

    /// Translates the center by `(delta_x, delta_y)` canvas units, then
    /// clamps it per axis into the canvas: on the numerator grid over
    /// `2 * scale`, one canvas unit is `2 * scale` numerator steps.
    pub fn scroll(&mut self, delta_x: i32, delta_y: i32)
        requires
            old(self).wf(),
        ensures
            final(self).wf(),
            Editor::same_document(*old(self), *final(self)),
            Editor::dims_eq(*old(self), *final(self)),
            final(self).spec_scale() == old(self).spec_scale(),
            final(self).center_x() == clamp_int(
                old(self).center_x() + old(self).den() * delta_x,
                0,
                old(self).den() * old(self).spec_width(),
            ),
            final(self).center_y() == clamp_int(
                old(self).center_y() + old(self).den() * delta_y,
                0,
                old(self).den() * old(self).spec_height(),
            ),
    {
        let s = self.scale.times() as i128;
        let w = self.canvas.width() as i128;
        let h = self.canvas.height() as i128;
        let dx = delta_x as i128;
        let dy = delta_y as i128;
        proof {
            Editor::lemma_center_bounds(*self);
            assert(0 <= 2 * s * w <= 0x200_0000_0000_0000 && 0 <= 2 * s * h
                <= 0x200_0000_0000_0000 && -0x2_0000_0000_0000_0000 <= 2 * s * dx
                <= 0x2_0000_0000_0000_0000 && -0x2_0000_0000_0000_0000 <= 2 * s * dy
                <= 0x2_0000_0000_0000_0000) by (nonlinear_arith)
                requires
                    1 <= s <= 0x1_0000_0000i128 && 0 <= w <= 0x100_0000i128 && 0 <= h
                        <= 0x100_0000i128 && -0x8000_0000i128 <= dx <= 0x8000_0000i128
                        && -0x8000_0000i128 <= dy <= 0x8000_0000i128,
            ;
        }
        let nx = clamp_i128(self.center_num_x as i128 + 2 * s * dx, 0, 2 * s * w);
        let ny = clamp_i128(self.center_num_y as i128 + 2 * s * dy, 0, 2 * s * h);
        self.center_num_x = nx as i64;
        self.center_num_y = ny as i64;
    }

    /// Moves the center so that the canvas point `p` keeps its exact screen
    /// position across the zoom change, then clamps it into the canvas.
    fn rescale(&mut self, new_scale: Scale, p: Point<i64>)
        requires
            old(self).wf(),
            new_scale.wf(),
            new_scale.factor() <= u32::MAX,
            -MAX_ANCHOR <= p.x <= MAX_ANCHOR,
            -MAX_ANCHOR <= p.y <= MAX_ANCHOR,
        ensures
            final(self).wf(),
            Editor::same_document(*old(self), *final(self)),
            Editor::dims_eq(*old(self), *final(self)),
            final(self).spec_scale() == new_scale,
            final(self).center_x() == clamp_int(
                rescale_center_num(
                    old(self).center_x(),
                    old(self).spec_scale().factor(),
                    new_scale.factor(),
                    p.x as int,
                ),
                0,
                2 * new_scale.factor() * old(self).spec_width(),
            ),
            final(self).center_y() == clamp_int(
                rescale_center_num(
                    old(self).center_y(),
                    old(self).spec_scale().factor(),
                    new_scale.factor(),
                    p.y as int,
                ),
                0,
                2 * new_scale.factor() * old(self).spec_height(),
            ),
    {
        let s0 = self.scale.times() as i64;
        let s1 = new_scale.times() as i64;
        let w = self.canvas.width() as i64;
        let h = self.canvas.height() as i64;
        proof {
            Editor::lemma_center_bounds(*self);
            assert(-0x400_0000_0000_0000 <= 2 * (s1 - s0) * p.x <= 0x400_0000_0000_0000
                && -0x400_0000_0000_0000 <= 2 * (s1 - s0) * p.y <= 0x400_0000_0000_0000 && 2 * s1
                * w <= 0x200_0000_0000_0000 && 2 * s1 * h <= 0x200_0000_0000_0000)
                by (nonlinear_arith)
                requires
                    1 <= s0 <= 0x1_0000_0000i64 && 1 <= s1 <= 0x1_0000_0000i64 && 0 <= w
                        <= 0x100_0000i64 && 0 <= h <= 0x100_0000i64 && -0x200_0000i64 <= p.x
                        <= 0x200_0000i64 && -0x200_0000i64 <= p.y <= 0x200_0000i64,
            ;
        }
        let nx = 2 * (s1 - s0) * p.x + self.center_num_x;
        let ny = 2 * (s1 - s0) * p.y + self.center_num_y;
        self.center_num_x = clamp_i64(nx, 0, 2 * s1 * w);
        self.center_num_y = clamp_i64(ny, 0, 2 * s1 * h);
        self.scale = new_scale;
    }

    /// Steps the zoom factor up by one, anchored at the given canvas point.
    pub fn scale_up(&mut self, stationary_point: Point<i64>) -> (r: Option<Scale>)
        requires
            old(self).wf(),
            old(self).spec_scale().factor() < u32::MAX,
            -MAX_ANCHOR <= stationary_point.x <= MAX_ANCHOR,
            -MAX_ANCHOR <= stationary_point.y <= MAX_ANCHOR,
        ensures
            final(self).wf(),
            Editor::same_document(*old(self), *final(self)),
            Editor::dims_eq(*old(self), *final(self)),
            final(self).spec_scale().factor() == old(self).spec_scale().factor() + 1,
            r == Some(final(self).spec_scale()),
            final(self).center_x() == clamp_int(
                rescale_center_num(
                    old(self).center_x(),
                    old(self).spec_scale().factor(),
                    old(self).spec_scale().factor() + 1,
                    stationary_point.x as int,
                ),
                0,
                2 * (old(self).spec_scale().factor() + 1) * old(self).spec_width(),
            ),
            final(self).center_y() == clamp_int(
                rescale_center_num(
                    old(self).center_y(),
                    old(self).spec_scale().factor(),
                    old(self).spec_scale().factor() + 1,
                    stationary_point.y as int,
                ),
                0,
                2 * (old(self).spec_scale().factor() + 1) * old(self).spec_height(),
            ),
    {
        let n = self.scale.times();
        let new_scale = Scale::Times(n + 1);
        self.rescale(new_scale, stationary_point);
        Some(new_scale)
    }

    /// Steps the zoom factor down by one, anchored at the given canvas
    /// point. At `Times(1)` — the floor, no zoom below 100% — this is a
    /// no-op that reports "no change" as `None`.
    pub fn scale_down(&mut self, stationary_point: Point<i64>) -> (r: Option<Scale>)
        requires
            old(self).wf(),
            old(self).spec_scale().factor() > 1 ==> -MAX_ANCHOR <= stationary_point.x <= MAX_ANCHOR
                && -MAX_ANCHOR <= stationary_point.y <= MAX_ANCHOR,
        ensures
            final(self).wf(),
            Editor::same_document(*old(self), *final(self)),
            Editor::dims_eq(*old(self), *final(self)),
            old(self).spec_scale().factor() == 1 ==> r is None && Editor::same_transform(
                *old(self),
                *final(self),
            ),
            old(self).spec_scale().factor() > 1 ==> {
                &&& final(self).spec_scale().factor() == old(self).spec_scale().factor() - 1
                &&& r == Some(final(self).spec_scale())
                &&& final(self).center_x() == clamp_int(
                    rescale_center_num(
                        old(self).center_x(),
                        old(self).spec_scale().factor(),
                        old(self).spec_scale().factor() - 1,
                        stationary_point.x as int,
                    ),
                    0,
                    2 * (old(self).spec_scale().factor() - 1) * old(self).spec_width(),
                )
                &&& final(self).center_y() == clamp_int(
                    rescale_center_num(
                        old(self).center_y(),
                        old(self).spec_scale().factor(),
                        old(self).spec_scale().factor() - 1,
                        stationary_point.y as int,
                    ),
                    0,
                    2 * (old(self).spec_scale().factor() - 1) * old(self).spec_height(),
                )
            },
    {
        let n = self.scale.times();
        if n == 1 {
            None
        } else {
            let new_scale = Scale::Times(n - 1);
            self.rescale(new_scale, stationary_point);
            Some(new_scale)
        }
    }

    /// The exact screen position of the canvas origin, in half screen
    /// pixels: `screen_dim / 2 - scale * center` on each axis.
    pub fn get_left_top_offset(&self, screen_width: u32, screen_height: u32) -> (r: Point<i64>)
        requires
            self.wf(),
            screen_width <= MAX_SCREEN_DIM,
            screen_height <= MAX_SCREEN_DIM,
        ensures
            r.x == offset_num2(screen_width as int, self.center_x()),
            r.y == offset_num2(screen_height as int, self.center_y()),
    {
        proof {
            Editor::lemma_center_bounds(*self);
        }
        Point {
            x: screen_width as i64 - self.center_num_x,
            y: screen_height as i64 - self.center_num_y,
        }
    }

    /// The screen position of the canvas origin rounded to whole screen
    /// pixels, halves away from zero: what a renderer blits at.
    pub fn get_left_top_offset_rounded(&self, screen_width: u32, screen_height: u32) -> (r: Point<
        i64,
    >)
        requires
            self.wf(),
            screen_width <= MAX_SCREEN_DIM,
            screen_height <= MAX_SCREEN_DIM,
        ensures
            r.x == round_half_num(offset_num2(screen_width as int, self.center_x())),
            r.y == round_half_num(offset_num2(screen_height as int, self.center_y())),
    {
        proof {
            Editor::lemma_center_bounds(*self);
        }
        let off = self.get_left_top_offset(screen_width, screen_height);
        Point { x: round_half(off.x), y: round_half(off.y) }
    }

    /// The inverse transform: carries a whole-pixel screen coordinate into
    /// canvas space as a position on the `1 / (2 * scale)` grid, by
    /// subtracting the rounded left-top offset — the one the renderer
    /// actually blits at — and dividing by the scale.
    pub fn translate_to_image_point(
        &self,
        point: Point<i64>,
        screen_width: u32,
        screen_height: u32,
    ) -> (r: SubpixelPoint)
        requires
            self.wf(),
            screen_width <= MAX_SCREEN_DIM,
            screen_height <= MAX_SCREEN_DIM,
            -(MAX_SCREEN_DIM as i64) <= point.x <= MAX_SCREEN_DIM as i64,
            -(MAX_SCREEN_DIM as i64) <= point.y <= MAX_SCREEN_DIM as i64,
        ensures
            r.wf(),
            r.den == self.den(),
            r.num_x == translate_rounded_num(2 * point.x, screen_width as int, self.center_x()),
            r.num_y == translate_rounded_num(2 * point.y, screen_height as int, self.center_y()),
    {
        proof {
            Editor::lemma_center_bounds(*self);
        }
        let offset = self.get_left_top_offset_rounded(screen_width, screen_height);
        proof {
            lemma_round_half_close(offset_num2(screen_width as int, self.center_x()));
            lemma_round_half_close(offset_num2(screen_height as int, self.center_y()));
        }
        let den = 2 * (self.scale.times() as i64);
        SubpixelPoint {
            num_x: 2 * (point.x - offset.x),
            num_y: 2 * (point.y - offset.y),
            den,
        }
    }

    /// Carries a cursor position into canvas space — subtracting the same
    /// rounded left-top offset the renderer blits at — and classifies it.
    /// The cursor pixel is taken at its center, half a screen pixel right
    /// of and below its whole-pixel coordinate; `None` means the cursor has
    /// left the window.
    pub fn translate_cursor_position(
        &self,
        position: Option<Point<i64>>,
        screen_width: u32,
        screen_height: u32,
    ) -> (r: TranslatedPoint)
        requires
            self.wf(),
            screen_width <= MAX_SCREEN_DIM,
            screen_height <= MAX_SCREEN_DIM,
            match position {
                Some(p) => -(MAX_SCREEN_DIM as i64) <= p.x <= MAX_SCREEN_DIM as i64 && -(
                MAX_SCREEN_DIM as i64) <= p.y <= MAX_SCREEN_DIM as i64,
                None => true,
            },
        ensures
            match position {
                None => r == TranslatedPoint::OutsideWindow,
                Some(p) => {
                    let sp = SubpixelPoint {
                        num_x: translate_rounded_num(
                            2 * p.x + 1,
                            screen_width as int,
                            self.center_x(),
                        ) as i64,
                        num_y: translate_rounded_num(
                            2 * p.y + 1,
                            screen_height as int,
                            self.center_y(),
                        ) as i64,
                        den: self.den() as i64,
                    };
                    &&& sp.wf()
                    &&& -67108864 * sp.den <= sp.num_x <= 67108864 * sp.den
                    &&& -67108864 * sp.den <= sp.num_y <= 67108864 * sp.den
                    &&& if 0 <= sp.num_x < self.den() * self.spec_width() && 0 <= sp.num_y
                        < self.den() * self.spec_height() {
                        r == TranslatedPoint::WithinCanvas(sp)
                    } else {
                        r == TranslatedPoint::OutsideCanvas(sp)
                    }
                },
            },
    {
        match position {
            None => TranslatedPoint::OutsideWindow,
            Some(p) => {
                proof {
                    Editor::lemma_center_bounds(*self);
                }
                let s = self.scale.times() as i64;
                let den = 2 * s;
                let w = self.canvas.width() as i64;
                let h = self.canvas.height() as i64;
                let offset = self.get_left_top_offset_rounded(screen_width, screen_height);
                proof {
                    lemma_round_half_close(offset_num2(screen_width as int, self.center_x()));
                    lemma_round_half_close(offset_num2(screen_height as int, self.center_y()));
                }
                let num_x = 2 * (p.x - offset.x) + 1;
                let num_y = 2 * (p.y - offset.y) + 1;
                let sp = SubpixelPoint { num_x, num_y, den };
                proof {
                    let lim: int = 67108864;
                    let ex = (screen_width as int - self.center_x()) - 2 * (offset.x as int);
                    let ey = (screen_height as int - self.center_y()) - 2 * (offset.y as int);
                    assert(-lim * den <= num_x <= lim * den && -lim * den <= num_y <= lim * den)
                        by (nonlinear_arith)
                        requires
                            1 <= s <= 0x1_0000_0000i64,
                            den == 2 * s,
                            0 <= w <= 0x100_0000i64,
                            0 <= h <= 0x100_0000i64,
                            -0x100_0000i64 <= p.x <= 0x100_0000i64,
                            -0x100_0000i64 <= p.y <= 0x100_0000i64,
                            0 <= screen_width as i64 <= 0x100_0000i64,
                            0 <= screen_height as i64 <= 0x100_0000i64,
                            0 <= self.center_num_x as int <= den * w,
                            0 <= self.center_num_y as int <= den * h,
                            -1 <= ex <= 1,
                            -1 <= ey <= 1,
                            num_x == 2 * p.x + 1 - screen_width as i64 + self.center_num_x + ex,
                            num_y == 2 * p.y + 1 - screen_height as i64 + self.center_num_y + ey,
                            lim == 67108864,
                    ;
                }
                proof {
                    assert(den * w <= 0x200_0000_0000_0000 && den * h <= 0x200_0000_0000_0000)
                        by (nonlinear_arith)
                        requires
                            1 <= den <= 0x2_0000_0000i64 && 0 <= w <= 0x100_0000i64 && 0 <= h
                                <= 0x100_0000i64,
                    ;
                }
                if 0 <= num_x && num_x < den * w && 0 <= num_y && num_y < den * h {
                    TranslatedPoint::WithinCanvas(sp)
                } else {
                    TranslatedPoint::OutsideCanvas(sp)
                }
            },
        }
    }

    /// What an external renderer needs to blit the canvas: the canvas-space
    /// pixel rectangle to sample (the visible area with one pixel of margin
    /// on every side), the zoom factor to blow it up by, and the rounded
    /// screen offset to place the canvas origin at.
    pub fn visible_region(&self, screen_width: u32, screen_height: u32) -> (r: (
        Rectangle<i64>,
        Scale,
        Point<i64>,
    ))
        requires
            self.wf(),
            screen_width <= MAX_SCREEN_DIM,
            screen_height <= MAX_SCREEN_DIM,
        ensures
            r.0.spec_left() == round_div_num(
                translate_rounded_num(0, screen_width as int, self.center_x()),
                self.den(),
            ) - 1,
            r.0.spec_top() == round_div_num(
                translate_rounded_num(0, screen_height as int, self.center_y()),
                self.den(),
            ) - 1,
            r.0.spec_width() == screen_width as int / self.spec_scale().factor() + 2,
            r.0.spec_height() == screen_height as int / self.spec_scale().factor() + 2,
            r.1 == self.spec_scale(),
            r.2.x == round_half_num(offset_num2(screen_width as int, self.center_x())),
            r.2.y == round_half_num(offset_num2(screen_height as int, self.center_y())),
    {
        proof {
            Editor::lemma_center_bounds(*self);
        }
        let origin = self.translate_to_image_point(Point::new(0i64, 0i64), screen_width, screen_height);
        let x = round_div(origin.num_x, origin.den);
        let y = round_div(origin.num_y, origin.den);
        let rect = Rectangle::new(
            x - 1,
            y - 1,
            (self.scale.unapply(screen_width) + 2) as i64,
            (self.scale.unapply(screen_height) + 2) as i64,
        );
        let offset = self.get_left_top_offset_rounded(screen_width, screen_height);
        (rect, self.scale, offset)
    }
}

/// The buffer after undoing `j` diffs from cursor position `k`: each is
/// applied in `Reverse` direction, newest first.
pub open spec fn undo_steps(
    s: Seq<Color>,
    entries: Seq<Seq<SparsePixelDelta>>,
    k: int,
    j: int,
) -> Seq<Color>
    decreases j,
{
    if j <= 0 {
        s
    } else {
        undo_steps(apply_deltas(s, entries[k - 1], DiffDirection::Reverse), entries, k - 1, j - 1)
    }
}

/// The buffer after redoing `j` diffs from cursor position `k`: each is
/// applied in `Normal` direction, oldest first.
pub open spec fn redo_steps(
    s: Seq<Color>,
    entries: Seq<Seq<SparsePixelDelta>>,
    k: int,
    j: int,
) -> Seq<Color>
    decreases j,
{
    if j <= 0 {
        s
    } else {
        redo_steps(apply_deltas(s, entries[k], DiffDirection::Normal), entries, k + 1, j - 1)
    }
}

/// Undoing walks the timeline backward exactly: undoing `j` diffs from the
/// state the first `k` diffs build lands on the state the first `k - j`
/// diffs build. With `j == k` the buffer is back, byte for byte, in its
/// initial state — undoing every transaction restores the buffer it all
/// started from.
pub proof fn law_undo_restores(w: int, h: int, entries: Seq<Seq<SparsePixelDelta>>, k: int, j: int)
    requires
        w * h >= 0,
        chain_wf(w, h, entries),
        0 <= j <= k <= entries.len(),
    ensures
        undo_steps(state_at(w, h, entries, k), entries, k, j) == state_at(w, h, entries, k - j),
    decreases j,
{
    if j > 0 {
        lemma_state_at_len(w, h, entries, k - 1);
        crate::canvas::lemma_diff_roundtrip_normal(
            state_at(w, h, entries, k - 1),
            entries[k - 1],
        );
        assert(apply_deltas(state_at(w, h, entries, k), entries[k - 1], DiffDirection::Reverse)
            == state_at(w, h, entries, k - 1));
        law_undo_restores(w, h, entries, k - 1, j - 1);
    }
}

/// Redoing walks the timeline forward exactly: redoing `j` diffs from the
/// state the first `k` diffs build lands on the state the first `k + j`
/// diffs build — redoing every undone transaction restores the newest state.
pub proof fn law_redo_restores(w: int, h: int, entries: Seq<Seq<SparsePixelDelta>>, k: int, j: int)
    requires
        0 <= k,
        0 <= j,
        k + j <= entries.len(),
    ensures
        redo_steps(state_at(w, h, entries, k), entries, k, j) == state_at(w, h, entries, k + j),
    decreases j,
{
    if j > 0 {
        assert(state_at(w, h, entries, k + 1) == apply_deltas(
            state_at(w, h, entries, k),
            entries[k],
            DiffDirection::Normal,
        ));
        law_redo_restores(w, h, entries, k + 1, j - 1);
    }
}

/// The full round trip through the diff stack: undoing all `n` recorded
/// transactions returns the buffer to its pre-first-transaction state, and
/// redoing all of them returns it to its post-last-transaction state.
pub proof fn law_history_roundtrip(w: int, h: int, entries: Seq<Seq<SparsePixelDelta>>)
    requires
        w * h >= 0,
        chain_wf(w, h, entries),
    ensures
        undo_steps(state_at(w, h, entries, entries.len() as int), entries, entries.len() as int, entries.len() as int)
            == state_at(w, h, entries, 0),
        redo_steps(state_at(w, h, entries, 0), entries, 0, entries.len() as int) == state_at(
            w,
            h,
            entries,
            entries.len() as int,
        ),
{
    law_undo_restores(w, h, entries, entries.len() as int, entries.len() as int);
    law_redo_restores(w, h, entries, 0, entries.len() as int);
}

/// A zoom step up followed by one back down — anchored at the same
/// stationary point — restores the original center exactly, provided
/// neither step runs into the canvas-edge clamp.
pub proof fn law_zoom_roundtrip(cn: int, s0: int, s1: int, p: int, lim: int)
    requires
        s0 >= 1,
        s1 >= 1,
        0 <= cn <= 2 * s0 * lim,
        0 <= rescale_center_num(cn, s0, s1, p) <= 2 * s1 * lim,
    ensures
        clamp_int(
            rescale_center_num(
                clamp_int(rescale_center_num(cn, s0, s1, p), 0, 2 * s1 * lim),
                s1,
                s0,
                p,
            ),
            0,
            2 * s0 * lim,
        ) == cn,
{
    let c1 = rescale_center_num(cn, s0, s1, p);
    assert(clamp_int(c1, 0, 2 * s1 * lim) == c1);
    assert(rescale_center_num(c1, s1, s0, p) == cn) by (nonlinear_arith)
        requires
            c1 == 2 * (s1 - s0) * p + cn,
    ;
}

/// Doubling the rounded half-value stays within one of the original
/// numerator: rounding the left-top offset moves a translated coordinate by
/// at most one step of the numerator grid.
pub proof fn lemma_round_half_close(n2: int)
    ensures
        -1 <= n2 - 2 * round_half_num(n2) <= 1,
{
    if n2 >= 0 {
        vstd::arithmetic::div_mod::lemma_fundamental_div_mod(n2 + 1, 2);
    } else {
        vstd::arithmetic::div_mod::lemma_fundamental_div_mod(-n2 + 1, 2);
    }
}

/// The anchored-zoom law for the ideal transform: project the stationary
/// canvas point `p` to its screen position under the old scale and center,
/// take one zoom step that keeps `p` stationary, and carry that same screen
/// position back through the exact (unrounded) inverse under the new scale
/// and center: the result is exactly `p` — numerator `2 * s1 * p` over
/// denominator `2 * s1` — provided the new center escapes the canvas-edge
/// clamp. The companion law below bounds the shipped, rounded pipeline.
pub proof fn law_anchored_zoom(cn: int, s0: int, s1: int, p: int, screen_dim: int, lim: int)
    requires
        s0 >= 1,
        s1 >= 1,
        0 <= rescale_center_num(cn, s0, s1, p) <= 2 * s1 * lim,
    ensures
        translate_num(
            projection_num2(p, s0, cn, screen_dim),
            screen_dim,
            clamp_int(rescale_center_num(cn, s0, s1, p), 0, 2 * s1 * lim),
        ) == 2 * s1 * p,
{
    let c1 = rescale_center_num(cn, s0, s1, p);
    assert(clamp_int(c1, 0, 2 * s1 * lim) == c1);
    assert((2 * s0 * p - cn + screen_dim) - screen_dim + (2 * (s1 - s0) * p + cn) == 2 * s1 * p)
        by (nonlinear_arith);
}

/// The anchored-zoom law for the shipped, rounded transform: the whole
/// screen pixel at which the stationary canvas point `p` was displayed —
/// the rounded canvas origin plus `scale * p` screen pixels — maps back
/// after the zoom step to within one numerator step of `p` on each axis:
/// within half a `1 / new-scale` canvas unit, and exactly `p` whenever the
/// two offsets round without remainder.
pub proof fn law_anchored_zoom_rounded(
    cn: int,
    s0: int,
    s1: int,
    p: int,
    screen_dim: int,
    lim: int,
)
    requires
        s0 >= 1,
        s1 >= 1,
        0 <= rescale_center_num(cn, s0, s1, p) <= 2 * s1 * lim,
    ensures
        ({
            let cn1 = clamp_int(rescale_center_num(cn, s0, s1, p), 0, 2 * s1 * lim);
            let q = round_half_num(offset_num2(screen_dim, cn)) + s0 * p;
            -2 <= translate_rounded_num(2 * q, screen_dim, cn1) - 2 * s1 * p <= 2
        }),
{
    let cn1 = clamp_int(rescale_center_num(cn, s0, s1, p), 0, 2 * s1 * lim);
    law_anchored_zoom(cn, s0, s1, p, screen_dim, lim);
    assert(2 * s0 * p == 2 * s1 * p + cn - cn1);
    lemma_round_half_close(offset_num2(screen_dim, cn));
    lemma_round_half_close(offset_num2(screen_dim, cn1));
    let rh0 = round_half_num(offset_num2(screen_dim, cn));
    let rh1 = round_half_num(offset_num2(screen_dim, cn1));
    let q = rh0 + s0 * p;
    assert(2 * q == 2 * rh0 + 2 * s0 * p) by (nonlinear_arith)
        requires
            q == rh0 + s0 * p,
    ;
    assert(translate_rounded_num(2 * q, screen_dim, cn1) == 2 * q - 2 * rh1);
    assert(-1 <= (screen_dim - cn) - 2 * rh0 <= 1);
    assert(-1 <= (screen_dim - cn1) - 2 * rh1 <= 1);
}

} // verus!
