//! The pencil tool: freehand drawing.
//!
//! While the left button is held the pencil is active: each cursor movement
//! draws a thickness-1 line from the previous cursor position to the new
//! one, writing through the editor's bounds-checked pixel setter so that
//! strokes running off the canvas are clipped, not fatal. The press opens
//! the editor's transaction and the release closes it, so one stroke — from
//! press to release — is exactly one history entry.

use vstd::prelude::*;

use crate::canvas::Color;
use crate::draw_context::DrawContext;
use crate::draw_primitives::{covers, seq_has_pixel, HardLine, MAX_LINE_COORD};
use crate::editor::{Editor, TranslatedPoint};
use crate::geometry::{Point, SubpixelPoint};
use crate::input::{MouseButton, Redraw};
use vstd::arithmetic::div_mod::{lemma_div_is_ordered, lemma_div_multiples_vanish};

verus! {

/// A cursor position the pencil can stroke from: exact, and close enough to
/// the canvas for the rasterizer's coordinate range. The editor's cursor
/// translation yields nothing else.
pub open spec fn subpixel_ok(p: SubpixelPoint) -> bool {
    &&& p.wf()
    &&& p.den <= 0x2_0000_0000
    &&& -MAX_LINE_COORD * p.den <= p.num_x <= MAX_LINE_COORD * p.den
    &&& -MAX_LINE_COORD * p.den <= p.num_y <= MAX_LINE_COORD * p.den
}

pub open spec fn cursor_ok(tp: TranslatedPoint) -> bool {
    match tp {
        TranslatedPoint::WithinCanvas(p) => subpixel_ok(p),
        TranslatedPoint::OutsideCanvas(p) => subpixel_ok(p),
        TranslatedPoint::OutsideWindow => true,
    }
}

/// Whether the stroke segment between two cursor positions covers the pixel
/// `(x, y)`: the thickness-1 line between the pixels the two positions fall
/// in.
pub open spec fn stroke_hits(lp: SubpixelPoint, cp: SubpixelPoint, x: int, y: int) -> bool {
    covers(
        lp.num_x as int / lp.den as int,
        lp.num_y as int / lp.den as int,
        cp.num_x as int / cp.den as int,
        cp.num_y as int / cp.den as int,
        1,
        x,
        y,
    )
}

/// The pixel a bounded subpixel position falls in, with coordinates inside
/// the rasterizer's range.
fn floor_in_range(p: SubpixelPoint) -> (r: Point<i64>)
    requires
        subpixel_ok(p),
    ensures
        r.x == p.num_x as int / p.den as int,
        r.y == p.num_y as int / p.den as int,
        -MAX_LINE_COORD <= r.x <= MAX_LINE_COORD,
        -MAX_LINE_COORD <= r.y <= MAX_LINE_COORD,
{
    proof {
        let lim: int = MAX_LINE_COORD as int;
        let d = p.den as int;
        assert(lim * d <= 0x800_0000_0000_0000 && -lim * d >= -0x800_0000_0000_0000 && lim * d == d
            * lim && (-lim) * d == d * (-lim)) by (nonlinear_arith)
            requires
                1 <= d <= 0x2_0000_0000 && lim == 67108864,
        ;
        lemma_div_is_ordered(p.num_x as int, lim * d, d);
        lemma_div_is_ordered((-lim) * d, p.num_x as int, d);
        lemma_div_is_ordered(p.num_y as int, lim * d, d);
        lemma_div_is_ordered((-lim) * d, p.num_y as int, d);
        lemma_div_multiples_vanish(lim, d);
        lemma_div_multiples_vanish(-lim, d);
    }
    p.floor()
}

/// What the pencil is doing: idle, or mid-stroke with the cursor position
/// it last drew from.
#[derive(Debug, Clone, Copy, PartialEq, Eq, Structural)]
pub enum PencilState {
    Inactive,
    Active { last_point: TranslatedPoint },
}

/// The pencil tool.
pub struct Pencil {
    state: PencilState,
}

impl Pencil {
    pub closed spec fn spec_state(&self) -> PencilState {
        self.state
    }

    /// Whatever cursor position the pencil holds is one it can stroke from.
    pub open spec fn wf(&self) -> bool {
        match self.spec_state() {
            PencilState::Active { last_point } => cursor_ok(last_point),
            PencilState::Inactive => true,
        }
    }

    /// A stroke is underway.
    pub open spec fn engaged(&self) -> bool {
        self.spec_state() is Active
    }

    pub fn new() -> (r: Pencil)
        ensures
            r.spec_state() == PencilState::Inactive,
            r.wf(),
    {
        Pencil { state: PencilState::Inactive }
    }

    pub fn name(&self) -> (r: String)
        ensures
            r@ == "Pencil"@,
    {
        <String as vstd::string::StringExecFns>::from_str("Pencil")
    }

    /// A left press starts a stroke: the pencil notes the cursor position
    /// and opens the editor's transaction. Other buttons do nothing. A left
    /// press while a transaction is open would nest transactions, which the
    /// editor does not support: that is a caller contract violation.
    pub fn on_mouse_button_press(
        &mut self,
        button: MouseButton,
        context: &DrawContext,
        editor: &mut Editor,
    ) -> (r: Redraw)
        requires
            old(self).wf(),
            old(editor).wf(),
            cursor_ok(context.cursor_position),
            button == MouseButton::Left ==> !old(editor).spec_in_transaction(),
        ensures
            final(self).wf(),
            final(editor).wf(),
            r == Redraw::Dont,
            Editor::same_transform(*old(editor), *final(editor)),
            Editor::dims_eq(*old(editor), *final(editor)),
            final(editor).pixels() == old(editor).pixels(),
            final(editor).entries() == old(editor).entries(),
            final(editor).cursor() == old(editor).cursor(),
            button == MouseButton::Left ==> final(self).spec_state() == (PencilState::Active {
                last_point: context.cursor_position,
            }) && final(editor).spec_in_transaction(),
            button != MouseButton::Left ==> final(self).spec_state() == old(self).spec_state()
                && final(editor).spec_in_transaction() == old(editor).spec_in_transaction(),
    {
        match button {
            MouseButton::Left => {
                self.state = PencilState::Active { last_point: context.cursor_position };
                editor.begin();
            },
            _ => (),
        }
        Redraw::Dont
    }

    /// A left release ends the stroke: the pencil goes idle and the editor's
    /// transaction is closed, recording the stroke as one history entry.
    /// Other buttons do nothing. A left release is only meaningful while the
    /// transaction its press opened is still open.
    pub fn on_mouse_button_release(
        &mut self,
        button: MouseButton,
        _context: &DrawContext,
        editor: &mut Editor,
    ) -> (r: Redraw)
        requires
            old(self).wf(),
            old(editor).wf(),
            button == MouseButton::Left ==> old(editor).spec_in_transaction(),
        ensures
            final(self).wf(),
            final(editor).wf(),
            r == Redraw::Dont,
            Editor::same_transform(*old(editor), *final(editor)),
            Editor::dims_eq(*old(editor), *final(editor)),
            final(editor).pixels() == old(editor).pixels(),
            button == MouseButton::Left ==> final(self).spec_state() == PencilState::Inactive
                && !final(editor).spec_in_transaction() && final(editor).cursor() == old(
                editor,
            ).cursor() + 1 && final(editor).entries() == old(editor).entries().take(
                old(editor).cursor(),
            ).push(
                crate::canvas::diff_between(
                    crate::editor::state_at(
                        old(editor).spec_width(),
                        old(editor).spec_height(),
                        old(editor).entries(),
                        old(editor).cursor(),
                    ),
                    old(editor).pixels(),
                ),
            ),
            button != MouseButton::Left ==> final(self).spec_state() == old(self).spec_state()
                && final(editor).spec_in_transaction() == old(editor).spec_in_transaction()
                && final(editor).entries() == old(editor).entries() && final(editor).cursor()
                == old(editor).cursor(),
    {
        match button {
            MouseButton::Left => {
                self.state = PencilState::Inactive;
                editor.end();
            },
            _ => (),
        }
        Redraw::Dont
    }

    /// Cursor movement mid-stroke draws the thickness-1 line from the last
    /// cursor position to the new one — every canvas pixel the line covers
    /// takes the context's primary color, pixels beyond the canvas are
    /// clipped — and notes the new position. When idle, or when either end
    /// of the movement lies outside the window, nothing is drawn.
    pub fn on_cursor_move(&mut self, context: &DrawContext, editor: &mut Editor) -> (r: Redraw)
        requires
            old(self).wf(),
            old(editor).wf(),
            cursor_ok(context.cursor_position),
            old(self).engaged() ==> old(editor).spec_in_transaction(),
        ensures
            final(self).wf(),
            final(editor).wf(),
            Editor::same_transform(*old(editor), *final(editor)),
            Editor::dims_eq(*old(editor), *final(editor)),
            final(editor).entries() == old(editor).entries(),
            final(editor).cursor() == old(editor).cursor(),
            final(editor).spec_in_transaction() == old(editor).spec_in_transaction(),
            match old(self).spec_state() {
                PencilState::Inactive => r == Redraw::Dont && final(self).spec_state() == old(
                    self,
                ).spec_state() && final(editor).pixels() == old(editor).pixels(),
                PencilState::Active { last_point: TranslatedPoint::OutsideWindow } => r
                    == Redraw::Dont && final(self).spec_state() == (PencilState::Active {
                    last_point: context.cursor_position,
                }) && final(editor).pixels() == old(editor).pixels(),
                PencilState::Active { last_point: lp_tp } => {
                    let lp = lp_tp.spec_point();
                    match context.cursor_position {
                        TranslatedPoint::OutsideWindow => r == Redraw::Dont
                            && final(self).spec_state() == (PencilState::Active {
                            last_point: TranslatedPoint::OutsideWindow,
                        }) && final(editor).pixels() == old(editor).pixels(),
                        cp_tp => {
                            let cp = cp_tp.spec_point();
                            &&& r == Redraw::Do
                            &&& final(self).spec_state() == (PencilState::Active {
                                last_point: TranslatedPoint::WithinCanvas(cp),
                            })
                            &&& forall|x: int, y: int|
                                old(editor).spec_canvas().in_bounds(x, y)
                                    ==> final(editor).pixels()[old(
                                    editor,
                                ).spec_canvas().spec_index_of(x, y)] == (if stroke_hits(
                                    lp,
                                    cp,
                                    x,
                                    y,
                                ) {
                                    context.primary_color
                                } else {
                                    old(editor).pixels()[old(editor).spec_canvas().spec_index_of(
                                        x,
                                        y,
                                    )]
                                })
                        },
                    }
                },
            },
    {
        let state_copy = self.state;
        match state_copy {
            PencilState::Inactive => Redraw::Dont,
            PencilState::Active { last_point: TranslatedPoint::OutsideWindow } => {
                self.state = PencilState::Active { last_point: context.cursor_position };
                Redraw::Dont
            },
            PencilState::Active { last_point } => {
                let lp = match last_point {
                    TranslatedPoint::WithinCanvas(p) => p,
                    TranslatedPoint::OutsideCanvas(p) => p,
                    TranslatedPoint::OutsideWindow => unreached(),
                };
                match context.cursor_position {
                    TranslatedPoint::OutsideWindow => {
                        self.state = PencilState::Active {
                            last_point: TranslatedPoint::OutsideWindow,
                        };
                        Redraw::Dont
                    },
                    cp_tp => {
                        let cp = match cp_tp {
                            TranslatedPoint::WithinCanvas(p) => p,
                            TranslatedPoint::OutsideCanvas(p) => p,
                            TranslatedPoint::OutsideWindow => unreached(),
                        };
                        self.draw_stroke(lp, cp, context.primary_color, editor);
                        self.state = PencilState::Active {
                            last_point: TranslatedPoint::WithinCanvas(cp),
                        };
                        Redraw::Do
                    },
                }
            },
        }
    }

    /// Draws the stroke segment: every canvas pixel the thickness-1 line
    /// between the two cursor positions covers takes `color`.
    fn draw_stroke(&self, lp: SubpixelPoint, cp: SubpixelPoint, color: Color, editor: &mut Editor)
        requires
            subpixel_ok(lp),
            subpixel_ok(cp),
            old(editor).wf(),
            old(editor).spec_in_transaction(),
        ensures
            final(editor).wf(),
            final(editor).spec_in_transaction(),
            Editor::same_transform(*old(editor), *final(editor)),
            Editor::dims_eq(*old(editor), *final(editor)),
            final(editor).entries() == old(editor).entries(),
            final(editor).cursor() == old(editor).cursor(),
            forall|x: int, y: int|
                old(editor).spec_canvas().in_bounds(x, y) ==> final(editor).pixels()[old(
                    editor,
                ).spec_canvas().spec_index_of(x, y)] == (if stroke_hits(lp, cp, x, y) {
                    color
                } else {
                    old(editor).pixels()[old(editor).spec_canvas().spec_index_of(x, y)]
                }),
    {
        let flp = floor_in_range(lp);
        let fcp = floor_in_range(cp);
        let line = HardLine::new(flp, fcp, 1);
        let pts = line.draw();
        let ghost canvas0 = old(editor).spec_canvas();
        let mut k: usize = 0;
        while k < pts.len()
            invariant
                editor.wf(),
                editor.spec_in_transaction(),
                Editor::same_transform(*old(editor), *editor),
                Editor::dims_eq(*old(editor), *editor),
                editor.entries() == old(editor).entries(),
                editor.cursor() == old(editor).cursor(),
                canvas0 == old(editor).spec_canvas(),
                k <= pts@.len(),
                line.wf(),
                line.spec_a() == flp && line.spec_b() == fcp && line.spec_thickness() == 1,
                flp.x == lp.num_x as int / lp.den as int && flp.y == lp.num_y as int
                    / lp.den as int,
                fcp.x == cp.num_x as int / cp.den as int && fcp.y == cp.num_y as int
                    / cp.den as int,
                forall|j: int|
                    0 <= j < pts@.len() ==> line.spec_covers(
                        (#[trigger] pts@[j]).x as int,
                        pts@[j].y as int,
                    ),
                forall|px: int, py: int|
                    line.spec_covers(px, py) && px >= 0 && py >= 0 ==> seq_has_pixel(
                        pts@,
                        px,
                        py,
                    ),
                forall|x: int, y: int|
                    canvas0.in_bounds(x, y) ==> editor.pixels()[canvas0.spec_index_of(x, y)] == (
                    if seq_has_pixel(pts@.take(k as int), x, y) {
                        color
                    } else {
                        old(editor).pixels()[canvas0.spec_index_of(x, y)]
                    }),
            decreases pts@.len() - k,
        {
            let p = pts[k];
            let ghost pre = *editor;
            editor.try_set_pixel(p.x, p.y, color);
            proof {
                let taken = pts@.take(k as int + 1);
                assert(taken.drop_last() =~= pts@.take(k as int));
                assert(taken.last() == pts@[k as int]);
                let px = p.x as int;
                let py = p.y as int;
                assert(pre.pixels().len() == canvas0.spec_area()) by {
                    assert(pre.spec_canvas().wf());
                }
                if canvas0.in_bounds(px, py) {
                    canvas0.lemma_index_in_area(px, py);
                    assert(editor.pixels() == pre.pixels().update(
                        canvas0.spec_index_of(px, py),
                        color,
                    ));
                } else {
                    assert(editor.pixels() == pre.pixels());
                }
                assert forall|x: int, y: int|
                    canvas0.in_bounds(x, y) implies editor.pixels()[canvas0.spec_index_of(x, y)]
                    == (if seq_has_pixel(taken, x, y) {
                    color
                } else {
                    old(editor).pixels()[canvas0.spec_index_of(x, y)]
                }) by {
                    canvas0.lemma_index_in_area(x, y);
                    if x == px && y == py {
                        assert(taken[k as int].x == x && taken[k as int].y == y);
                        assert(seq_has_pixel(taken, x, y));
                        assert(editor.pixels()[canvas0.spec_index_of(x, y)] == color);
                    } else {
                        if canvas0.in_bounds(px, py) {
                            canvas0.lemma_index_of_injective(x, y, px, py);
                        }
                        assert(editor.pixels()[canvas0.spec_index_of(x, y)] == pre.pixels()[
                            canvas0.spec_index_of(x, y)]);
                        assert(seq_has_pixel(taken, x, y) == seq_has_pixel(
                            pts@.take(k as int),
                            x,
                            y,
                        )) by {
                            if seq_has_pixel(taken, x, y) {
                                let j = choose|j: int|
                                    0 <= j < taken.len() && (#[trigger] taken[j]).x == x
                                        && taken[j].y == y;
                                assert(j < k as int);
                                assert(pts@.take(k as int)[j] == taken[j]);
                            }
                            if seq_has_pixel(pts@.take(k as int), x, y) {
                                let j = choose|j: int|
                                    0 <= j < pts@.take(k as int).len() && (#[trigger] pts@.take(
                                        k as int,
                                    )[j]).x == x && pts@.take(k as int)[j].y == y;
                                assert(taken[j] == pts@.take(k as int)[j]);
                            }
                        }
                    }
                }
            }
            k = k + 1;
        }
        proof {
            assert(pts@.take(pts@.len() as int) =~= pts@);
            assert forall|x: int, y: int|
                canvas0.in_bounds(x, y) implies seq_has_pixel(pts@, x, y) == stroke_hits(
                lp,
                cp,
                x,
                y,
            ) by {
                if seq_has_pixel(pts@, x, y) {
                    let j = choose|j: int|
                        0 <= j < pts@.len() && (#[trigger] pts@[j]).x == x && pts@[j].y == y;
                    assert(line.spec_covers(x, y));
                }
                if stroke_hits(lp, cp, x, y) {
                    assert(line.spec_covers(x, y));
                }
            }
        }
    }
}

} // verus!
