//! The rendering engine: which draws a frame needs, layer by layer.

use vstd::prelude::*;
use crate::canvas::Canvas;
use crate::geometry::Rect;
use crate::geometry::Size;
use crate::history::History;
use crate::history::HistoryModel;
use crate::layer::Layer;
use crate::layer::LayerView;
use crate::damage::covered;
use crate::damage::frame_at;
use crate::damage::layer_at;
use crate::damage::quads_at;
use crate::damage::views;
use crate::pipeline::admits;
use crate::pipeline::lemma_scissor_exact;
use crate::quad::Quad;
use crate::pipeline::capacity_for;
use crate::pipeline::draw_of;
use crate::pipeline::Backend;
use crate::pipeline::DrawCall;
use crate::pipeline::Pipeline;
use crate::pipeline::PipelineError;
use crate::viewport::Viewport;

verus! {

/// The draw of one layer.
#[derive(Clone, Copy, Debug, PartialEq, Eq, Structural)]
pub struct LayerDraw {
    /// The position of the layer in the frame, whose quads are drawn.
    pub layer: usize,
    /// The draw.
    pub call: DrawCall,
}

/// The draws planned so far and the capacity of the instance buffer after
/// them.
pub struct Plan {
    pub draws: Seq<LayerDraw>,
    pub capacity: int,
}

/// The plan after the layer at `index` has been considered for `region`:
/// a layer with quads whose clip meets the region is drawn, clipped to
/// their common part.
pub open spec fn plan_layer(plan: Plan, index: int, layer: LayerView, region: Rect, viewport: Viewport) -> Plan {
    match layer.bounds.spec_intersection(region) {
        Some(clip) => if layer.quads.len() > 0 {
            Plan {
                draws: plan.draws.push(
                    LayerDraw {
                        layer: index as usize,
                        call: draw_of(plan.capacity, layer.quads.len() as int, clip, viewport),
                    },
                ),
                capacity: capacity_for(plan.capacity, layer.quads.len() as int),
            }
        } else {
            plan
        },
        None => plan,
    }
}

/// The plan after the first `upto` layers of the frame have been
/// considered for `region`, back to front.
pub open spec fn plan_region(
    plan: Plan,
    frame: Seq<LayerView>,
    upto: int,
    region: Rect,
    viewport: Viewport,
) -> Plan
    decreases upto,
{
    if upto <= 0 {
        plan
    } else {
        plan_layer(
            plan_region(plan, frame, upto - 1, region, viewport),
            upto - 1,
            frame[upto - 1],
            region,
            viewport,
        )
    }
}

/// The plan after every region of the damage has been redrawn, in order.
pub open spec fn plan_damage(plan: Plan, frame: Seq<LayerView>, damage: Seq<Rect>, viewport: Viewport) -> Plan
    decreases damage.len(),
{
    if damage.len() == 0 {
        plan
    } else {
        plan_region(
            plan_damage(plan, frame, damage.drop_last(), viewport),
            frame,
            frame.len() as int,
            damage.last(),
            viewport,
        )
    }
}

/// What one present asks of the device.
#[derive(Debug)]
pub struct Presented {
    /// The regions that are redrawn; none means that the frame on screen
    /// stays as it is.
    pub damage: Vec<Rect>,
    /// The draws that redraw them, in order.
    pub draws: Vec<LayerDraw>,
}

/// The rendering engine: the quad pipeline and the frame that was
/// presented last.
#[derive(Debug)]
pub struct Engine {
    quad_pipeline: Pipeline,
    history: History,
}

impl Engine {
    /// The plan that the engine starts a frame from: no draw yet, the
    /// capacity that its pipeline has.
    pub open spec fn idle(&self) -> Plan {
        Plan { draws: Seq::empty(), capacity: self.spec_capacity() }
    }

    /// The capacity of the instance buffer of the quad pipeline, in quads.
    pub closed spec fn spec_capacity(&self) -> int {
        self.quad_pipeline.spec_capacity()
    }

    /// The size and the frame that the engine presented last.
    pub closed spec fn retained(&self) -> HistoryModel {
        self.history@
    }

    /// An engine for `backend` that has presented nothing yet; Metal is
    /// not supported.
    pub fn new(backend: Backend) -> (out: Result<Engine, PipelineError>)
        ensures
            backend == Backend::Metal ==> out is Err && out->Err_0 == PipelineError::UnsupportedBackend,
            backend != Backend::Metal ==> (out matches Ok(e) && e.spec_capacity()
                == crate::pipeline::MAX_QUADS && e.retained() == (HistoryModel {
                size: Size { width: 0, height: 0 },
                previous: None,
            })),
    {
        match Pipeline::new(backend) {
            Ok(quad_pipeline) => Ok(
                Engine { quad_pipeline, history: History::new(Size { width: 0, height: 0 }) },
            ),
            Err(e) => Err(e),
        }
    }

    /// The capacity of the instance buffer of the quad pipeline, in quads.
    pub fn capacity(&self) -> (c: usize)
        ensures
            c == self.spec_capacity(),
    {
        self.quad_pipeline.capacity()
    }

    /// One present of the frame on `canvas`: finds the regions that differ
    /// from the frame presented last (the whole viewport for the first
    /// frame and at another size), retains the frame, and plans the draws
    /// that redraw those regions. A frame equal to the one presented last
    /// at the same size has no region and no draw.
    pub fn present(&mut self, canvas: &Canvas, viewport: &Viewport) -> (out: Presented)
        requires
            canvas.wf(),
            viewport.wf(),
        ensures
            final(self).retained() == old(self).retained().presented(canvas@.frame, *viewport),
            out.damage@ == old(self).retained().present_regions(canvas@.frame, *viewport),
            out.draws@ == plan_damage(old(self).idle(), canvas@.frame, out.damage@, *viewport).draws,
            final(self).spec_capacity() == plan_damage(
                old(self).idle(),
                canvas@.frame,
                out.damage@,
                *viewport,
            ).capacity,
    {
        let frame = canvas.layers();
        assert(views(frame@) =~= canvas@.frame);
        let damage = self.history.present(frame.as_slice(), viewport);
        let draws = self.render_damaged(frame.as_slice(), damage.as_slice(), viewport);
        Presented { damage, draws }
    }

    /// Plans the draws that redraw `damage`: for each region in order, one
    /// draw for each layer that holds quads and whose clip meets the region,
    /// back to front, clipped to the common part of clip and region.
    pub fn render_damaged(&mut self, frame: &[Layer], damage: &[Rect], viewport: &Viewport) -> (draws: Vec<
        LayerDraw,
    >)
        requires
            viewport.wf(),
        ensures
            draws@ == plan_damage(old(self).idle(), views(frame@), damage@, *viewport).draws,
            final(self).spec_capacity() == plan_damage(
                old(self).idle(),
                views(frame@),
                damage@,
                *viewport,
            ).capacity,
            final(self).retained() == old(self).retained(),
    {
        let ghost start = self.idle();
        let ghost f = views(frame@);
        let mut draws: Vec<LayerDraw> = Vec::new();
        let mut d: usize = 0;
        while d < damage.len()
            invariant
                d <= damage@.len(),
                viewport.wf(),
                f == views(frame@),
                self.history == old(self).history,
                draws@ == plan_damage(start, f, damage@.take(d as int), *viewport).draws,
                self.quad_pipeline.spec_capacity() == plan_damage(
                    start,
                    f,
                    damage@.take(d as int),
                    *viewport,
                ).capacity,
            decreases damage@.len() - d,
        {
            let ghost before = plan_damage(start, f, damage@.take(d as int), *viewport);
            let region = damage[d];
            let mut i: usize = 0;
            while i < frame.len()
                invariant
                    i <= frame@.len(),
                    viewport.wf(),
                    f == views(frame@),
                    self.history == old(self).history,
                    draws@ == plan_region(before, f, i as int, region, *viewport).draws,
                    self.quad_pipeline.spec_capacity() == plan_region(
                        before,
                        f,
                        i as int,
                        region,
                        *viewport,
                    ).capacity,
                decreases frame@.len() - i,
            {
                let layer = &frame[i];
                if layer.quads.len() > 0 {
                    match layer.bounds.intersection(&region) {
                        Some(clip) => {
                            let call = self.quad_pipeline.render(layer.quads.as_slice(), clip, viewport);
                            draws.push(LayerDraw { layer: i, call });
                        },
                        None => {},
                    }
                }
                i += 1;
            }
            proof {
                assert(damage@.take(d + 1).drop_last() =~= damage@.take(d as int));
                assert(damage@.take(d + 1).last() == region);
            }
            d += 1;
        }
        proof {
            assert(damage@.take(d as int) =~= damage@);
        }
        draws
    }
}

/// A present of the frame that was presented last, at the same viewport,
/// plans no draw and leaves the instance buffer alone.
pub proof fn lemma_unchanged_no_draw(model: HistoryModel, start: Plan, current: Seq<LayerView>, viewport: Viewport)
    ensures
        plan_damage(
            start,
            current,
            model.presented(current, viewport).present_regions(current, viewport),
            viewport,
        ) == start,
{
    crate::history::lemma_present_twice(model, current, viewport);
}

/// Without damage nothing is drawn and the instance buffer is left alone.
pub proof fn lemma_no_damage_no_draw(plan: Plan, frame: Seq<LayerView>, viewport: Viewport)
    ensures
        plan_damage(plan, frame, Seq::empty(), viewport) == plan,
{
}

/// Whether the layers of a frame and their quads can be counted by the
/// machine, as those of every frame in memory can.
pub open spec fn countable(frame: Seq<LayerView>) -> bool {
    &&& frame.len() <= usize::MAX
    &&& forall|i: int| 0 <= i < frame.len() ==> (#[trigger] frame[i]).quads.len() <= usize::MAX
}

/// Whether every draw of the plan draws all the quads of a layer of the
/// frame that has quads, the instance buffer holds them, and a buffer that
/// grows before a draw grows to the quads of that draw.
pub open spec fn sound(plan: Plan, frame: Seq<LayerView>) -> bool {
    forall|k: int|
        0 <= k < plan.draws.len() ==> {
            let draw = #[trigger] plan.draws[k];
            &&& draw.layer < frame.len()
            &&& draw.call.instances == frame[draw.layer as int].quads.len()
            &&& 0 < draw.call.instances <= plan.capacity
            &&& draw.call.grow_to matches Some(n) ==> n == draw.call.instances
        }
}

/// Considering one more layer keeps a plan sound and shrinks no buffer.
proof fn lemma_plan_layer_sound(plan: Plan, frame: Seq<LayerView>, index: int, region: Rect, viewport: Viewport)
    requires
        countable(frame),
        sound(plan, frame),
        0 <= index < frame.len(),
    ensures
        sound(plan_layer(plan, index, frame[index], region, viewport), frame),
        plan_layer(plan, index, frame[index], region, viewport).capacity >= plan.capacity,
        plan_layer(plan, index, frame[index], region, viewport).draws.len() <= plan.draws.len() + 1,
{
    let after = plan_layer(plan, index, frame[index], region, viewport);
    assert forall|k: int| 0 <= k < after.draws.len() implies {
        let draw = #[trigger] after.draws[k];
        &&& draw.layer < frame.len()
        &&& draw.call.instances == frame[draw.layer as int].quads.len()
        &&& 0 < draw.call.instances <= after.capacity
        &&& draw.call.grow_to matches Some(n) ==> n == draw.call.instances
    } by {
        if k < plan.draws.len() {
            assert(after.draws[k] == plan.draws[k]);
        }
    }
}

/// Redrawing a region keeps a plan sound and shrinks no buffer.
proof fn lemma_plan_region_sound(plan: Plan, frame: Seq<LayerView>, upto: int, region: Rect, viewport: Viewport)
    requires
        countable(frame),
        sound(plan, frame),
        0 <= upto <= frame.len(),
    ensures
        sound(plan_region(plan, frame, upto, region, viewport), frame),
        plan_region(plan, frame, upto, region, viewport).capacity >= plan.capacity,
        plan_region(plan, frame, upto, region, viewport).draws.len() <= plan.draws.len() + upto,
    decreases upto,
{
    if upto > 0 {
        lemma_plan_region_sound(plan, frame, upto - 1, region, viewport);
        lemma_plan_layer_sound(
            plan_region(plan, frame, upto - 1, region, viewport),
            frame,
            upto - 1,
            region,
            viewport,
        );
    }
}

/// The draws that redraw damage draw, each, all the quads of a layer of
/// the frame that has quads; the instance buffer holds the quads of every
/// draw and is never smaller afterwards than before; and no region is
/// drawn with more draws than the frame has layers.
pub proof fn lemma_plan_damage_sound(plan: Plan, frame: Seq<LayerView>, damage: Seq<Rect>, viewport: Viewport)
    requires
        countable(frame),
        sound(plan, frame),
    ensures
        sound(plan_damage(plan, frame, damage, viewport), frame),
        plan_damage(plan, frame, damage, viewport).capacity >= plan.capacity,
        plan_damage(plan, frame, damage, viewport).draws.len() <= plan.draws.len() + damage.len()
            * frame.len(),
    decreases damage.len(),
{
    if damage.len() > 0 {
        let before = plan_damage(plan, frame, damage.drop_last(), viewport);
        lemma_plan_damage_sound(plan, frame, damage.drop_last(), viewport);
        lemma_plan_region_sound(before, frame, frame.len() as int, damage.last(), viewport);
        assert(damage.drop_last().len() * frame.len() + frame.len() == damage.len() * frame.len())
            by (nonlinear_arith)
            requires
                damage.drop_last().len() + 1 == damage.len(),
        ;
    }
}

/// What one draw paints at the device pixel in column `dx` and row `dy`
/// (rows counted from the top): inside its scissor, the quads of its layer
/// that hold the logical pixel which the device pixel belongs to.
pub open spec fn draw_at(draw: LayerDraw, frame: Seq<LayerView>, viewport: Viewport, dx: int, dy: int) -> Seq<
    Quad,
> {
    if admits(draw.call.scissor, viewport.spec_physical_size().height as int, dx, dy) {
        quads_at(
            frame[draw.layer as int].quads,
            viewport.logical_of(dx),
            viewport.logical_of(dy),
        )
    } else {
        Seq::empty()
    }
}

/// What a run of draws paints at a device pixel, first painted first.
pub open spec fn painted_at(
    draws: Seq<LayerDraw>,
    frame: Seq<LayerView>,
    viewport: Viewport,
    dx: int,
    dy: int,
) -> Seq<Quad>
    decreases draws.len(),
{
    if draws.len() == 0 {
        Seq::empty()
    } else {
        painted_at(draws.drop_last(), frame, viewport, dx, dy) + draw_at(
            draws.last(),
            frame,
            viewport,
            dx,
            dy,
        )
    }
}

/// Whether no two of the regions share a pixel.
pub open spec fn disjoint(regions: Seq<Rect>) -> bool {
    forall|i: int, j: int|
        0 <= i < regions.len() && 0 <= j < regions.len() && i != j ==> !(#[trigger] regions[i]).overlaps(
            #[trigger] regions[j],
        )
}

/// Considering a layer for a region adds, at a device pixel of the region,
/// what the layer paints there, and nothing at any other device pixel.
proof fn lemma_layer_paints(
    plan: Plan,
    frame: Seq<LayerView>,
    index: int,
    region: Rect,
    viewport: Viewport,
    dx: int,
    dy: int,
)
    requires
        countable(frame),
        0 <= index < frame.len(),
        viewport.wf(),
        0 <= dx < viewport.spec_physical_size().width,
        0 <= dy < viewport.spec_physical_size().height,
    ensures
        painted_at(plan_layer(plan, index, frame[index], region, viewport).draws, frame, viewport, dx, dy)
            == painted_at(plan.draws, frame, viewport, dx, dy) + (if region.contains(
            viewport.logical_of(dx),
            viewport.logical_of(dy),
        ) {
            layer_at(
                frame[index],
                viewport.logical_of(dx),
                viewport.logical_of(dy),
            )
        } else {
            Seq::empty()
        }),
{
    let px = viewport.logical_of(dx);
    let py = viewport.logical_of(dy);
    let layer = frame[index];
    let before = painted_at(plan.draws, frame, viewport, dx, dy);
    crate::geometry::lemma_intersection_pixels(layer.bounds, region, px, py);
    match layer.bounds.spec_intersection(region) {
        Some(clip) => {
            if layer.quads.len() > 0 {
                let draw = LayerDraw {
                    layer: index as usize,
                    call: draw_of(plan.capacity, layer.quads.len() as int, clip, viewport),
                };
                let after = plan.draws.push(draw);
                assert(after.drop_last() =~= plan.draws);
                assert(after.last() == draw);
                lemma_scissor_exact(clip, viewport, dx, dy);
            } else {
                assert(before + Seq::<Quad>::empty() =~= before);
            }
        },
        None => {
            assert(before + Seq::<Quad>::empty() =~= before);
        },
    }
}

/// Redrawing a region adds, at a device pixel of the region, what the
/// layers paint there, back to front, and nothing at any other device
/// pixel.
proof fn lemma_region_paints(
    plan: Plan,
    frame: Seq<LayerView>,
    upto: int,
    region: Rect,
    viewport: Viewport,
    dx: int,
    dy: int,
)
    requires
        countable(frame),
        0 <= upto <= frame.len(),
        viewport.wf(),
        0 <= dx < viewport.spec_physical_size().width,
        0 <= dy < viewport.spec_physical_size().height,
    ensures
        painted_at(plan_region(plan, frame, upto, region, viewport).draws, frame, viewport, dx, dy)
            == painted_at(plan.draws, frame, viewport, dx, dy) + (if region.contains(
            viewport.logical_of(dx),
            viewport.logical_of(dy),
        ) {
            frame_at(
                frame.take(upto),
                viewport.logical_of(dx),
                viewport.logical_of(dy),
            )
        } else {
            Seq::empty()
        }),
    decreases upto,
{
    let px = viewport.logical_of(dx);
    let py = viewport.logical_of(dy);
    let before = painted_at(plan.draws, frame, viewport, dx, dy);
    if upto <= 0 {
        assert(frame.take(upto) =~= Seq::<LayerView>::empty());
        assert(before + Seq::<Quad>::empty() =~= before);
    } else {
        let sofar = plan_region(plan, frame, upto - 1, region, viewport);
        lemma_region_paints(plan, frame, upto - 1, region, viewport, dx, dy);
        lemma_layer_paints(sofar, frame, upto - 1, region, viewport, dx, dy);
        assert(frame.take(upto).drop_last() =~= frame.take(upto - 1));
        assert(frame.take(upto).last() == frame[upto - 1]);
        if region.contains(px, py) {
            assert((before + frame_at(frame.take(upto - 1), px, py)) + layer_at(frame[upto - 1], px, py)
                =~= before + (frame_at(frame.take(upto - 1), px, py) + layer_at(
                frame[upto - 1],
                px,
                py,
            )));
        } else {
            assert((before + Seq::<Quad>::empty()) + Seq::<Quad>::empty() =~= before + Seq::<Quad>::empty());
        }
    }
}

/// The draws that redraw regions of which no two share a pixel paint, at
/// each device pixel of a region, exactly what the frame paints there, back
/// to front and once; at every other device pixel they paint nothing.
pub proof fn lemma_damage_paints(
    plan: Plan,
    frame: Seq<LayerView>,
    damage: Seq<Rect>,
    viewport: Viewport,
    dx: int,
    dy: int,
)
    requires
        countable(frame),
        disjoint(damage),
        viewport.wf(),
        0 <= dx < viewport.spec_physical_size().width,
        0 <= dy < viewport.spec_physical_size().height,
    ensures
        painted_at(plan_damage(plan, frame, damage, viewport).draws, frame, viewport, dx, dy)
            == painted_at(plan.draws, frame, viewport, dx, dy) + (if covered(
            damage,
            viewport.logical_of(dx),
            viewport.logical_of(dy),
        ) {
            frame_at(
                frame,
                viewport.logical_of(dx),
                viewport.logical_of(dy),
            )
        } else {
            Seq::empty()
        }),
    decreases damage.len(),
{
    let px = viewport.logical_of(dx);
    let py = viewport.logical_of(dy);
    let before = painted_at(plan.draws, frame, viewport, dx, dy);
    let whole = frame_at(frame, px, py);
    if damage.len() == 0 {
        assert(before + Seq::<Quad>::empty() =~= before);
    } else {
        let front = damage.drop_last();
        let last = damage.last();
        assert forall|i: int, j: int| 0 <= i < front.len() && 0 <= j < front.len() && i != j implies !(
        #[trigger] front[i]).overlaps(#[trigger] front[j]) by {
            assert(front[i] == damage[i]);
            assert(front[j] == damage[j]);
        }
        let sofar = plan_damage(plan, frame, front, viewport);
        lemma_damage_paints(plan, frame, front, viewport, dx, dy);
        lemma_region_paints(sofar, frame, frame.len() as int, last, viewport, dx, dy);
        assert(frame.take(frame.len() as int) =~= frame);
        if last.contains(px, py) {
            assert(damage[damage.len() - 1].contains(px, py));
            if covered(front, px, py) {
                let k = choose|k: int| 0 <= k < front.len() && (#[trigger] front[k]).contains(px, py);
                assert(damage[k] == front[k]);
                assert(damage[k].overlaps(damage[damage.len() - 1]));
            }
            assert((before + Seq::<Quad>::empty()) + whole =~= before + whole);
        } else {
            if covered(damage, px, py) {
                let k = choose|k: int| 0 <= k < damage.len() && (#[trigger] damage[k]).contains(px, py);
                assert(front[k] == damage[k]);
            }
            if covered(front, px, py) {
                let k = choose|k: int| 0 <= k < front.len() && (#[trigger] front[k]).contains(px, py);
                assert(damage[k] == front[k]);
                assert((before + whole) + Seq::<Quad>::empty() =~= before + whole);
            } else {
                assert((before + Seq::<Quad>::empty()) + Seq::<Quad>::empty() =~= before + Seq::<
                    Quad,
                >::empty());
            }
        }
    }
}

/// After a present every device pixel of the target shows what the frame
/// paints there: the draws of the present paint it exactly once with what
/// the frame paints, back to front, or they leave it alone, and then the
/// frame that was rendered last painted the same there.
pub proof fn lemma_present_repaints(
    model: HistoryModel,
    start: Plan,
    current: Seq<LayerView>,
    viewport: Viewport,
    dx: int,
    dy: int,
)
    requires
        viewport.wf(),
        0 <= dx < viewport.spec_physical_size().width,
        0 <= dy < viewport.spec_physical_size().height,
        countable(current),
        start.draws.len() == 0,
    ensures
        ({
            let px = viewport.logical_of(dx);
            let py = viewport.logical_of(dy);
            let regions = model.present_regions(current, viewport);
            let painted = painted_at(
                plan_damage(start, current, regions, viewport).draws,
                current,
                viewport,
                dx,
                dy,
            );
            if crate::damage::covered(regions, px, py) {
                painted == crate::damage::frame_at(current, px, py)
            } else {
                &&& painted == Seq::<crate::quad::Quad>::empty()
                &&& model.size == viewport.spec_physical_size()
                &&& model.previous matches Some(previous) && crate::damage::frame_at(previous, px, py)
                    == crate::damage::frame_at(current, px, py)
            }
        }),
{
    let px = viewport.logical_of(dx);
    let py = viewport.logical_of(dy);
    let bounds = viewport.spec_logical_bounds();
    let regions = model.present_regions(current, viewport);
    crate::viewport::lemma_logical_pixel(viewport, dx, dy);
    let fitted = model.fitted(viewport.spec_physical_size());
    let raw = crate::history::raw_damage(fitted.previous, current, viewport);
    if raw.len() > 0 {
        crate::damage::lemma_grouped_separated(raw, bounds);
    }
    assert(disjoint(regions));
    lemma_damage_paints(start, current, regions, viewport, dx, dy);
    let nothing = painted_at(start.draws, current, viewport, dx, dy);
    assert(nothing =~= Seq::<crate::quad::Quad>::empty());
    let whole = crate::damage::frame_at(current, px, py);
    assert(nothing + whole =~= whole);
    assert(nothing + Seq::<crate::quad::Quad>::empty() =~= Seq::<crate::quad::Quad>::empty());
    if !crate::damage::covered(regions, px, py) {
        if model.previous is None || model.size != viewport.spec_physical_size() {
            crate::history::lemma_full_damage(model, current, viewport);
            assert(regions[0].contains(px, py));
        } else {
            let previous = model.previous->Some_0;
            if crate::damage::frame_at(previous, px, py) != whole {
                crate::history::lemma_present_complete(model, current, viewport, px, py);
            }
        }
    }
}

} // verus!
