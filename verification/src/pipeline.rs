//! The bookkeeping of the instanced quad pipeline: the scissor of a draw
//! call and the capacity of the instance buffer.

use vstd::prelude::*;
use crate::geometry::Rect;
use crate::quad::Quad;
use crate::viewport::ceil_div;
use crate::viewport::lemma_physical_of;
use crate::viewport::Scale;
use crate::viewport::Viewport;

verus! {

/// The capacity, in quads, that the instance buffer is created with.
pub const MAX_QUADS: usize = 1000;

/// The index count of one quad: two triangles.
pub const INDEX_COUNT: u32 = 6;

/// The graphics backend of the device.
#[derive(Clone, Copy, Debug, PartialEq, Eq, Structural)]
pub enum Backend {
    OpenGl,
    Metal,
}

/// Why a pipeline could not be created.
#[derive(Clone, Copy, Debug, PartialEq, Eq, Structural)]
pub enum PipelineError {
    /// The backend lacks the shader stages that the pipeline needs.
    UnsupportedBackend,
}

/// A clip in device pixels, measured from the bottom-left corner of the
/// target.
#[derive(Clone, Copy, Debug, PartialEq, Eq, Structural)]
pub struct Scissor {
    pub x: u32,
    pub y: u32,
    pub width: u32,
    pub height: u32,
}

/// One instanced draw: what the device is asked to do for one layer.
#[derive(Clone, Copy, Debug, PartialEq, Eq, Structural)]
pub struct DrawCall {
    /// The clip of the draw.
    pub scissor: Scissor,
    /// How many quads are uploaded and instanced.
    pub instances: usize,
    /// The capacity to re-create the instance buffer with before the upload;
    /// `None` when the buffer is large enough.
    pub grow_to: Option<usize>,
}

/// `v` held between `lo` and `hi`.
pub open spec fn clamp(v: int, lo: int, hi: int) -> int {
    if v < lo {
        lo
    } else if v > hi {
        hi
    } else {
        v
    }
}

/// The scissor for the logical clip `bounds`: the device pixels that
/// belong to the logical pixels of the clip, held inside the target,
/// measured from the bottom.
pub open spec fn scissor_of(bounds: Rect, viewport: Viewport) -> Scissor {
    let w = viewport.spec_physical_size().width as int;
    let h = viewport.spec_physical_size().height as int;
    let left = clamp(viewport.physical_of(bounds.x as int), 0, w);
    let right = clamp(viewport.physical_of(bounds.right()), 0, w);
    let top = clamp(viewport.physical_of(bounds.y as int), 0, h);
    let bottom = clamp(viewport.physical_of(bounds.bottom()), 0, h);
    Scissor {
        x: left as u32,
        y: (h - bottom) as u32,
        width: (right - left) as u32,
        height: (bottom - top) as u32,
    }
}

/// Whether the scissor admits the device pixel in column `dx` and row `dy`,
/// rows counted from the top of a target that is `height` rows high.
pub open spec fn admits(scissor: Scissor, height: int, dx: int, dy: int) -> bool {
    &&& scissor.x <= dx < scissor.x + scissor.width
    &&& scissor.y <= height - 1 - dy < scissor.y + scissor.height
}

/// The capacity after a draw of `count` quads: grown to the count if it
/// was smaller, unchanged otherwise.
pub open spec fn capacity_for(capacity: int, count: int) -> int {
    if count > capacity {
        count
    } else {
        capacity
    }
}

/// The capacity after draws of `counts` quads, one after the other.
pub open spec fn capacity_after(capacity: int, counts: Seq<int>) -> int
    decreases counts.len(),
{
    if counts.len() == 0 {
        capacity
    } else {
        capacity_for(capacity_after(capacity, counts.drop_last()), counts.last())
    }
}

/// The draw of `count` quads clipped to `bounds`, with a buffer of
/// `capacity` quads.
pub open spec fn draw_of(capacity: int, count: int, bounds: Rect, viewport: Viewport) -> DrawCall {
    DrawCall {
        scissor: scissor_of(bounds, viewport),
        instances: count as usize,
        grow_to: if count > capacity {
            Some(count as usize)
        } else {
            None
        },
    }
}

/// The first device pixel of the logical pixel `v`, held between zero and
/// `hi`.
fn scaled_clamp(v: i64, scale: Scale, hi: u32) -> (out: u32)
    requires
        -0x1_0000_0000 <= v <= 0x2_0000_0000,
        scale.denominator >= 1,
    ensures
        out == clamp(ceil_div(v * scale.numerator, scale.denominator as int), 0, hi as int),
{
    let n = scale.numerator;
    let d = scale.denominator;
    if v <= 0 {
        assert((v * n + d - 1) / (d as int) <= 0) by (nonlinear_arith)
            requires
                v <= 0,
                n >= 0,
                d >= 1,
        ;
        return 0;
    }
    assert(0 <= (v as int) * (n as int) <= 0x2_0000_0000 * 0x1_0000_0000) by (nonlinear_arith)
        requires
            0 <= v as int <= 0x2_0000_0000,
            0 <= n as int <= 0x1_0000_0000,
    ;
    let total: u128 = v as u128 * n as u128 + (d as u128 - 1);
    let first: u128 = total / d as u128;
    if first > hi as u128 {
        hi
    } else {
        first as u32
    }
}

/// The scissor for the logical clip `bounds`.
pub fn scissor(bounds: &Rect, viewport: &Viewport) -> (out: Scissor)
    requires
        viewport.wf(),
    ensures
        out == scissor_of(*bounds, *viewport),
{
    let s = viewport.scale_factor();
    let w = viewport.physical_width();
    let h = viewport.physical_height();
    let left = scaled_clamp(bounds.x as i64, s, w);
    let right = scaled_clamp(bounds.x as i64 + bounds.width as i64, s, w);
    let top = scaled_clamp(bounds.y as i64, s, h);
    let bottom = scaled_clamp(bounds.y as i64 + bounds.height as i64, s, h);
    proof {
        lemma_physical_monotone(*viewport, bounds.x as int, bounds.right());
        lemma_physical_monotone(*viewport, bounds.y as int, bounds.bottom());
    }
    Scissor { x: left, y: h - bottom, width: right - left, height: bottom - top }
}

/// Later logical pixels start at later device pixels.
proof fn lemma_physical_monotone(viewport: Viewport, a: int, b: int)
    requires
        viewport.wf(),
        a <= b,
    ensures
        viewport.physical_of(a) <= viewport.physical_of(b),
{
    let n = viewport.spec_scale().numerator as int;
    let d = viewport.spec_scale().denominator as int;
    assert((a * n + d - 1) / d <= (b * n + d - 1) / d) by (nonlinear_arith)
        requires
            a <= b,
            n >= 1,
            d >= 1,
    ;
}

/// The scissor lies inside the target, and it admits a device pixel of the
/// target exactly if the logical pixel that the device pixel belongs to
/// lies in the clip.
pub proof fn lemma_scissor_exact(bounds: Rect, viewport: Viewport, dx: int, dy: int)
    requires
        viewport.wf(),
        0 <= dx < viewport.spec_physical_size().width,
        0 <= dy < viewport.spec_physical_size().height,
    ensures
        scissor_of(bounds, viewport).x + scissor_of(bounds, viewport).width
            <= viewport.spec_physical_size().width,
        scissor_of(bounds, viewport).y + scissor_of(bounds, viewport).height
            <= viewport.spec_physical_size().height,
        admits(scissor_of(bounds, viewport), viewport.spec_physical_size().height as int, dx, dy)
            <==> bounds.contains(viewport.logical_of(dx), viewport.logical_of(dy)),
{
    lemma_physical_monotone(viewport, bounds.x as int, bounds.right());
    lemma_physical_monotone(viewport, bounds.y as int, bounds.bottom());
    lemma_physical_of(viewport, bounds.x as int, dx);
    lemma_physical_of(viewport, bounds.right(), dx);
    lemma_physical_of(viewport, bounds.y as int, dy);
    lemma_physical_of(viewport, bounds.bottom(), dy);
}

/// The capacity never shrinks, and after a run of draws it holds every
/// count of the run.
pub proof fn lemma_capacity_monotone(capacity: int, counts: Seq<int>)
    ensures
        capacity_after(capacity, counts) >= capacity,
        forall|i: int| 0 <= i < counts.len() ==> capacity_after(capacity, counts) >= #[trigger] counts[i],
        forall|k: int|
            0 <= k <= counts.len() ==> capacity_after(capacity, counts) >= capacity_after(
                capacity,
                #[trigger] counts.take(k),
            ),
    decreases counts.len(),
{
    if counts.len() > 0 {
        let front = counts.drop_last();
        lemma_capacity_monotone(capacity, front);
        assert forall|i: int| 0 <= i < counts.len() implies capacity_after(capacity, counts)
            >= #[trigger] counts[i] by {
            if i < front.len() {
                assert(front[i] == counts[i]);
            }
        }
        assert forall|k: int| 0 <= k <= counts.len() implies capacity_after(capacity, counts)
            >= capacity_after(capacity, #[trigger] counts.take(k)) by {
            if k < counts.len() {
                assert(counts.take(k) =~= front.take(k));
            } else {
                assert(counts.take(k) =~= counts);
            }
        }
    } else {
        assert forall|k: int| 0 <= k <= counts.len() implies capacity_after(capacity, counts)
            >= capacity_after(capacity, #[trigger] counts.take(k)) by {
            assert(counts.take(k) =~= counts);
        }
    }
}

/// The quad pipeline: how many quads its instance buffer holds.
#[derive(Debug)]
pub struct Pipeline {
    capacity: usize,
}

impl Pipeline {
    /// The capacity of the instance buffer, in quads.
    pub closed spec fn spec_capacity(&self) -> int {
        self.capacity as int
    }

    /// A pipeline for `backend`, with an instance buffer of `MAX_QUADS`
    /// quads. Metal is not supported.
    pub fn new(backend: Backend) -> (out: Result<Pipeline, PipelineError>)
        ensures
            backend == Backend::Metal ==> out == Err::<Pipeline, PipelineError>(
                PipelineError::UnsupportedBackend,
            ),
            backend != Backend::Metal ==> (out matches Ok(p) && p.spec_capacity() == MAX_QUADS),
    {
        match backend {
            Backend::Metal => Err(PipelineError::UnsupportedBackend),
            Backend::OpenGl => Ok(Pipeline { capacity: MAX_QUADS }),
        }
    }

    /// The capacity of the instance buffer, in quads.
    pub fn capacity(&self) -> (c: usize)
        ensures
            c == self.spec_capacity(),
    {
        self.capacity
    }

    /// Plans the draw of `instances` clipped to `bounds`: the scissor, the
    /// number of instances, and whether the instance buffer must grow first.
    /// The buffer grows to the number of instances when it is too small and
    /// never shrinks.
    pub fn render(&mut self, instances: &[Quad], bounds: Rect, viewport: &Viewport) -> (call: DrawCall)
        requires
            viewport.wf(),
        ensures
            call == draw_of(old(self).spec_capacity(), instances@.len() as int, bounds, *viewport),
            final(self).spec_capacity() == capacity_for(
                old(self).spec_capacity(),
                instances@.len() as int,
            ),
    {
        let count = instances.len();
        let grow_to = if count > self.capacity {
            self.capacity = count;
            Some(count)
        } else {
            None
        };
        DrawCall { scissor: scissor(&bounds, viewport), instances: count, grow_to }
    }
}

} // verus!
