//! The stack of layers of one frame: nested clips and nested transformations.

use vstd::prelude::*;
use crate::geometry::Rect;
use crate::geometry::Transformation;
use crate::layer::Layer;
use crate::layer::LayerView;
use crate::quad::Background;
use crate::quad::Primitive;
use crate::quad::Quad;

verus! {

/// What a stack is, as a value.
pub struct StackModel {
    /// The layers of the frame so far, in paint order; the base layer first.
    pub frame: Seq<LayerView>,
    /// For each open clip, the layer that drawing returns to when it closes.
    pub open: Seq<int>,
    /// The layer that receives new quads.
    pub current: int,
    /// The active transformations, each composed with those below it.
    pub transformations: Seq<Transformation>,
    /// The layers kept for reuse beyond the frame, the next one to be
    /// reused first.
    pub spare: Seq<LayerView>,
}

impl StackModel {
    /// What every stack satisfies.
    pub open spec fn valid(self) -> bool {
        &&& self.frame.len() >= 1
        &&& 0 <= self.current < self.frame.len()
        &&& forall|i: int| 0 <= i < self.open.len() ==> 0 <= #[trigger] self.open[i] < self.frame.len()
        &&& self.transformations.len() >= 1
        &&& forall|i: int| 0 <= i < self.spare.len() ==> #[trigger] self.spare[i] == LayerView::blank()
    }

    /// How many layers are open, the base layer included.
    pub open spec fn depth(self) -> nat {
        self.open.len() + 1
    }

    /// The transformation that new quads and clips go through.
    pub open spec fn transformation(self) -> Transformation {
        self.transformations.last()
    }

    /// A stack at the start of its first frame.
    pub open spec fn fresh() -> StackModel {
        StackModel {
            frame: seq![LayerView::blank()],
            open: Seq::empty(),
            current: 0,
            transformations: seq![Transformation::spec_identity()],
            spare: Seq::empty(),
        }
    }

    /// Opens a layer clipped to the image of `bounds`. A layer kept for
    /// reuse is taken for it, if there is one.
    pub open spec fn start_layer(self, bounds: Rect) -> StackModel {
        StackModel {
            frame: self.frame.push(LayerView::clipped(self.transformation().spec_apply(bounds))),
            open: self.open.push(self.current),
            current: self.frame.len() as int,
            transformations: self.transformations,
            spare: if self.spare.len() > 0 {
                self.spare.drop_first()
            } else {
                self.spare
            },
        }
    }

    /// Closes the current layer; drawing returns to the layer that was
    /// current when it was opened.
    pub open spec fn end_layer(self) -> StackModel {
        StackModel {
            frame: self.frame,
            open: self.open.drop_last(),
            current: self.open.last(),
            transformations: self.transformations,
            spare: self.spare,
        }
    }

    /// Makes `t`, applied before the current transformation, the current one.
    pub open spec fn start_transformation(self, t: Transformation) -> StackModel {
        StackModel {
            frame: self.frame,
            open: self.open,
            current: self.current,
            transformations: self.transformations.push(self.transformation().spec_compose(t)),
            spare: self.spare,
        }
    }

    /// Returns to the transformation below the current one.
    pub open spec fn end_transformation(self) -> StackModel {
        StackModel {
            frame: self.frame,
            open: self.open,
            current: self.current,
            transformations: self.transformations.drop_last(),
            spare: self.spare,
        }
    }

    /// Appends a quad to the current layer.
    pub open spec fn fill_quad(self, quad: Primitive, background: Background) -> StackModel {
        let layer = self.frame[self.current];
        StackModel {
            frame: self.frame.update(
                self.current,
                LayerView {
                    bounds: layer.bounds,
                    quads: layer.quads.push(
                        Quad::spec_record(quad, background, self.transformation()),
                    ),
                },
            ),
            open: self.open,
            current: self.current,
            transformations: self.transformations,
            spare: self.spare,
        }
    }

    /// Starts a new frame: one blank base layer, no open clip. Every other
    /// layer of the frame is emptied, its clip lifted, and kept for reuse
    /// with those that were kept before. The transformations stay.
    pub open spec fn cleared(self) -> StackModel {
        StackModel {
            frame: seq![LayerView::blank()],
            open: Seq::empty(),
            current: 0,
            transformations: self.transformations,
            spare: Seq::new((self.frame.len() - 1 + self.spare.len()) as nat, |i: int| LayerView::blank()),
        }
    }
}

/// A stack of layers used for drawing one frame after another. Layers are
/// kept between frames and reused.
#[derive(Debug)]
pub struct Stack {
    layers: Vec<Layer>,
    transformations: Vec<Transformation>,
    previous: Vec<usize>,
    current: usize,
    active_count: usize,
}

impl View for Stack {
    type V = StackModel;

    closed spec fn view(&self) -> StackModel {
        StackModel {
            frame: Seq::new(self.active_count as nat, |i: int| self.layers@[i]@),
            open: Seq::new(self.previous@.len(), |i: int| self.previous@[i] as int),
            current: self.current as int,
            transformations: self.transformations@,
            spare: Seq::new(
                (self.layers@.len() - self.active_count) as nat,
                |i: int| self.layers@[self.active_count + i]@,
            ),
        }
    }
}

impl Stack {
    /// The invariant of the representation.
    pub closed spec fn wf(&self) -> bool {
        &&& 1 <= self.active_count <= self.layers@.len()
        &&& self.current < self.active_count
        &&& self.previous@.len() < self.active_count
        &&& forall|i: int| 0 <= i < self.previous@.len() ==> #[trigger] self.previous@[i] < self.active_count
        &&& self.transformations@.len() >= 1
        &&& forall|i: int|
            self.active_count <= i < self.layers@.len() ==> (#[trigger] self.layers@[i])@ == LayerView::blank()
    }

    /// A well-formed stack has a valid value.
    pub proof fn lemma_valid(&self)
        requires
            self.wf(),
        ensures
            self@.valid(),
    {
    }

    /// A stack with a blank base layer and the identity transformation.
    pub fn new() -> (stack: Stack)
        ensures
            stack.wf(),
            stack@ == StackModel::fresh(),
    {
        let mut layers: Vec<Layer> = Vec::new();
        layers.push(Layer::default());
        let mut transformations: Vec<Transformation> = Vec::new();
        transformations.push(Transformation::identity());
        let stack = Stack {
            layers,
            transformations,
            previous: Vec::new(),
            current: 0,
            active_count: 1,
        };
        assert(stack@.frame =~= StackModel::fresh().frame);
        assert(stack@.open =~= StackModel::fresh().open);
        assert(stack@.transformations =~= StackModel::fresh().transformations);
        assert(stack@.spare =~= StackModel::fresh().spare);
        stack
    }

    /// The current transformation.
    pub fn transformation(&self) -> (t: Transformation)
        requires
            self.wf(),
        ensures
            t == self@.transformation(),
    {
        self.transformations[self.transformations.len() - 1]
    }

    /// How many layers are open, the base layer included.
    pub fn depth(&self) -> (d: usize)
        requires
            self.wf(),
        ensures
            d == self@.depth(),
    {
        self.previous.len() + 1
    }

    /// How many transformations are active, the identity at the bottom
    /// included.
    pub fn transformation_depth(&self) -> (d: usize)
        ensures
            d == self@.transformations.len(),
    {
        self.transformations.len()
    }

    /// How many layers the frame holds so far.
    pub fn len(&self) -> (n: usize)
        ensures
            n == self@.frame.len(),
    {
        self.active_count
    }

    /// How many layers are kept for reuse beyond the frame.
    pub fn kept(&self) -> (n: usize)
        requires
            self.wf(),
        ensures
            n == self@.spare.len(),
    {
        self.layers.len() - self.active_count
    }

    /// The layer at `index` in paint order.
    pub fn layer(&self, index: usize) -> (layer: &Layer)
        requires
            self.wf(),
            index < self@.frame.len(),
        ensures
            layer@ == self@.frame[index as int],
    {
        &self.layers[index]
    }

    /// Opens a clip: a layer clipped to the image of `bounds` under the
    /// current transformation joins the frame and becomes the current one.
    pub fn push_clip(&mut self, bounds: Rect)
        requires
            old(self).wf(),
            old(self)@.transformation().fits(bounds),
        ensures
            final(self).wf(),
            final(self)@ == old(self)@.start_layer(bounds),
    {
        let transformed = self.transformation().apply(&bounds);
        let index = self.active_count;
        self.previous.push(self.current);
        if index == self.layers.len() {
            self.layers.push(Layer::with_bounds(transformed));
        } else {
            self.layers[index].resize(transformed);
        }
        let allocated = self.layers.len();
        assert(index < allocated);
        assert(self.layers@[index as int]@.quads =~= Seq::empty());
        assert(self.layers@[index as int]@ == LayerView::clipped(transformed));
        assert(forall|k: int| 0 <= k < index ==> self.layers@[k] == old(self).layers@[k]);
        self.current = index;
        self.active_count = index + 1;
        assert(self@.frame =~= old(self)@.start_layer(bounds).frame);
        assert(self@.open =~= old(self)@.start_layer(bounds).open);
        assert(self@.spare =~= old(self)@.start_layer(bounds).spare);
    }

    /// Closes the current clip; drawing returns to the layer that was
    /// current when the clip was opened. The closed layer stays in the frame.
    pub fn pop_clip(&mut self)
        requires
            old(self).wf(),
            old(self)@.depth() > 1,
        ensures
            final(self).wf(),
            final(self)@ == old(self)@.end_layer(),
    {
        let back = self.previous.pop();
        match back {
            Some(index) => {
                self.current = index;
            },
            None => {},
        }
        assert(self@.open =~= old(self)@.end_layer().open);
        assert(self@.frame =~= old(self)@.frame);
        assert(self@.spare =~= old(self)@.spare);
    }

    /// Closes the current clip if one is open. With only the base layer
    /// open nothing is closed and nothing changes; the answer says which.
    pub fn try_pop_clip(&mut self) -> (closed: bool)
        requires
            old(self).wf(),
        ensures
            final(self).wf(),
            closed == (old(self)@.depth() > 1),
            closed ==> final(self)@ == old(self)@.end_layer(),
            !closed ==> final(self)@ == old(self)@,
    {
        if self.previous.len() > 0 {
            self.pop_clip();
            true
        } else {
            false
        }
    }

    /// Returns to the transformation below the current one if there is
    /// one. At the bottom nothing changes; the answer says which.
    pub fn try_pop_transformation(&mut self) -> (ended: bool)
        requires
            old(self).wf(),
        ensures
            final(self).wf(),
            ended == (old(self)@.transformations.len() > 1),
            ended ==> final(self)@ == old(self)@.end_transformation(),
            !ended ==> final(self)@ == old(self)@,
    {
        if self.transformations.len() > 1 {
            self.pop_transformation();
            true
        } else {
            false
        }
    }

    /// Makes `transformation`, applied before the current one, the current
    /// transformation.
    pub fn push_transformation(&mut self, transformation: Transformation)
        requires
            old(self).wf(),
            old(self)@.transformation().composable(transformation),
        ensures
            final(self).wf(),
            final(self)@ == old(self)@.start_transformation(transformation),
    {
        let composed = self.transformation().compose(&transformation);
        self.transformations.push(composed);
        assert(self@.frame =~= old(self)@.frame);
        assert(self@.open =~= old(self)@.open);
        assert(self@.spare =~= old(self)@.spare);
    }

    /// Returns to the transformation below the current one.
    pub fn pop_transformation(&mut self)
        requires
            old(self).wf(),
            old(self)@.transformations.len() > 1,
        ensures
            final(self).wf(),
            final(self)@ == old(self)@.end_transformation(),
    {
        let _ = self.transformations.pop();
        assert(self@.frame =~= old(self)@.frame);
        assert(self@.open =~= old(self)@.open);
        assert(self@.spare =~= old(self)@.spare);
    }

    /// Appends a quad to the current layer, under the current
    /// transformation.
    pub fn draw_quad(&mut self, quad: Primitive, background: Background)
        requires
            old(self).wf(),
            old(self)@.transformation().fits(quad.bounds),
        ensures
            final(self).wf(),
            final(self)@ == old(self)@.fill_quad(quad, background),
    {
        let transformation = self.transformation();
        self.layers[self.current].draw_quad(quad, background, transformation);
        assert(self@.frame =~= old(self)@.fill_quad(quad, background).frame);
        assert(self@.open =~= old(self)@.open);
        assert(self@.spare =~= old(self)@.spare);
    }

    /// Starts a new frame: the layers of the last frame are emptied and
    /// kept for reuse; one blank base layer is left in the frame.
    pub fn clear(&mut self)
        requires
            old(self).wf(),
        ensures
            final(self).wf(),
            final(self)@ == old(self)@.cleared(),
    {
        let mut i: usize = 0;
        while i < self.active_count
            invariant
                i <= self.active_count <= self.layers@.len(),
                self.active_count == old(self).active_count,
                self.transformations == old(self).transformations,
                self.layers@.len() == old(self).layers@.len(),
                forall|k: int| 0 <= k < i ==> (#[trigger] self.layers@[k])@ == LayerView::blank(),
                forall|k: int|
                    self.active_count <= k < self.layers@.len() ==> (#[trigger] self.layers@[k])@
                        == LayerView::blank(),
            decreases self.active_count - i,
        {
            self.layers[i].reset();
            i += 1;
        }
        self.current = 0;
        self.active_count = 1;
        self.previous.clear();
        assert(self@.frame =~= old(self)@.cleared().frame);
        assert(self@.open =~= old(self)@.cleared().open);
        assert(self@.spare =~= old(self)@.cleared().spare);
    }

    /// A copy of the frame's layers, in paint order.
    pub fn snapshot(&self) -> (frame: Vec<Layer>)
        requires
            self.wf(),
        ensures
            frame@.len() == self@.frame.len(),
            forall|i: int| 0 <= i < frame@.len() ==> (#[trigger] frame@[i])@ == self@.frame[i],
    {
        let mut out: Vec<Layer> = Vec::new();
        let mut i: usize = 0;
        while i < self.active_count
            invariant
                self.wf(),
                i <= self.active_count,
                out@.len() == i,
                forall|k: int| 0 <= k < i ==> (#[trigger] out@[k])@ == self.layers@[k]@,
            decreases self.active_count - i,
        {
            out.push(self.layers[i].duplicate());
            i += 1;
        }
        out
    }
}

/// One step of clipping: a layer is opened or the current one is closed.
pub enum ClipOp {
    Start(Rect),
    End,
}

/// By how much a run of steps deepens the stack.
pub open spec fn net_depth(ops: Seq<ClipOp>) -> int
    decreases ops.len(),
{
    if ops.len() == 0 {
        0
    } else {
        net_depth(ops.drop_last()) + match ops.last() {
            ClipOp::Start(_) => 1int,
            ClipOp::End => -1int,
        }
    }
}

/// Whether every closing step of the run closes a layer that the run has
/// opened, and none of these is left open at the end.
pub open spec fn balanced(ops: Seq<ClipOp>) -> bool {
    &&& net_depth(ops) == 0
    &&& forall|k: int| 0 <= k <= ops.len() ==> net_depth(#[trigger] ops.take(k)) >= 0
}

/// The stack after a run of steps; `None` when a closing step comes while
/// only the base layer is open.
pub open spec fn replay(start: StackModel, ops: Seq<ClipOp>) -> Option<StackModel>
    decreases ops.len(),
{
    if ops.len() == 0 {
        Some(start)
    } else {
        match replay(start, ops.drop_last()) {
            None => None,
            Some(m) => match ops.last() {
                ClipOp::Start(bounds) => Some(m.start_layer(bounds)),
                ClipOp::End => if m.depth() > 1 {
                    Some(m.end_layer())
                } else {
                    None
                },
            },
        }
    }
}

/// While no prefix of a run closes more than it opened, the run is
/// accepted, what was open before it stays open below what it opened, and
/// the first layer it leaves open returns to the layer it started from.
proof fn lemma_replay_prefix(start: StackModel, ops: Seq<ClipOp>)
    requires
        forall|k: int| 0 <= k <= ops.len() ==> net_depth(#[trigger] ops.take(k)) >= 0,
    ensures
        replay(start, ops) matches Some(m) && {
            &&& m.open.len() == start.open.len() + net_depth(ops)
            &&& m.open.take(start.open.len() as int) == start.open
            &&& m.transformations == start.transformations
            &&& net_depth(ops) == 0 ==> m.current == start.current
            &&& net_depth(ops) > 0 ==> m.open[start.open.len() as int] == start.current
        },
    decreases ops.len(),
{
    if ops.len() == 0 {
        assert(start.open.take(start.open.len() as int) =~= start.open);
    } else {
        let front = ops.drop_last();
        assert forall|k: int| 0 <= k <= front.len() implies net_depth(#[trigger] front.take(k)) >= 0 by {
            assert(front.take(k) =~= ops.take(k));
        }
        lemma_replay_prefix(start, front);
        assert(ops.take(ops.len() as int) =~= ops);
        assert(front.take(front.len() as int) =~= front);
        let m = replay(start, front)->Some_0;
        let n = start.open.len() as int;
        match ops.last() {
            ClipOp::Start(bounds) => {
                let after = m.start_layer(bounds);
                assert(after.open.take(n) =~= m.open.take(n));
            },
            ClipOp::End => {
                assert(net_depth(front) >= 1);
                let after = m.end_layer();
                assert(after.open.take(n) =~= m.open.take(n));
            },
        }
    }
}

/// A balanced run of opening and closing steps is accepted and leaves open
/// exactly what was open before it, with the same current layer: from a new
/// frame, only the base layer.
pub proof fn lemma_balanced_returns(start: StackModel, ops: Seq<ClipOp>)
    requires
        balanced(ops),
    ensures
        replay(start, ops) matches Some(m) && m.depth() == start.depth() && m.open == start.open
            && m.current == start.current,
        start.depth() == 1 && start.current == 0 ==> (replay(start, ops) matches Some(m) && m.depth() == 1
            && m.current == 0),
{
    lemma_replay_prefix(start, ops);
    let m = replay(start, ops)->Some_0;
    assert(m.open.take(start.open.len() as int) =~= m.open);
}

/// A closing step after a balanced run that started with only the base
/// layer open is rejected.
pub proof fn lemma_extra_end_rejected(start: StackModel, ops: Seq<ClipOp>)
    requires
        balanced(ops),
        start.depth() == 1,
    ensures
        replay(start, ops.push(ClipOp::End)) is None,
{
    lemma_balanced_returns(start, ops);
    assert(ops.push(ClipOp::End).drop_last() =~= ops);
}

/// Starting a new frame twice in a row is starting it once, and from then
/// on every layer but the base layer is kept blank for reuse.
pub proof fn lemma_clear_twice(model: StackModel)
    requires
        model.valid(),
    ensures
        model.cleared().valid(),
        model.cleared().cleared() == model.cleared(),
        model.cleared().spare.len() == model.frame.len() - 1 + model.spare.len(),
{
    assert(model.cleared().cleared().spare =~= model.cleared().spare);
}

/// A run of steps is rejected exactly if one of its closing steps comes
/// while only the base layer is open; up to that step every step is
/// accepted.
pub proof fn lemma_replay_rejects(start: StackModel, ops: Seq<ClipOp>)
    requires
        ops.len() > 0,
    ensures
        replay(start, ops) is None <==> (replay(start, ops.drop_last()) is None || (ops.last() is End
            && replay(start, ops.drop_last())->Some_0.depth() <= 1)),
{
}

} // verus!
