//! The drawing surface that a layout pass paints one frame on.

use vstd::prelude::*;
use crate::geometry::Rect;
use crate::geometry::Transformation;
use crate::layer::Layer;
use crate::quad::Background;
use crate::quad::Primitive;
use crate::stack::Stack;
use crate::stack::StackModel;

verus! {

/// Collects the quads of a frame into a stack of clipped layers.
#[derive(Debug)]
pub struct Canvas {
    layers: Stack,
}

impl View for Canvas {
    type V = StackModel;

    closed spec fn view(&self) -> StackModel {
        self.layers@
    }
}

impl Canvas {
    /// The invariant of the representation.
    pub closed spec fn wf(&self) -> bool {
        self.layers.wf()
    }

    /// A well-formed canvas has a valid value.
    pub proof fn lemma_valid(&self)
        requires
            self.wf(),
        ensures
            self@.valid(),
    {
        self.layers.lemma_valid();
    }

    /// A canvas with a blank base layer.
    pub fn new() -> (canvas: Canvas)
        ensures
            canvas.wf(),
            canvas@ == StackModel::fresh(),
    {
        Canvas { layers: Stack::new() }
    }

    /// Opens a layer clipped to `bounds`; it receives the quads that follow.
    pub fn start_layer(&mut self, bounds: Rect)
        requires
            old(self).wf(),
            old(self)@.transformation().fits(bounds),
        ensures
            final(self).wf(),
            final(self)@ == old(self)@.start_layer(bounds),
    {
        self.layers.push_clip(bounds);
    }

    /// Closes the layer that the matching `start_layer` opened.
    pub fn end_layer(&mut self)
        requires
            old(self).wf(),
            old(self)@.depth() > 1,
        ensures
            final(self).wf(),
            final(self)@ == old(self)@.end_layer(),
    {
        self.layers.pop_clip();
    }

    /// Closes the current layer if one is open; with only the base layer
    /// open nothing changes. The answer says whether a layer was closed.
    pub fn try_end_layer(&mut self) -> (closed: bool)
        requires
            old(self).wf(),
        ensures
            final(self).wf(),
            closed == (old(self)@.depth() > 1),
            closed ==> final(self)@ == old(self)@.end_layer(),
            !closed ==> final(self)@ == old(self)@,
    {
        self.layers.try_pop_clip()
    }

    /// Applies `transformation` to what is drawn until the matching
    /// `end_transformation`.
    pub fn start_transformation(&mut self, transformation: Transformation)
        requires
            old(self).wf(),
            old(self)@.transformation().composable(transformation),
        ensures
            final(self).wf(),
            final(self)@ == old(self)@.start_transformation(transformation),
    {
        self.layers.push_transformation(transformation);
    }

    /// Ends the transformation that the matching `start_transformation`
    /// began.
    pub fn end_transformation(&mut self)
        requires
            old(self).wf(),
            old(self)@.transformations.len() > 1,
        ensures
            final(self).wf(),
            final(self)@ == old(self)@.end_transformation(),
    {
        self.layers.pop_transformation();
    }

    /// Ends the current transformation if one has begun; at the bottom
    /// nothing changes. The answer says whether one was ended.
    pub fn try_end_transformation(&mut self) -> (ended: bool)
        requires
            old(self).wf(),
        ensures
            final(self).wf(),
            ended == (old(self)@.transformations.len() > 1),
            ended ==> final(self)@ == old(self)@.end_transformation(),
            !ended ==> final(self)@ == old(self)@,
    {
        self.layers.try_pop_transformation()
    }

    /// Draws a quad on the current layer, over what the layer holds.
    pub fn fill_quad(&mut self, quad: Primitive, background: Background)
        requires
            old(self).wf(),
            old(self)@.transformation().fits(quad.bounds),
        ensures
            final(self).wf(),
            final(self)@ == old(self)@.fill_quad(quad, background),
    {
        self.layers.draw_quad(quad, background);
    }

    /// Starts a new frame.
    pub fn clear(&mut self)
        requires
            old(self).wf(),
        ensures
            final(self).wf(),
            final(self)@ == old(self)@.cleared(),
    {
        self.layers.clear();
    }

    /// How many layers are open, the base layer included.
    pub fn depth(&self) -> (d: usize)
        requires
            self.wf(),
        ensures
            d == self@.depth(),
    {
        self.layers.depth()
    }

    /// How many transformations are active, the identity at the bottom
    /// included.
    pub fn transformation_depth(&self) -> (d: usize)
        ensures
            d == self@.transformations.len(),
    {
        self.layers.transformation_depth()
    }

    /// The current transformation.
    pub fn transformation(&self) -> (t: Transformation)
        requires
            self.wf(),
        ensures
            t == self@.transformation(),
    {
        self.layers.transformation()
    }

    /// How many layers are kept for reuse beyond the frame.
    pub fn kept(&self) -> (n: usize)
        requires
            self.wf(),
        ensures
            n == self@.spare.len(),
    {
        self.layers.kept()
    }

    /// How many layers the frame holds.
    pub fn len(&self) -> (n: usize)
        ensures
            n == self@.frame.len(),
    {
        self.layers.len()
    }

    /// The layer at `index` in paint order, the base layer first.
    pub fn layer(&self, index: usize) -> (layer: &Layer)
        requires
            self.wf(),
            index < self@.frame.len(),
        ensures
            layer@ == self@.frame[index as int],
    {
        self.layers.layer(index)
    }

    /// A copy of the frame's layers, in paint order.
    pub fn layers(&self) -> (frame: Vec<Layer>)
        requires
            self.wf(),
        ensures
            frame@.len() == self@.frame.len(),
            forall|i: int| 0 <= i < frame@.len() ==> (#[trigger] frame@[i])@ == self@.frame[i],
    {
        self.layers.snapshot()
    }
}

} // verus!
