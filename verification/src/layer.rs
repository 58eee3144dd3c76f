//! A layer: a clip rectangle and the quads queued for it, in paint order.

use vstd::prelude::*;
use crate::geometry::Rect;
use crate::geometry::Transformation;
use crate::quad::Background;
use crate::quad::Primitive;
use crate::quad::Quad;

verus! {

/// What a layer is, as a value: its clip and its quads, first painted first.
pub struct LayerView {
    pub bounds: Rect,
    pub quads: Seq<Quad>,
}

impl LayerView {
    /// The unclipped layer without quads.
    pub open spec fn blank() -> LayerView {
        LayerView { bounds: Rect::spec_infinite(), quads: Seq::empty() }
    }

    /// The layer clipped to `bounds`, without quads.
    pub open spec fn clipped(bounds: Rect) -> LayerView {
        LayerView { bounds, quads: Seq::empty() }
    }
}

/// A clipped, ordered batch of quads that is painted as one unit.
#[derive(Debug)]
pub struct Layer {
    pub bounds: Rect,
    pub quads: Vec<Quad>,
}

impl View for Layer {
    type V = LayerView;

    open spec fn view(&self) -> LayerView {
        LayerView { bounds: self.bounds, quads: self.quads@ }
    }
}

impl Default for Layer {
    /// The unclipped layer without quads.
    fn default() -> (layer: Layer)
        ensures
            layer@ == LayerView::blank(),
    {
        Layer { bounds: Rect::infinite(), quads: Vec::new() }
    }
}

impl Layer {
    /// A layer clipped to `bounds`, without quads.
    pub fn with_bounds(bounds: Rect) -> (layer: Layer)
        ensures
            layer@ == LayerView::clipped(bounds),
    {
        Layer { bounds, quads: Vec::new() }
    }

    /// Appends the quad that records `quad` under `transformation`; it paints
    /// over the quads that the layer already holds.
    pub fn draw_quad(&mut self, quad: Primitive, background: Background, transformation: Transformation)
        requires
            transformation.fits(quad.bounds),
        ensures
            final(self)@.bounds == old(self)@.bounds,
            final(self)@.quads == old(self)@.quads.push(
                Quad::spec_record(quad, background, transformation),
            ),
    {
        let recorded = Quad::record(quad, background, transformation);
        self.quads.push(recorded);
    }

    /// Settles pending work. A layer queues nothing beside its quads, so
    /// this changes nothing.
    pub fn flush(&mut self)
        ensures
            final(self)@ == old(self)@,
    {
    }

    /// Sets the clip and keeps the quads.
    pub fn resize(&mut self, bounds: Rect)
        ensures
            final(self)@.bounds == bounds,
            final(self)@.quads == old(self)@.quads,
    {
        self.bounds = bounds;
    }

    /// Drops the quads and lifts the clip; the allocation is kept.
    pub fn reset(&mut self)
        ensures
            final(self)@ == LayerView::blank(),
    {
        self.bounds = Rect::infinite();
        self.quads.clear();
    }

    /// Whether two layers have the same clip and the same quads in the same
    /// order.
    pub fn same_content(&self, other: &Layer) -> (same: bool)
        ensures
            same == (self@ == other@),
    {
        if self.bounds != other.bounds || self.quads.len() != other.quads.len() {
            return false;
        }
        let mut i: usize = 0;
        while i < self.quads.len()
            invariant
                i <= self.quads.len(),
                self.quads.len() == other.quads.len(),
                self.bounds == other.bounds,
                forall|k: int| 0 <= k < i ==> self.quads@[k] == other.quads@[k],
            decreases self.quads.len() - i,
        {
            if self.quads[i] != other.quads[i] {
                return false;
            }
            i += 1;
        }
        assert(self.quads@ =~= other.quads@);
        true
    }

    /// A copy with the same clip and the same quads.
    pub fn duplicate(&self) -> (copy: Layer)
        ensures
            copy@ == self@,
    {
        let mut quads: Vec<Quad> = Vec::new();
        let mut i: usize = 0;
        while i < self.quads.len()
            invariant
                i <= self.quads.len(),
                quads@ == self.quads@.subrange(0, i as int),
            decreases self.quads.len() - i,
        {
            quads.push(self.quads[i]);
            i += 1;
        }
        assert(quads@ =~= self.quads@);
        Layer { bounds: self.bounds, quads }
    }
}

} // verus!
