//! The frame that was presented last and the regions that the next frame
//! must redraw.

use vstd::prelude::*;
use crate::damage::covered;
use crate::damage::diff;
use crate::damage::diff_frames;
use crate::damage::frame_at;
use crate::damage::group;
use crate::damage::grouped;
use crate::damage::lemma_damage_complete;
use crate::damage::lemma_diff_complete;
use crate::damage::lemma_diff_same;
use crate::damage::absorb;
use crate::damage::first_touching;
use crate::damage::merged;
use crate::damage::views;
use crate::geometry::Rect;
use crate::geometry::Size;
use crate::layer::Layer;
use crate::layer::LayerView;
use crate::viewport::lemma_logical_covers;
use crate::viewport::Viewport;

verus! {

/// What is retained between presents.
pub struct HistoryModel {
    /// The size of the target in device pixels.
    pub size: Size,
    /// The layers of the frame that was presented last; `None` before the
    /// first frame and after a resize.
    pub previous: Option<Seq<LayerView>>,
}

/// The damage before grouping: the whole viewport without a previous
/// frame, the difference to the previous frame otherwise.
pub open spec fn raw_damage(previous: Option<Seq<LayerView>>, current: Seq<LayerView>, viewport: Viewport) -> Seq<
    Rect,
> {
    match previous {
        Some(frame) => diff_frames(frame, current),
        None => seq![viewport.spec_logical_bounds()],
    }
}

impl HistoryModel {
    /// The state after the buffers have been made to fit `size`: a
    /// different size drops the previous frame.
    pub open spec fn fitted(self, size: Size) -> HistoryModel {
        if self.size != size {
            HistoryModel { size, previous: None }
        } else {
            self
        }
    }

    /// The regions that rendering `current` redraws.
    pub open spec fn render_regions(self, current: Seq<LayerView>, viewport: Viewport) -> Seq<Rect> {
        let raw = raw_damage(self.previous, current, viewport);
        if raw.len() == 0 {
            Seq::empty()
        } else {
            grouped(raw, viewport.spec_logical_bounds())
        }
    }

    /// The state after rendering `current`: without damage nothing
    /// changes; otherwise `current` becomes the previous frame.
    pub open spec fn rendered(self, current: Seq<LayerView>, viewport: Viewport) -> HistoryModel {
        if raw_damage(self.previous, current, viewport).len() == 0 {
            self
        } else {
            HistoryModel { size: self.size, previous: Some(current) }
        }
    }

    /// The regions that presenting `current` redraws.
    pub open spec fn present_regions(self, current: Seq<LayerView>, viewport: Viewport) -> Seq<Rect> {
        self.fitted(viewport.spec_physical_size()).render_regions(current, viewport)
    }

    /// The state after presenting `current`.
    pub open spec fn presented(self, current: Seq<LayerView>, viewport: Viewport) -> HistoryModel {
        self.fitted(viewport.spec_physical_size()).rendered(current, viewport)
    }
}

/// The size of the target and the layers of the frame that was presented
/// last.
#[derive(Debug)]
pub struct History {
    size: Size,
    previous: Option<Vec<Layer>>,
}

impl View for History {
    type V = HistoryModel;

    closed spec fn view(&self) -> HistoryModel {
        HistoryModel {
            size: self.size,
            previous: match self.previous {
                Some(frame) => Some(views(frame@)),
                None => None,
            },
        }
    }
}

impl History {
    /// A history for a target of `size` device pixels, without a frame.
    pub fn new(size: Size) -> (history: History)
        ensures
            history@ == (HistoryModel { size, previous: None }),
    {
        History { size, previous: None }
    }

    /// The size of the target that the retained frame was presented at.
    pub fn size(&self) -> (size: Size)
        ensures
            size == self@.size,
    {
        self.size
    }

    /// Whether a frame is retained.
    pub fn has_frame(&self) -> (has: bool)
        ensures
            has == self@.previous.is_some(),
    {
        self.previous.is_some()
    }

    /// Takes the size `size` and drops the retained frame, so that the
    /// next frame is redrawn in full.
    pub fn reset(&mut self, size: Size)
        ensures
            final(self)@ == (HistoryModel { size, previous: None }),
    {
        self.size = size;
        self.previous = None;
    }

    /// Takes the size `size`; a size that differs from the one before
    /// drops the retained frame.
    pub fn fit(&mut self, size: Size)
        ensures
            final(self)@ == old(self)@.fitted(size),
    {
        if self.size != size {
            self.reset(size);
        }
    }

    /// Finds the regions to redraw for `frame` and retains the frame.
    /// Without a retained frame the whole viewport is redrawn. If the frame
    /// equals the retained one, nothing is redrawn and nothing changes.
    pub fn track(&mut self, frame: &[Layer], viewport: &Viewport) -> (regions: Vec<Rect>)
        requires
            viewport.wf(),
        ensures
            regions@ == old(self)@.render_regions(views(frame@), *viewport),
            final(self)@ == old(self)@.rendered(views(frame@), *viewport),
    {
        let bounds = viewport.logical_bounds();
        let damage = match &self.previous {
            Some(last) => diff(last.as_slice(), frame),
            None => {
                let mut whole: Vec<Rect> = Vec::new();
                whole.push(bounds);
                whole
            },
        };
        if damage.len() == 0 {
            return damage;
        }
        let mut copy: Vec<Layer> = Vec::new();
        let mut i: usize = 0;
        while i < frame.len()
            invariant
                i <= frame@.len(),
                copy@.len() == i,
                forall|k: int| 0 <= k < i ==> (#[trigger] copy@[k])@ == frame@[k]@,
            decreases frame@.len() - i,
        {
            copy.push(frame[i].duplicate());
            i += 1;
        }
        assert(views(copy@) =~= views(frame@));
        self.previous = Some(copy);
        group(damage, bounds)
    }

    /// One present of `frame`: takes the size of the viewport, finds the
    /// regions to redraw, and retains the frame.
    pub fn present(&mut self, frame: &[Layer], viewport: &Viewport) -> (regions: Vec<Rect>)
        requires
            viewport.wf(),
        ensures
            regions@ == old(self)@.present_regions(views(frame@), *viewport),
            final(self)@ == old(self)@.presented(views(frame@), *viewport),
    {
        self.fit(viewport.physical_size());
        self.track(frame, viewport)
    }
}

/// A rectangle that holds a pixel, grouped inside itself, stays as it is.
pub proof fn lemma_group_whole(bounds: Rect)
    requires
        !bounds.is_empty(),
    ensures
        grouped(seq![bounds], bounds) == seq![bounds],
{
    let damage = seq![bounds];
    assert(damage.drop_last() =~= Seq::<Rect>::empty());
    assert(damage.last() == bounds);
    reveal_with_fuel(merged, 3);
    reveal_with_fuel(absorb, 2);
    reveal_with_fuel(first_touching, 2);
    assert(bounds.spec_intersection(bounds) == Some(bounds));
    assert(merged(damage, bounds) =~= seq![bounds]);
}

/// The first present, and every present at a size that differs from the
/// retained one, redraws exactly the whole logical viewport, whatever the
/// layers hold.
pub proof fn lemma_full_damage(model: HistoryModel, current: Seq<LayerView>, viewport: Viewport)
    requires
        viewport.wf(),
        viewport.spec_physical_size().width > 0,
        viewport.spec_physical_size().height > 0,
        model.previous is None || model.size != viewport.spec_physical_size(),
    ensures
        model.present_regions(current, viewport) == seq![viewport.spec_logical_bounds()],
        model.presented(current, viewport) == (HistoryModel {
            size: viewport.spec_physical_size(),
            previous: Some(current),
        }),
{
    lemma_logical_covers(viewport);
    let bounds = viewport.spec_logical_bounds();
    assert(!bounds.is_empty());
    lemma_group_whole(bounds);
}

/// Presenting the same layers twice in a row at the same viewport redraws
/// nothing the second time and leaves the state as it is.
pub proof fn lemma_present_twice(model: HistoryModel, current: Seq<LayerView>, viewport: Viewport)
    ensures
        model.presented(current, viewport).present_regions(current, viewport) == Seq::<Rect>::empty(),
        model.presented(current, viewport).presented(current, viewport) == model.presented(
            current,
            viewport,
        ),
{
    lemma_diff_same(current);
    let fitted = model.fitted(viewport.spec_physical_size());
    let once = model.presented(current, viewport);
    assert(once.size == viewport.spec_physical_size());
    if raw_damage(fitted.previous, current, viewport).len() == 0 {
        assert(once == fitted);
    } else {
        assert(once.previous == Some(current));
    }
}

/// What a present redraws stays inside the logical viewport and reaches
/// every pixel of it at which the frame paints differently from the frame
/// that was rendered last; without such a frame, or at another size, it
/// reaches every pixel of the logical viewport.
pub proof fn lemma_present_complete(
    model: HistoryModel,
    current: Seq<LayerView>,
    viewport: Viewport,
    px: int,
    py: int,
)
    requires
        viewport.wf(),
        viewport.spec_physical_size().width > 0,
        viewport.spec_physical_size().height > 0,
        viewport.spec_logical_bounds().contains(px, py),
        model.size == viewport.spec_physical_size() ==> (model.previous matches Some(previous)
            ==> frame_at(previous, px, py) != frame_at(current, px, py)),
    ensures
        covered(model.present_regions(current, viewport), px, py),
        forall|i: int|
            0 <= i < model.present_regions(current, viewport).len() ==> (#[trigger] model.present_regions(
                current,
                viewport,
            )[i]).within(viewport.spec_logical_bounds()),
{
    let bounds = viewport.spec_logical_bounds();
    let regions = model.present_regions(current, viewport);
    if model.previous is None || model.size != viewport.spec_physical_size() {
        lemma_full_damage(model, current, viewport);
        assert(regions[0].contains(px, py));
    } else {
        let previous = model.previous->Some_0;
        lemma_damage_complete(previous, current, bounds, px, py);
        if diff_frames(previous, current).len() == 0 {
            lemma_diff_complete(previous, current, px, py);
        }
    }
}

/// Rendering without a retained frame redraws exactly the whole logical
/// viewport, whatever the layers hold, once the viewport has a pixel.
pub proof fn lemma_render_full(model: HistoryModel, current: Seq<LayerView>, viewport: Viewport)
    requires
        viewport.wf(),
        viewport.spec_physical_size().width > 0,
        viewport.spec_physical_size().height > 0,
        model.previous is None,
    ensures
        model.render_regions(current, viewport) == seq![viewport.spec_logical_bounds()],
        model.rendered(current, viewport) == (HistoryModel { size: model.size, previous: Some(current) }),
{
    lemma_full_damage(
        HistoryModel { size: viewport.spec_physical_size(), previous: None },
        current,
        viewport,
    );
}

} // verus!
