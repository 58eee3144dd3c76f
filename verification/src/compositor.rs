//! The compositor of the pixel surface: its buffers, the frame it rendered
//! last, and the regions that a present redraws.

use vstd::prelude::*;
use crate::canvas::Canvas;
use crate::damage::views;
use crate::geometry::Rect;
use crate::geometry::Size;
use crate::history::History;
use crate::history::HistoryModel;
use crate::surface::allocatable;
use crate::surface::Surface;
use crate::viewport::Viewport;

verus! {

/// The clip mask of `tiny_skia`: one byte of coverage for each pixel.
#[verifier::external_type_specification]
#[verifier::external_body]
pub struct ExMask(tiny_skia::Mask);

/// The coverage bytes that a mask holds, row by row: what
/// `tiny_skia::Mask::data` hands out.
pub uninterp spec fn mask_coverage(mask: tiny_skia::Mask) -> Seq<u8>;

/// The width that a mask was made with: what `tiny_skia::Mask::width`
/// reports.
pub uninterp spec fn mask_width(mask: tiny_skia::Mask) -> u32;

/// `tiny_skia::Mask::new` makes a mask of `width` by `height` pixels with
/// no coverage anywhere; it makes none if either is zero. It allocates one
/// byte for each pixel, and no allocation is larger than `isize::MAX`
/// bytes.
pub assume_specification[ tiny_skia::Mask::new ](width: u32, height: u32) -> (mask: Option<
    tiny_skia::Mask,
>)
    requires
        width * height <= isize::MAX,
    ensures
        mask is Some <==> (width > 0 && height > 0),
        mask matches Some(m) ==> mask_width(m) == width && mask_coverage(m) == Seq::new(
            (width * height) as nat,
            |i: int| 0u8,
        ),
;

/// The damage tracker of a render target: its pixel surface, its clip
/// mask, and the frame that was rendered last.
pub struct Compositor {
    mask: tiny_skia::Mask,
    history: History,
    surface: Surface,
}

impl View for Compositor {
    type V = HistoryModel;

    closed spec fn view(&self) -> HistoryModel {
        self.history@
    }
}

/// A mask of `size` pixels without coverage.
pub open spec fn clear_mask(mask: tiny_skia::Mask, size: Size) -> bool {
    &&& mask_width(mask) == size.width
    &&& mask_coverage(mask) == Seq::new((size.width * size.height) as nat, |i: int| 0u8)
}

impl Compositor {
    /// What every compositor satisfies: the target has a pixel, the surface
    /// has the size of the target and holds one word for each of its
    /// pixels.
    pub open spec fn wf(&self) -> bool {
        &&& self@.size.width > 0
        &&& self@.size.height > 0
        &&& self.spec_surface().spec_size() == self@.size
        &&& self.spec_surface().wf()
    }

    /// The clip mask.
    pub closed spec fn spec_mask(&self) -> tiny_skia::Mask {
        self.mask
    }

    /// The pixel surface.
    pub closed spec fn spec_surface(&self) -> Surface {
        self.surface
    }

    /// A compositor for a target of `size` device pixels, without a
    /// previous frame.
    pub fn new(size: Size) -> (compositor: Compositor)
        requires
            size.width > 0,
            size.height > 0,
            allocatable(size),
        ensures
            compositor.wf(),
            compositor@ == (HistoryModel { size, previous: None }),
            clear_mask(compositor.spec_mask(), size),
            compositor.spec_surface().is_dirty(),
            compositor.spec_surface().pixels() == Seq::new(
                (size.width * size.height) as nat,
                |i: int| 0u32,
            ),
    {
        match tiny_skia::Mask::new(size.width, size.height) {
            Some(mask) => Compositor { mask, history: History::new(size), surface: Surface::new(size) },
            None => vstd::pervasive::unreached(),
        }
    }

    /// Makes the buffers fit `new_size` if they do not: then the surface
    /// is resized to one word for each pixel, the mask is made anew, and
    /// the previous frame is dropped.
    pub fn maybe_resize_buffers(&mut self, new_size: Size)
        requires
            old(self).wf(),
            new_size.width > 0,
            new_size.height > 0,
            allocatable(new_size),
        ensures
            final(self).wf(),
            final(self)@ == old(self)@.fitted(new_size),
            final(self).spec_surface().spec_size() == new_size,
            final(self).spec_surface().pixels().len() == new_size.width * new_size.height,
            old(self)@.size == new_size ==> *final(self) == *old(self),
            old(self)@.size != new_size ==> clear_mask(final(self).spec_mask(), new_size),
            old(self)@.size != new_size ==> final(self).spec_surface().is_dirty(),
    {
        let size = self.surface.size();
        if size != new_size {
            self.resize(new_size);
        }
    }

    /// Resizes the surface to one word for each pixel of `new_size`, makes
    /// a new mask, and drops the previous frame, so that the next frame is
    /// redrawn in full.
    pub fn resize(&mut self, new_size: Size)
        requires
            new_size.width > 0,
            new_size.height > 0,
            allocatable(new_size),
        ensures
            final(self).wf(),
            final(self)@ == (HistoryModel { size: new_size, previous: None }),
            final(self).spec_surface().spec_size() == new_size,
            final(self).spec_surface().pixels().len() == new_size.width * new_size.height,
            clear_mask(final(self).spec_mask(), new_size),
            final(self).spec_surface().is_dirty(),
    {
        self.surface.resize(new_size);
        match tiny_skia::Mask::new(new_size.width, new_size.height) {
            Some(mask) => {
                self.mask = mask;
            },
            None => {
                vstd::pervasive::unreached::<()>();
            },
        }
        self.history.reset(new_size);
    }

    /// Drops the previous frame, so that the next frame is redrawn in
    /// full. The buffers stay.
    pub fn invalidate(&mut self)
        requires
            old(self).wf(),
        ensures
            final(self).wf(),
            final(self)@ == (HistoryModel { size: old(self)@.size, previous: None }),
            final(self).spec_mask() == old(self).spec_mask(),
            final(self).spec_surface() == old(self).spec_surface(),
    {
        let size = self.history.size();
        self.history.reset(size);
    }

    /// Finds the regions to redraw for the frame on `canvas` and retains
    /// the frame. Without a previous frame the whole viewport is redrawn.
    /// If the frame equals the previous one, nothing is redrawn and nothing
    /// changes.
    pub fn render_to_surface(&mut self, canvas: &Canvas, viewport: &Viewport) -> (regions: Vec<Rect>)
        requires
            old(self).wf(),
            canvas.wf(),
            viewport.wf(),
        ensures
            final(self).wf(),
            regions@ == old(self)@.render_regions(canvas@.frame, *viewport),
            final(self)@ == old(self)@.rendered(canvas@.frame, *viewport),
            final(self).spec_mask() == old(self).spec_mask(),
            final(self).spec_surface() == old(self).spec_surface(),
    {
        let frame = canvas.layers();
        assert(views(frame@) =~= canvas@.frame);
        self.history.track(frame.as_slice(), viewport)
    }

    /// The pixel surface.
    pub fn surface(&self) -> (surface: &Surface)
        ensures
            *surface == self.spec_surface(),
    {
        &self.surface
    }

    /// The pixels of the surface as bytes and the clip mask, both to draw
    /// into. The surface counts as changed from this call on; the retained
    /// frame and the size stay.
    pub fn buffers_mut(&mut self) -> (out: (&mut [u8], &mut tiny_skia::Mask))
        requires
            old(self).wf(),
        ensures
            crate::surface::encodes(out.0@, old(self).spec_surface().pixels()),
            crate::surface::encodes(final(out.0)@, final(self).spec_surface().pixels()),
            *out.1 == old(self).spec_mask(),
            final(self).spec_mask() == *final(out.1),
            final(self).spec_surface().is_dirty(),
            final(self)@ == old(self)@,
            final(self).wf(),
    {
        (self.surface.data_mut(), &mut self.mask)
    }

    /// Whether the surface must be uploaded before it is shown; afterwards
    /// it counts as uploaded.
    pub fn draw_texture(&mut self) -> (upload: bool)
        requires
            old(self).wf(),
        ensures
            final(self).wf(),
            upload == old(self).spec_surface().is_dirty(),
            !final(self).spec_surface().is_dirty(),
            final(self)@ == old(self)@,
            final(self).spec_mask() == old(self).spec_mask(),
            final(self).spec_surface().pixels() == old(self).spec_surface().pixels(),
    {
        self.surface.update_texture()
    }

    /// One present: fits the buffers to the viewport, finds the regions to
    /// redraw, and retains the frame. At another size than before the
    /// surface is resized, the mask is made anew, and the whole viewport is
    /// redrawn.
    pub fn present(&mut self, canvas: &Canvas, viewport: &Viewport) -> (regions: Vec<Rect>)
        requires
            old(self).wf(),
            canvas.wf(),
            viewport.wf(),
            viewport.spec_physical_size().width > 0,
            viewport.spec_physical_size().height > 0,
            allocatable(viewport.spec_physical_size()),
        ensures
            final(self).wf(),
            final(self)@ == old(self)@.presented(canvas@.frame, *viewport),
            regions@ == old(self)@.present_regions(canvas@.frame, *viewport),
            final(self).spec_surface().spec_size() == viewport.spec_physical_size(),
            final(self).spec_surface().pixels().len() == viewport.spec_physical_size().width
                * viewport.spec_physical_size().height,
            old(self)@.size == viewport.spec_physical_size() ==> final(self).spec_mask()
                == old(self).spec_mask(),
            old(self)@.size == viewport.spec_physical_size() ==> final(self).spec_surface()
                == old(self).spec_surface(),
            old(self)@.size != viewport.spec_physical_size() ==> clear_mask(
                final(self).spec_mask(),
                viewport.spec_physical_size(),
            ) && final(self).spec_surface().is_dirty(),
    {
        self.maybe_resize_buffers(viewport.physical_size());
        self.render_to_surface(canvas, viewport)
    }
}

/// Rendering on a compositor without a previous frame, at a viewport of
/// the compositor's size, redraws exactly the whole logical viewport,
/// whatever the layers hold.
pub proof fn lemma_first_render_full(compositor: &Compositor, current: Seq<crate::layer::LayerView>, viewport: Viewport)
    requires
        compositor.wf(),
        viewport.wf(),
        viewport.spec_physical_size() == compositor@.size,
        compositor@.previous is None,
    ensures
        compositor@.render_regions(current, viewport) == seq![viewport.spec_logical_bounds()],
{
    crate::history::lemma_render_full(compositor@, current, viewport);
}

} // verus!
