//! The off-screen pixel surface that frames are rendered into.

use vstd::prelude::*;
use crate::geometry::Size;

verus! {

/// The word that four bytes make, the first byte the lowest.
pub open spec fn word_of(b0: u8, b1: u8, b2: u8, b3: u8) -> int {
    b0 + 0x100 * b1 + 0x1_0000 * b2 + 0x100_0000 * b3
}

/// Whether `bytes` holds the words of `words` in order, four bytes a word,
/// every word in the same byte order: lowest byte first, or highest byte
/// first.
pub open spec fn encodes(bytes: Seq<u8>, words: Seq<u32>) -> bool {
    &&& bytes.len() == 4 * words.len()
    &&& {
        ||| forall|i: int|
            0 <= i < words.len() ==> #[trigger] words[i] == word_of(
                bytes[4 * i],
                bytes[4 * i + 1],
                bytes[4 * i + 2],
                bytes[4 * i + 3],
            )
        ||| forall|i: int|
            0 <= i < words.len() ==> #[trigger] words[i] == word_of(
                bytes[4 * i + 3],
                bytes[4 * i + 2],
                bytes[4 * i + 1],
                bytes[4 * i],
            )
    }
}

/// Calls `bytemuck::cast_slice` from `u32` to `u8`. The claim: the result
/// views the same memory, so it is four times as long and holds each word
/// in the byte order of the machine, which is one of the two that
/// `encodes` admits. The cast cannot fail: a byte needs no alignment and
/// divides every length.
#[verifier::external_body]
fn bytes_of(words: &[u32]) -> (bytes: &[u8])
    ensures
        encodes(bytes@, words@),
{
    bytemuck::cast_slice(words)
}

/// Calls `bytemuck::cast_slice_mut` from `u32` to `u8`. The claim: the
/// result views the memory of `words`, so it starts as an encoding of them,
/// and when the borrow ends `words` has the same length and holds what the
/// bytes then encode.
#[verifier::external_body]
fn bytes_of_mut(words: &mut [u32]) -> (bytes: &mut [u8])
    ensures
        encodes(bytes@, old(words)@),
        encodes(final(bytes)@, final(words)@),
        final(words)@.len() == old(words)@.len(),
{
    bytemuck::cast_slice_mut(words)
}

/// Bytes that encode words that are all zero are all zero.
pub proof fn lemma_zero_words(bytes: Seq<u8>, words: Seq<u32>)
    requires
        encodes(bytes, words),
        forall|i: int| 0 <= i < words.len() ==> #[trigger] words[i] == 0,
    ensures
        forall|k: int| 0 <= k < bytes.len() ==> #[trigger] bytes[k] == 0,
{
    assert forall|k: int| 0 <= k < bytes.len() implies #[trigger] bytes[k] == 0 by {
        let i = k / 4;
        assert(0 <= i < words.len());
        assert(words[i] == 0);
        assert(k == 4 * i || k == 4 * i + 1 || k == 4 * i + 2 || k == 4 * i + 3);
    }
}

/// Whether a buffer of four bytes for each pixel of `size` can be
/// allocated: no allocation is larger than `isize::MAX` bytes.
pub open spec fn allocatable(size: Size) -> bool {
    4 * (size.width * size.height) <= isize::MAX
}

/// A buffer of pixels, one word a pixel, row by row, and whether it has
/// changed since it was last uploaded.
#[derive(Debug)]
pub struct Surface {
    dirty: bool,
    buffer: Vec<u32>,
    size: Size,
}

impl Surface {
    /// What every surface satisfies: it holds one word for each pixel.
    pub open spec fn wf(&self) -> bool {
        self.pixels().len() == self.spec_size().width * self.spec_size().height
    }

    /// The size in pixels.
    pub closed spec fn spec_size(&self) -> Size {
        self.size
    }

    /// The pixels, row by row.
    pub closed spec fn pixels(&self) -> Seq<u32> {
        self.buffer@
    }

    /// Whether the pixels have changed since the last upload.
    pub closed spec fn is_dirty(&self) -> bool {
        self.dirty
    }

    /// A surface of `size` pixels, all zero, not yet uploaded.
    pub fn new(size: Size) -> (surface: Surface)
        requires
            allocatable(size),
        ensures
            surface.wf(),
            surface.spec_size() == size,
            surface.is_dirty(),
            surface.pixels() == Seq::new((size.width * size.height) as nat, |i: int| 0u32),
    {
        let count = pixel_count(size);
        let mut buffer: Vec<u32> = Vec::new();
        buffer.resize(count, 0u32);
        assert(buffer@ =~= Seq::new((size.width * size.height) as nat, |i: int| 0u32));
        Surface { dirty: true, buffer, size }
    }

    /// The size in pixels.
    pub fn size(&self) -> (size: Size)
        ensures
            size == self.spec_size(),
    {
        self.size
    }

    /// The pixels as bytes, four a pixel.
    pub fn data(&self) -> (bytes: &[u8])
        ensures
            encodes(bytes@, self.pixels()),
    {
        bytes_of(self.buffer.as_slice())
    }

    /// The pixels as bytes that can be written, four a pixel. The surface
    /// counts as changed from this call on.
    pub fn data_mut(&mut self) -> (bytes: &mut [u8])
        ensures
            encodes(bytes@, old(self).pixels()),
            encodes(final(bytes)@, final(self).pixels()),
            final(self).is_dirty(),
            final(self).spec_size() == old(self).spec_size(),
            old(self).wf() ==> final(self).wf(),
    {
        self.dirty = true;
        bytes_of_mut(self.buffer.as_mut_slice())
    }

    /// Resizes the surface to `size` pixels and marks it as changed. The
    /// words that fit are kept where they are in the buffer; new words are
    /// zero.
    pub fn resize(&mut self, size: Size)
        requires
            allocatable(size),
        ensures
            final(self).wf(),
            final(self).spec_size() == size,
            final(self).is_dirty(),
            final(self).pixels().len() == size.width * size.height,
            forall|i: int|
                0 <= i < final(self).pixels().len() ==> #[trigger] final(self).pixels()[i] == (if i < old(
                    self,
                ).pixels().len() {
                    old(self).pixels()[i]
                } else {
                    0u32
                }),
    {
        let count = pixel_count(size);
        self.size = size;
        self.buffer.resize(count, 0u32);
        self.dirty = true;
        proof {
            if count > old(self).buffer@.len() {
                assert forall|i: int| 0 <= i < self.buffer@.len() implies #[trigger] self.buffer@[i] == (if i
                    < old(self).buffer@.len() {
                    old(self).buffer@[i]
                } else {
                    0u32
                }) by {
                    if i < old(self).buffer@.len() {
                        assert(self.buffer@.subrange(0, old(self).buffer@.len() as int)[i] == self.buffer@[i]);
                    }
                }
            }
        }
    }

    /// Whether the pixels must be uploaded; afterwards they count as
    /// uploaded.
    pub fn update_texture(&mut self) -> (upload: bool)
        ensures
            upload == old(self).is_dirty(),
            !final(self).is_dirty(),
            final(self).pixels() == old(self).pixels(),
            final(self).spec_size() == old(self).spec_size(),
            old(self).wf() ==> final(self).wf(),
    {
        let upload = self.dirty;
        self.dirty = false;
        upload
    }
}

/// The number of pixels of a surface of `size`.
fn pixel_count(size: Size) -> (count: usize)
    requires
        allocatable(size),
    ensures
        count == size.width * size.height,
{
    assert(0 <= (size.width as int) * (size.height as int)) by (nonlinear_arith);
    (size.width as u64 * size.height as u64) as usize
}

} // verus!
