//! The colour buffer and depth buffer that triangles are rasterized into.
//!
//! Pixels are stored row by row: pixel `(x, y)` lives at index
//! `y * width + x`. Colours are packed `0x00RRGGBB` values; depths are the bit
//! patterns of binary32 values, compared with the IEEE 754 order of
//! `crate::depth`.
use vstd::prelude::*;
use rayon::iter::ParallelIterator;
use rayon::slice::ParallelSliceMut;
use crate::depth::{binary32_less, binary32_lt, DEPTH_FAR};

verus! {

/// Index of pixel `(x, y)` in a buffer of rows `width` pixels long.
pub open spec fn pixel_index(width: nat, x: int, y: int) -> int {
    y * width + x
}

/// The sequence of `len` copies of `value`.
pub open spec fn filled(len: nat, value: u32) -> Seq<u32> {
    Seq::new(len, |i: int| value)
}

/// Pixels are laid out row by row: the index of an in-bounds pixel `(x, y)`
/// leaves remainder `x` and quotient `y` when divided by the width, so distinct
/// pixels never share an index, and every index is below `width * height`.
pub proof fn lemma_pixel_index_row_major(width: nat, height: nat, x: int, y: int)
    requires
        0 <= x < width,
        0 <= y < height,
    ensures
        pixel_index(width, x, y) % (width as int) == x,
        pixel_index(width, x, y) / (width as int) == y,
        0 <= pixel_index(width, x, y) < width * height,
{
    vstd::arithmetic::div_mod::lemma_fundamental_div_mod_converse(
        pixel_index(width, x, y),
        width as int,
        y,
        x,
    );
    assert(0 <= y * width + x < width * height) by (nonlinear_arith)
        requires
            0 <= x < width,
            0 <= y < height,
    ;
}

/// `filled(len, value)` holds `len` entries, every one of them `value`.
pub proof fn lemma_filled(len: nat, value: u32)
    ensures
        filled(len, value).len() == len,
        forall|i: int| 0 <= i < len ==> #[trigger] filled(len, value)[i] == value,
{
}

/// Sets every element of `row` to `value`.
pub fn fill_row(row: &mut [u32], value: u32)
    ensures
        final(row)@ == filled(old(row)@.len(), value),
{
    let n = row.len();
    for i in 0..n
        invariant
            row@.len() == n,
            n == old(row)@.len(),
            forall|j: int| 0 <= j < i ==> row@[j] == value,
    {
        row[i] = value;
    }
    assert(row@ =~= filled(n as nat, value));
}

/// Fills `buffer` with `value`, handing its rows of `row_len` elements to
/// rayon's thread pool (`ParallelSliceMut::par_chunks_mut`, then
/// `ParallelIterator::for_each`), each row filled by `fill_row`.
/// Claimed of rayon: the chunks cover the whole buffer without overlap (the
/// last one may be shorter) and `for_each` runs the closure on every chunk, so
/// every element ends up equal to `value` and the length is unchanged.
/// `par_chunks_mut` panics on a chunk size of zero, which `requires` rules out.
#[verifier::external_body]
fn par_fill_rows(buffer: &mut Vec<u32>, row_len: usize, value: u32)
    requires
        row_len > 0,
    ensures
        final(buffer)@ == filled(old(buffer)@.len(), value),
{
    buffer.par_chunks_mut(row_len).for_each(|row| fill_row(row, value));
}

/// A colour buffer and a depth buffer of `width * height` pixels each, and the
/// colour that `clear` paints.
pub struct Framebuffer {
    width: usize,
    height: usize,
    color_buffer: Vec<u32>,
    z_buffer: Vec<u32>,
    clear_color: u32,
}

impl Framebuffer {
    /// Width in pixels.
    pub closed spec fn spec_width(&self) -> nat {
        self.width as nat
    }

    /// Height in pixels.
    pub closed spec fn spec_height(&self) -> nat {
        self.height as nat
    }

    /// The packed colours, row by row.
    pub closed spec fn colors(&self) -> Seq<u32> {
        self.color_buffer@
    }

    /// The depth bit patterns, row by row.
    pub closed spec fn depths(&self) -> Seq<u32> {
        self.z_buffer@
    }

    /// The packed colour that `clear` paints.
    pub closed spec fn spec_clear_color(&self) -> u32 {
        self.clear_color
    }

    /// Number of pixels.
    pub open spec fn pixel_count(&self) -> nat {
        self.spec_width() * self.spec_height()
    }

    /// Both buffers hold one entry per pixel.
    pub open spec fn wf(&self) -> bool {
        &&& self.pixel_count() <= usize::MAX
        &&& self.colors().len() == self.pixel_count()
        &&& self.depths().len() == self.pixel_count()
    }

    /// Whether pixel `(x, y)` lies inside the buffer.
    pub open spec fn in_bounds(&self, x: int, y: int) -> bool {
        0 <= x < self.spec_width() && 0 <= y < self.spec_height()
    }

    /// Whether `test_z_set_pixel` with depth `z` writes pixel `(x, y)`: the
    /// pixel is inside the buffer and `z` is strictly closer than the stored
    /// depth.
    pub open spec fn depth_test_passes(&self, x: int, y: int, z: u32) -> bool {
        &&& self.in_bounds(x, y)
        &&& binary32_lt(z, self.depths()[pixel_index(self.spec_width(), x, y)])
    }

    proof fn lemma_index_in_bounds(&self, x: int, y: int)
        requires
            self.wf(),
            self.in_bounds(x, y),
        ensures
            0 <= pixel_index(self.spec_width(), x, y) < self.pixel_count(),
    {
        let w = self.spec_width() as int;
        let h = self.spec_height() as int;
        assert(0 <= y * w + x < w * h) by (nonlinear_arith)
            requires
                0 <= x < w,
                0 <= y < h,
        ;
    }

    /// The buffer index of pixel `(x, y)`.
    fn index_of(&self, x: u32, y: u32) -> (idx: usize)
        requires
            self.wf(),
            pixel_index(self.spec_width(), x as int, y as int) < self.pixel_count(),
        ensures
            idx == pixel_index(self.spec_width(), x as int, y as int),
    {
        let w = self.width;
        assert(0 <= y as int * w as int) by (nonlinear_arith);
        y as usize * w + x as usize
    }

    /// The depth test passes exactly for a pixel with `0 <= x < width` and
    /// `0 <= y < height` whose stored depth, at index `y * width + x`, is
    /// greater than `z` in the IEEE 754 order.
    pub proof fn lemma_depth_test_passes_exactly(&self, x: int, y: int, z: u32)
        ensures
            self.depth_test_passes(x, y, z) <==> (0 <= x < self.spec_width() && 0 <= y
                < self.spec_height() && binary32_lt(
                z,
                self.depths()[y * self.spec_width() + x],
            )),
    {
    }

    /// After `clear_depth`, every fragment inside the buffer whose depth is
    /// closer than the far plane passes the depth test.
    pub proof fn lemma_cleared_depth_accepts_closer(&self, x: int, y: int, z: u32)
        requires
            self.wf(),
            self.depths() == filled(self.pixel_count(), DEPTH_FAR),
            self.in_bounds(x, y),
            binary32_lt(z, DEPTH_FAR),
        ensures
            self.depth_test_passes(x, y, z),
    {
        self.lemma_index_in_bounds(x, y);
    }

    /// A framebuffer of `width * height` black pixels at the far depth
    /// `1.0`, whose clear colour is black.
    pub fn new(width: usize, height: usize) -> (fb: Self)
        requires
            width * height <= usize::MAX,
        ensures
            fb.wf(),
            fb.spec_width() == width,
            fb.spec_height() == height,
            fb.colors() == filled((width * height) as nat, 0),
            fb.depths() == filled((width * height) as nat, DEPTH_FAR),
            fb.spec_clear_color() == 0,
    {
        let n = width * height;
        let color_buffer: Vec<u32> = vec![0u32; n];
        let z_buffer: Vec<u32> = vec![DEPTH_FAR; n];
        assert(color_buffer@ =~= filled(n as nat, 0));
        assert(z_buffer@ =~= filled(n as nat, DEPTH_FAR));
        Framebuffer { width, height, color_buffer, z_buffer, clear_color: 0 }
    }

    /// The packed colours, row by row.
    pub fn get_buffer(&self) -> (buffer: &[u32])
        ensures
            buffer@ == self.colors(),
    {
        self.color_buffer.as_slice()
    }

    /// Width in pixels.
    pub fn get_width(&self) -> (width: usize)
        ensures
            width == self.spec_width(),
    {
        self.width
    }

    /// Height in pixels.
    pub fn get_height(&self) -> (height: usize)
        ensures
            height == self.spec_height(),
    {
        self.height
    }

    /// Sets the packed colour that `clear` paints; nothing else changes.
    pub fn set_clear_color(&mut self, color: u32)
        requires
            old(self).wf(),
        ensures
            final(self).wf(),
            final(self).spec_clear_color() == color,
            final(self).spec_width() == old(self).spec_width(),
            final(self).spec_height() == old(self).spec_height(),
            final(self).colors() == old(self).colors(),
            final(self).depths() == old(self).depths(),
    {
        self.clear_color = color;
    }

    /// Paints every pixel with the clear colour, row by row in parallel.
    /// The depth buffer is left as it was.
    pub fn clear(&mut self)
        requires
            old(self).wf(),
            old(self).spec_width() > 0,
        ensures
            final(self).wf(),
            final(self).colors() == filled(old(self).pixel_count(), old(self).spec_clear_color()),
            final(self).depths() == old(self).depths(),
            final(self).spec_width() == old(self).spec_width(),
            final(self).spec_height() == old(self).spec_height(),
            final(self).spec_clear_color() == old(self).spec_clear_color(),
    {
        let value = self.clear_color;
        let width = self.width;
        par_fill_rows(&mut self.color_buffer, width, value);
    }

    /// Resets every depth to the far plane `1.0`, row by row in parallel.
    /// The colour buffer is left as it was.
    pub fn clear_depth(&mut self)
        requires
            old(self).wf(),
            old(self).spec_width() > 0,
        ensures
            final(self).wf(),
            final(self).depths() == filled(old(self).pixel_count(), DEPTH_FAR),
            final(self).colors() == old(self).colors(),
            final(self).spec_width() == old(self).spec_width(),
            final(self).spec_height() == old(self).spec_height(),
            final(self).spec_clear_color() == old(self).spec_clear_color(),
    {
        let width = self.width;
        par_fill_rows(&mut self.z_buffer, width, DEPTH_FAR);
    }

    /// Writes the colour at index `y * width + x`, without a depth test.
    /// The index must lie in the buffer; `x` itself may exceed the width, in
    /// which case the write lands on a later row.
    pub fn set_pixel(&mut self, x: u32, y: u32, color: u32)
        requires
            old(self).wf(),
            pixel_index(old(self).spec_width(), x as int, y as int) < old(self).pixel_count(),
        ensures
            final(self).wf(),
            final(self).colors() == old(self).colors().update(
                pixel_index(old(self).spec_width(), x as int, y as int),
                color,
            ),
            final(self).depths() == old(self).depths(),
            final(self).spec_width() == old(self).spec_width(),
            final(self).spec_height() == old(self).spec_height(),
            final(self).spec_clear_color() == old(self).spec_clear_color(),
    {
        let idx = self.index_of(x, y);
        self.color_buffer.set(idx, color);
    }

    /// Writes the depth at index `y * width + x`, without a depth test.
    pub fn set_pixel_z(&mut self, x: u32, y: u32, z: u32)
        requires
            old(self).wf(),
            pixel_index(old(self).spec_width(), x as int, y as int) < old(self).pixel_count(),
        ensures
            final(self).wf(),
            final(self).depths() == old(self).depths().update(
                pixel_index(old(self).spec_width(), x as int, y as int),
                z,
            ),
            final(self).colors() == old(self).colors(),
            final(self).spec_width() == old(self).spec_width(),
            final(self).spec_height() == old(self).spec_height(),
            final(self).spec_clear_color() == old(self).spec_clear_color(),
    {
        let idx = self.index_of(x, y);
        self.z_buffer.set(idx, z);
    }

    /// The depth stored at index `y * width + x`.
    pub fn get_pixel_z(&self, x: u32, y: u32) -> (z: u32)
        requires
            self.wf(),
            pixel_index(self.spec_width(), x as int, y as int) < self.pixel_count(),
        ensures
            z == self.depths()[pixel_index(self.spec_width(), x as int, y as int)],
    {
        let idx = self.index_of(x, y);
        self.z_buffer[idx]
    }

    /// The depth test: when `(x, y)` lies inside the buffer and `z` is
    /// strictly closer than the depth stored there, stores `z` and `color` at
    /// that pixel and returns `true`; otherwise changes nothing and returns
    /// `false`. A NaN depth never passes.
    pub fn test_z_set_pixel(&mut self, x: u32, y: u32, z: u32, color: u32) -> (written: bool)
        requires
            old(self).wf(),
        ensures
            final(self).wf(),
            written == old(self).depth_test_passes(x as int, y as int, z),
            written ==> final(self).colors() == old(self).colors().update(
                pixel_index(old(self).spec_width(), x as int, y as int),
                color,
            ),
            written ==> final(self).depths() == old(self).depths().update(
                pixel_index(old(self).spec_width(), x as int, y as int),
                z,
            ),
            !written ==> final(self).colors() == old(self).colors(),
            !written ==> final(self).depths() == old(self).depths(),
            final(self).spec_width() == old(self).spec_width(),
            final(self).spec_height() == old(self).spec_height(),
            final(self).spec_clear_color() == old(self).spec_clear_color(),
            // No stored depth ever moves farther away.
            forall|i: int|
                0 <= i < old(self).pixel_count() ==> !binary32_lt(
                    old(self).depths()[i],
                    #[trigger] final(self).depths()[i],
                ),
            // The same fragment cannot pass the test twice.
            written ==> !final(self).depth_test_passes(x as int, y as int, z),
    {
        if x as usize >= self.width || y as usize >= self.height {
            return false;
        }
        proof {
            self.lemma_index_in_bounds(x as int, y as int);
        }
        let idx = self.index_of(x, y);
        if binary32_less(z, self.z_buffer[idx]) {
            self.z_buffer.set(idx, z);
            self.color_buffer.set(idx, color);
            true
        } else {
            false
        }
    }
}

} // verus!
