//! Textures: a grid of texels stored row by row, generated checkerboards and
//! clamped texel lookup.
use vstd::prelude::*;
use crate::framebuffer::pixel_index;

verus! {

/// Whether texel `(x, y)` of a checkerboard with square cells of side `grid`
/// lies in an even cell: one whose column and row numbers sum to an even
/// number.
pub open spec fn checker_even(x: int, y: int, grid: int) -> bool {
    (x / grid + y / grid) % 2 == 0
}

/// A texel coordinate clamped to the last texel of an axis of `size` texels.
pub open spec fn clamp_texel(t: int, size: int) -> int {
    if t < size - 1 {
        t
    } else {
        size - 1
    }
}

/// A `width` by `height` grid of texels of type `T`, row by row.
pub struct Texture<T> {
    pub width: usize,
    pub height: usize,
    pub data: Vec<T>,
}

impl<T> Texture<T> {
    /// There is one texel per grid position.
    pub open spec fn wf(&self) -> bool {
        self.data@.len() == self.width * self.height
    }

    /// The index that `sample` reads for texel coordinates `(tx, ty)`.
    pub open spec fn sample_index(&self, tx: int, ty: int) -> int {
        pixel_index(
            self.width as nat,
            clamp_texel(tx, self.width as int),
            clamp_texel(ty, self.height as int),
        )
    }

    /// Inside the texture, `sample` reads texel `(tx, ty)` itself.
    pub proof fn lemma_sample_in_range(&self, tx: int, ty: int)
        requires
            0 <= tx < self.width,
            0 <= ty < self.height,
        ensures
            self.sample_index(tx, ty) == pixel_index(self.width as nat, tx, ty),
    {
    }

    /// A texture of the given size holding `data`.
    pub fn new(width: usize, height: usize, data: Vec<T>) -> (texture: Self)
        ensures
            texture.width == width,
            texture.height == height,
            texture.data@ == data@,
    {
        Texture { width, height, data }
    }

    /// `sample` reads the texel at `(min(tx, width - 1), min(ty, height - 1))`:
    /// a coordinate inside the texture is kept, and every coordinate at or
    /// past the end of its axis reads the last texel of that axis.
    pub proof fn lemma_sample_clamps(&self, tx: int, ty: int)
        requires
            self.width > 0,
            self.height > 0,
            tx >= 0,
            ty >= 0,
        ensures
            self.sample_index(tx, ty) == (if ty >= self.height {
                self.height - 1
            } else {
                ty
            }) * self.width + (if tx >= self.width {
                self.width - 1
            } else {
                tx
            }),
    {
    }

    /// In a well-formed texture of non-zero size every clamped lookup lies
    /// inside the data.
    pub proof fn lemma_sample_in_bounds(&self, tx: int, ty: int)
        requires
            self.wf(),
            self.width > 0,
            self.height > 0,
            tx >= 0,
            ty >= 0,
        ensures
            0 <= self.sample_index(tx, ty) < self.data@.len(),
    {
        let w = self.width as int;
        let h = self.height as int;
        let x = clamp_texel(tx, w);
        let y = clamp_texel(ty, h);
        assert(0 <= y * w + x < w * h) by (nonlinear_arith)
            requires
                0 <= x < w,
                0 <= y < h,
        ;
    }
}

impl<T: Copy> Texture<T> {
    /// A checkerboard of square cells of side `grid_size`: texels in even
    /// cells (see `checker_even`) get `even_color`, the others `odd_color`.
    pub fn checkerboard(
        width: usize,
        height: usize,
        grid_size: usize,
        even_color: T,
        odd_color: T,
    ) -> (texture: Self)
        requires
            width * height <= usize::MAX,
            width > 0 && height > 0 ==> grid_size > 0,
        ensures
            texture.wf(),
            texture.width == width,
            texture.height == height,
            forall|x: int, y: int|
                0 <= x < width && 0 <= y < height ==> #[trigger] texture.data@[pixel_index(
                    width as nat,
                    x,
                    y,
                )] == if checker_even(x, y, grid_size as int) {
                    even_color
                } else {
                    odd_color
                },
    {
        let mut data: Vec<T> = Vec::with_capacity(width * height);
        let ghost w = width as int;
        let mut y: usize = 0;
        while y < height
            invariant
                width * height <= usize::MAX,
                width > 0 && height > 0 ==> grid_size > 0,
                w == width,
                y <= height,
                data@.len() == y * w,
                forall|k: int|
                    0 <= k < data@.len() ==> #[trigger] data@[k] == if checker_even(
                        k % w,
                        k / w,
                        grid_size as int,
                    ) {
                        even_color
                    } else {
                        odd_color
                    },
            decreases height - y,
        {
            assert((y + 1) * w == y * w + w) by (nonlinear_arith);
            assert((y + 1) * w <= width * height) by (nonlinear_arith)
                requires
                    y < height,
                    w == width,
                    0 <= w,
            ;
            let mut x: usize = 0;
            while x < width
                invariant
                    width * height <= usize::MAX,
                    grid_size > 0 || width == 0,
                    w == width,
                    y < height,
                    x <= width,
                    (y + 1) * w == y * w + w,
                    (y + 1) * w <= width * height,
                    data@.len() == y * w + x,
                    forall|k: int|
                        0 <= k < data@.len() ==> #[trigger] data@[k] == if checker_even(
                            k % w,
                            k / w,
                            grid_size as int,
                        ) {
                            even_color
                        } else {
                            odd_color
                        },
                decreases width - x,
            {
                assert(x + y < width * height) by (nonlinear_arith)
                    requires
                        x < width,
                        y < height,
                ;
                let column = x / grid_size;
                let row = y / grid_size;
                let is_even = (column + row) % 2 == 0;
                proof {
                    vstd::arithmetic::div_mod::lemma_fundamental_div_mod_converse(
                        y * w + x,
                        w,
                        y as int,
                        x as int,
                    );
                }
                if is_even {
                    data.push(even_color);
                } else {
                    data.push(odd_color);
                }
                x = x + 1;
            }
            y = y + 1;
        }
        assert(data@.len() == width * height) by (nonlinear_arith)
            requires
                data@.len() == y * w,
                y == height,
                w == width,
        ;
        assert forall|x: int, y: int| 0 <= x < width && 0 <= y < height implies #[trigger] data@[
            pixel_index(width as nat, x, y)] == if checker_even(x, y, grid_size as int) {
            even_color
        } else {
            odd_color
        } by {
            vstd::arithmetic::div_mod::lemma_fundamental_div_mod_converse(y * w + x, w, y, x);
            assert(0 <= y * w + x < w * height) by (nonlinear_arith)
                requires
                    0 <= x < w,
                    0 <= y < height,
            ;
        }
        Texture { width, height, data }
    }

    /// The texel at `(texel_x, texel_y)`, each coordinate clamped to the last
    /// texel of its axis.
    pub fn sample(&self, texel_x: usize, texel_y: usize) -> (texel: T)
        requires
            self.width > 0,
            self.height > 0,
            0 <= self.sample_index(texel_x as int, texel_y as int) < self.data@.len(),
        ensures
            texel == self.data@[self.sample_index(texel_x as int, texel_y as int)],
    {
        let x = if texel_x < self.width - 1 { texel_x } else { self.width - 1 };
        let y = if texel_y < self.height - 1 { texel_y } else { self.height - 1 };
        let w = self.width;
        let n = self.data.len();
        assert(0 <= y as int * w as int) by (nonlinear_arith);
        assert(y as int * w as int + x as int == self.sample_index(texel_x as int, texel_y as int));
        let idx = y * w + x;
        self.data[idx]
    }
}

/// Cells repeat every two cells along each axis.
pub proof fn lemma_checker_period(x: int, y: int, grid: int)
    requires
        x >= 0,
        y >= 0,
        grid > 0,
    ensures
        checker_even(x + 2 * grid, y, grid) == checker_even(x, y, grid),
        checker_even(x, y + 2 * grid, grid) == checker_even(x, y, grid),
{
    lemma_checker_step(x, y, grid);
    lemma_checker_step(x + grid, y, grid);
    lemma_checker_step(x, y + grid, grid);
}

/// Moving one whole cell along either axis changes the cell's colour.
pub proof fn lemma_checker_step(x: int, y: int, grid: int)
    requires
        x >= 0,
        y >= 0,
        grid > 0,
    ensures
        checker_even(x + grid, y, grid) != checker_even(x, y, grid),
        checker_even(x, y + grid, grid) != checker_even(x, y, grid),
{
    vstd::arithmetic::div_mod::lemma_fundamental_div_mod(x, grid);
    vstd::arithmetic::div_mod::lemma_fundamental_div_mod(y, grid);
    vstd::arithmetic::div_mod::lemma_mod_pos_bound(x, grid);
    vstd::arithmetic::div_mod::lemma_mod_pos_bound(y, grid);
    let qx = x / grid;
    let qy = y / grid;
    assert((qx + 1) * grid == qx * grid + grid) by (nonlinear_arith);
    assert((qy + 1) * grid == qy * grid + grid) by (nonlinear_arith);
    assert(qx * grid == grid * qx) by (nonlinear_arith);
    assert(qy * grid == grid * qy) by (nonlinear_arith);
    vstd::arithmetic::div_mod::lemma_fundamental_div_mod_converse(
        x + grid,
        grid,
        x / grid + 1,
        x % grid,
    );
    vstd::arithmetic::div_mod::lemma_fundamental_div_mod_converse(
        y + grid,
        grid,
        y / grid + 1,
        y % grid,
    );
}

/// All texels of one cell share a colour: each texel has the colour of the
/// top-left texel of its cell.
pub proof fn lemma_checker_cell_uniform(x: int, y: int, grid: int)
    requires
        x >= 0,
        y >= 0,
        grid > 0,
    ensures
        checker_even(x, y, grid) == checker_even(grid * (x / grid), grid * (y / grid), grid),
{
    vstd::arithmetic::div_mod::lemma_div_multiples_vanish(x / grid, grid);
    vstd::arithmetic::div_mod::lemma_div_multiples_vanish(y / grid, grid);
}

/// The cell at the origin is even.
pub proof fn lemma_checker_origin(grid: int)
    requires
        grid > 0,
    ensures
        checker_even(0, 0, grid),
{
}

/// A texel is even exactly when the number of whole cells to its left plus
/// the number above it is even.
pub proof fn lemma_checker_parity(x: int, y: int, grid: int)
    requires
        x >= 0,
        y >= 0,
        grid > 0,
    ensures
        checker_even(x, y, grid) <==> ((x / grid) + (y / grid)) % 2 == 0,
{
}

} // verus!
