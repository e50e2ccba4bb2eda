//! The pixel buffer frames are painted into: an RGB image buffer of the
//! `image` crate, held opaquely and reached from verified code only through
//! the trusted wrappers here. Its contents are modeled by `canvas_pixels`,
//! a map from `(x, y)` to an `(r, g, b)` triple, together with the
//! dimensions it was made with.

use vstd::prelude::*;

verus! {

/// An RGB pixel buffer. The inner buffer type cannot be declared to the
/// verifier (its type parameters carry an outside trait bound), so the
/// whole struct is opaque and its state lives in the three spec functions
/// below.
#[verifier::external_body]
pub struct Canvas {
    img: image::RgbImage,
}

/// The pixels the canvas holds, keyed by `(x, y)` with `x` growing right
/// and `y` growing down.
pub uninterp spec fn canvas_pixels(c: Canvas) -> Map<(int, int), (u8, u8, u8)>;

/// The width the canvas was made with.
pub uninterp spec fn canvas_width(c: Canvas) -> int;

/// The height the canvas was made with.
pub uninterp spec fn canvas_height(c: Canvas) -> int;

/// Relies on `ImageBuffer::new`: allocates a `w * h` buffer with every
/// channel of every pixel zero. The call panics if the byte length
/// overflows `usize`, so that is excluded here.
#[verifier::external_body]
fn mk_canvas(w: u32, h: u32) -> (c: Canvas)
    requires
        3 * (w as int) * (h as int) <= usize::MAX,
    ensures
        canvas_width(c) == w,
        canvas_height(c) == h,
        forall|x: int, y: int| 0 <= x < w && 0 <= y < h
            ==> canvas_pixels(c)[(x, y)] == (0u8, 0u8, 0u8),
{
    Canvas { img: image::RgbImage::new(w, h) }
}

/// Relies on `ImageBuffer::put_pixel`: stores one pixel at `(x, y)` and
/// touches nothing else. The call panics out of bounds, so bounds are
/// required here.
#[verifier::external_body]
pub(crate) fn put_pixel_at(c: &mut Canvas, x: u32, y: u32, px: (u8, u8, u8))
    requires
        x < canvas_width(*old(c)),
        y < canvas_height(*old(c)),
    ensures
        canvas_width(*final(c)) == canvas_width(*old(c)),
        canvas_height(*final(c)) == canvas_height(*old(c)),
        canvas_pixels(*final(c))
            == canvas_pixels(*old(c)).insert((x as int, y as int), px),
{
    c.img.put_pixel(x, y, image::Rgb([px.0, px.1, px.2]));
}

/// Relies on `ImageBuffer::get_pixel_mut_checked`: yields the pixel at
/// `(x, y)` when it is in bounds and `None` otherwise, so a write through
/// it lands in bounds or is silently dropped.
#[verifier::external_body]
pub(crate) fn put_pixel_clipped(c: &mut Canvas, x: u32, y: u32, px: (u8, u8, u8))
    ensures
        canvas_width(*final(c)) == canvas_width(*old(c)),
        canvas_height(*final(c)) == canvas_height(*old(c)),
        canvas_pixels(*final(c)) == if x < canvas_width(*old(c)) && y < canvas_height(*old(c)) {
            canvas_pixels(*old(c)).insert((x as int, y as int), px)
        } else {
            canvas_pixels(*old(c))
        },
{
    match c.img.get_pixel_mut_checked(x, y) {
        Some(p) => {
            *p = image::Rgb([px.0, px.1, px.2]);
        }
        None => {}
    }
}

/// Relies on `ImageBuffer::get_pixel`: reads the pixel at `(x, y)`. The
/// call panics out of bounds, so bounds are required here.
#[verifier::external_body]
pub(crate) fn read_pixel(c: &Canvas, x: u32, y: u32) -> (r: (u8, u8, u8))
    requires
        x < canvas_width(*c),
        y < canvas_height(*c),
    ensures
        r == canvas_pixels(*c)[(x as int, y as int)],
{
    let p = c.img.get_pixel(x, y);
    (p.0[0], p.0[1], p.0[2])
}

/// Relies on `ImageBuffer::into_raw`: hands back the underlying bytes,
/// three channels per pixel in `r, g, b` order, pixels row-major. The exact
/// length holds because every canvas starts as `ImageBuffer::new`'s buffer
/// of exactly `3 * w * h` bytes and the other wrappers only write in place.
#[verifier::external_body]
fn into_raw_bytes(c: Canvas) -> (r: Vec<u8>)
    ensures
        r@.len() == 3 * canvas_width(c) * canvas_height(c),
        forall|x: int, y: int| #![trigger canvas_pixels(c)[(x, y)]]
            0 <= x < canvas_width(c) && 0 <= y < canvas_height(c)
            ==> {
                let base = 3 * (y * canvas_width(c) + x);
                r@[base] == canvas_pixels(c)[(x, y)].0
                    && r@[base + 1] == canvas_pixels(c)[(x, y)].1
                    && r@[base + 2] == canvas_pixels(c)[(x, y)].2
            },
{
    c.img.into_raw()
}

impl Canvas {
    /// Allocate a `w * h` canvas with every pixel black (all channels zero).
    pub fn new(w: u32, h: u32) -> (c: Canvas)
        requires
            3 * (w as int) * (h as int) <= usize::MAX,
        ensures
            canvas_width(c) == w,
            canvas_height(c) == h,
            forall|x: int, y: int| 0 <= x < w && 0 <= y < h
                ==> canvas_pixels(c)[(x, y)] == (0u8, 0u8, 0u8),
    {
        mk_canvas(w, h)
    }

    /// Read one pixel as an `(r, g, b)` triple.
    pub fn get_pixel(&self, x: u32, y: u32) -> (r: (u8, u8, u8))
        requires
            x < canvas_width(*self),
            y < canvas_height(*self),
        ensures
            r == canvas_pixels(*self)[(x as int, y as int)],
    {
        read_pixel(self, x, y)
    }

    /// Give up the canvas and keep its bytes: three channels per pixel in
    /// `r, g, b` order, pixels row-major from the top-left corner.
    pub fn into_raw(self) -> (r: Vec<u8>)
        ensures
            r@.len() == 3 * canvas_width(self) * canvas_height(self),
            forall|x: int, y: int| #![trigger canvas_pixels(self)[(x, y)]]
                0 <= x < canvas_width(self) && 0 <= y < canvas_height(self)
                ==> {
                    let base = 3 * (y * canvas_width(self) + x);
                    r@[base] == canvas_pixels(self)[(x, y)].0
                        && r@[base + 1] == canvas_pixels(self)[(x, y)].1
                        && r@[base + 2] == canvas_pixels(self)[(x, y)].2
                },
    {
        into_raw_bytes(self)
    }
}

} // verus!
