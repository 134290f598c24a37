//! Packed ARGB pixels and the fixed-size frame they are blitted from.

use vstd::prelude::*;

verus! {

/// Bit layout of one packed pixel: alpha in bits 24..32, red in 16..24,
/// green in 8..16, blue in 0..8.
pub open spec fn pack_argb(a: u8, r: u8, g: u8, b: u8) -> u32 {
    ((a as u32) << 24) | ((r as u32) << 16) | ((g as u32) << 8) | (b as u32)
}

/// Alpha channel of a packed pixel value.
pub open spec fn alpha_of(argb: u32) -> u8 {
    ((argb >> 24) & 0xFF) as u8
}

/// Red channel of a packed pixel value.
pub open spec fn red_of(argb: u32) -> u8 {
    ((argb >> 16) & 0xFF) as u8
}

/// Green channel of a packed pixel value.
pub open spec fn green_of(argb: u32) -> u8 {
    ((argb >> 8) & 0xFF) as u8
}

/// Blue channel of a packed pixel value.
pub open spec fn blue_of(argb: u32) -> u8 {
    (argb & 0xFF) as u8
}

/// One pixel, packed as a single 32-bit ARGB value. A pure value type:
/// it has no identity beyond its bits.
#[derive(Debug, Clone, Copy, Eq, PartialEq, Ord, PartialOrd, Hash, Structural)]
pub struct Pixel {
    pub argb: u32,
}

impl Pixel {
    /// Packs the four 8-bit channels into one pixel.
    pub fn new(a: u8, r: u8, g: u8, b: u8) -> (pix: Self)
        ensures
            pix.argb == pack_argb(a, r, g, b),
    {
        let mut pix = Pixel { argb: 0 };
        pix.set_color(r, g, b, a);
        pix
    }

    /// Overwrites the pixel with the packed form of the given channels.
    pub fn set_color(&mut self, r: u8, g: u8, b: u8, a: u8)
        ensures
            final(self).argb == pack_argb(a, r, g, b),
    {
        self.argb = ((a as u32) << 24) | ((r as u32) << 16) | ((g as u32) << 8) | b as u32;
    }

    /// Unpacks the pixel into its `(red, green, blue, alpha)` channels.
    pub fn get_color(&self) -> (c: (u8, u8, u8, u8))
        ensures
            c.0 == red_of(self.argb),
            c.1 == green_of(self.argb),
            c.2 == blue_of(self.argb),
            c.3 == alpha_of(self.argb),
    {
        let r = ((self.argb >> 16) & 0xFF) as u8;
        let g = ((self.argb >> 8) & 0xFF) as u8;
        let b = (self.argb & 0xFF) as u8;
        let a = ((self.argb >> 24) & 0xFF) as u8;
        (r, g, b, a)
    }
}

/// Packing four channels and unpacking the result gives the channels back,
/// for every 8-bit quadruple.
pub proof fn lemma_pack_then_unpack(a: u8, r: u8, g: u8, b: u8)
    ensures
        alpha_of(pack_argb(a, r, g, b)) == a,
        red_of(pack_argb(a, r, g, b)) == r,
        green_of(pack_argb(a, r, g, b)) == g,
        blue_of(pack_argb(a, r, g, b)) == b,
{
    assert((((((a as u32) << 24) | ((r as u32) << 16) | ((g as u32) << 8) | (b as u32)) >> 24)
        & 0xFF) as u8 == a) by (bit_vector);
    assert((((((a as u32) << 24) | ((r as u32) << 16) | ((g as u32) << 8) | (b as u32)) >> 16)
        & 0xFF) as u8 == r) by (bit_vector);
    assert((((((a as u32) << 24) | ((r as u32) << 16) | ((g as u32) << 8) | (b as u32)) >> 8)
        & 0xFF) as u8 == g) by (bit_vector);
    assert(((((a as u32) << 24) | ((r as u32) << 16) | ((g as u32) << 8) | (b as u32))
        & 0xFF) as u8 == b) by (bit_vector);
}

/// Unpacking a packed value and packing the channels again gives the value
/// back: the two maps are mutually inverse bijections.
pub proof fn lemma_unpack_then_pack(argb: u32)
    ensures
        pack_argb(alpha_of(argb), red_of(argb), green_of(argb), blue_of(argb)) == argb,
{
    assert(((((argb >> 24) & 0xFF) as u8 as u32) << 24) | ((((argb >> 16) & 0xFF) as u8 as u32)
        << 16) | ((((argb >> 8) & 0xFF) as u8 as u32) << 8) | ((argb & 0xFF) as u8 as u32)
        == argb) by (bit_vector);
}

/// A fixed-size pixel buffer of `W * H` pixels in row-major order
/// (flat index = `y * W + x`), rendered once per tick and handed to the
/// presentation layer for blitting.
pub struct Frame<const W: usize, const H: usize> {
    pixels: Vec<Pixel>,
}

impl<const W: usize, const H: usize> View for Frame<W, H> {
    type V = Seq<Pixel>;

    closed spec fn view(&self) -> Seq<Pixel> {
        self.pixels@
    }
}

impl<const W: usize, const H: usize> Frame<W, H> {
    /// The buffer holds exactly one pixel per coordinate.
    pub open spec fn wf(self) -> bool {
        self@.len() == W * H
    }

    /// Allocates the buffer with every pixel fully transparent black.
    pub fn new() -> (f: Self)
        requires
            W * H <= usize::MAX,
        ensures
            f.wf(),
            forall|i: int| 0 <= i < W * H ==> (#[trigger] f@[i]).argb == 0,
    {
        let size = W * H;
        let mut pixels: Vec<Pixel> = Vec::new();
        let mut i: usize = 0;
        while i < size
            invariant
                i <= size,
                pixels@.len() == i,
                forall|k: int| 0 <= k < i ==> pixels@[k].argb == 0,
            decreases size - i,
        {
            pixels.push(Pixel { argb: 0 });
            i = i + 1;
        }
        Frame { pixels }
    }

    /// Borrows the pixel at `(x, y)`.
    pub fn get_pixel(&self, x: usize, y: usize) -> (p: &Pixel)
        requires
            self.wf(),
            x < W,
            y < H,
        ensures
            *p == self@[y * W + x],
    {
        let _len: usize = self.pixels.len();
        proof {
            crate::grid::lemma_row_major_bound(x as int, y as int, W as int, H as int);
        }
        &self.pixels[y * W + x]
    }

    /// Mutably borrows the pixel at `(x, y)`; the buffer afterwards holds
    /// whatever the caller wrote through the borrow.
    pub fn get_pixel_mut(&mut self, x: usize, y: usize) -> (p: &mut Pixel)
        requires
            old(self).wf(),
            x < W,
            y < H,
        ensures
            *p == old(self)@[y * W + x],
            final(self)@ == old(self)@.update(y * W + x, *final(p)),
            final(self).wf(),
    {
        let _len: usize = self.pixels.len();
        proof {
            crate::grid::lemma_row_major_bound(x as int, y as int, W as int, H as int);
        }
        &mut self.pixels[y * W + x]
    }

    /// Overwrites the pixel at `(x, y)`.
    pub fn set_pixel(&mut self, x: usize, y: usize, pixel: Pixel)
        requires
            old(self).wf(),
            x < W,
            y < H,
        ensures
            final(self)@ == old(self)@.update(y * W + x, pixel),
            final(self).wf(),
    {
        let _len: usize = self.pixels.len();
        proof {
            crate::grid::lemma_row_major_bound(x as int, y as int, W as int, H as int);
        }
        self.pixels.set(y * W + x, pixel);
    }

    /// Overwrites the pixel at `(x, y)` of an owned frame and returns the
    /// frame, for call chaining.
    pub fn set_pixel_owned(self, x: usize, y: usize, pixel: Pixel) -> (f: Self)
        requires
            self.wf(),
            x < W,
            y < H,
        ensures
            f@ == self@.update(y * W + x, pixel),
            f.wf(),
    {
        let mut this = self;
        this.set_pixel(x, y, pixel);
        this
    }

    /// Copies the buffer out as packed 32-bit values, in row-major order,
    /// in the form the presentation layer blits to a display surface.
    pub fn get_pixels(&self) -> (buf: Vec<u32>)
        ensures
            buf@.len() == self@.len(),
            forall|i: int| 0 <= i < buf@.len() ==> buf@[i] == self@[i].argb,
    {
        let n: usize = self.pixels.len();
        let mut buf: Vec<u32> = Vec::new();
        let mut i: usize = 0;
        while i < n
            invariant
                i <= n,
                n == self@.len(),
                buf@.len() == i,
                forall|k: int| 0 <= k < i ==> buf@[k] == self@[k].argb,
            decreases n - i,
        {
            buf.push(self.pixels[i].argb);
            i = i + 1;
        }
        buf
    }

    /// Renders a row-major buffer of grayscale intensities: every pixel is
    /// fully opaque, with its red, green and blue channels all equal to the
    /// cell's intensity.
    pub fn fill_grayscale(&mut self, intensities: &Vec<u8>)
        requires
            old(self).wf(),
            intensities@.len() == W * H,
        ensures
            final(self).wf(),
            forall|i: int| 0 <= i < W * H ==> (#[trigger] final(self)@[i]).argb == pack_argb(
                255,
                intensities@[i],
                intensities@[i],
                intensities@[i],
            ),
    {
        let n: usize = self.pixels.len();
        let mut i: usize = 0;
        while i < n
            invariant
                i <= n,
                n == W * H,
                self@.len() == W * H,
                intensities@.len() == W * H,
                forall|k: int| 0 <= k < i ==> self@[k].argb == pack_argb(
                    255,
                    intensities@[k],
                    intensities@[k],
                    intensities@[k],
                ),
            decreases n - i,
        {
            let v = intensities[i];
            self.pixels.set(i, Pixel::new(255, v, v, v));
            i = i + 1;
        }
    }
}

} // verus!
