use vstd::prelude::*;

verus! {

/// An RGBA color with four 8-bit channels.
#[derive(Clone, Copy, Debug, PartialEq, Eq, Structural)]
pub struct Color {
    pub r: u8,
    pub g: u8,
    pub b: u8,
    pub a: u8,
}

impl Color {
    /// Channel selector: 0 is red, 1 is green, 2 is blue, anything else alpha.
    pub open spec fn channel(self, k: int) -> int {
        if k == 0 {
            self.r as int
        } else if k == 1 {
            self.g as int
        } else if k == 2 {
            self.b as int
        } else {
            self.a as int
        }
    }

    /// The fully transparent black that a fresh canvas is filled with.
    pub open spec fn black_spec() -> Color {
        Color { r: 0, g: 0, b: 0, a: 0 }
    }

    /// Opaque white, the fallback fill for a degenerate bounding box.
    pub open spec fn white_spec() -> Color {
        Color { r: 255, g: 255, b: 255, a: 255 }
    }

    pub fn black() -> (c: Color)
        ensures
            c == Color::black_spec(),
    {
        Color { r: 0, g: 0, b: 0, a: 0 }
    }

    pub fn white() -> (c: Color)
        ensures
            c == Color::white_spec(),
    {
        Color { r: 255, g: 255, b: 255, a: 255 }
    }
}

/// An RGBA raster image in row-major order: the pixel at `(x, y)` sits at
/// index `y * width + x` of `pixels`.
///
/// The dimension bounds in `wf` keep every coordinate inside `i32` and every
/// pixel count and difference total inside the integer widths the algorithms
/// use.
pub struct Image {
    pub width: u32,
    pub height: u32,
    pub pixels: Vec<Color>,
}

impl Image {
    /// Well-formed: the buffer length matches the dimensions and the
    /// dimensions are small enough for the arithmetic of the engine.
    pub open spec fn wf(self) -> bool {
        &&& self.pixels.len() == self.width * self.height
        &&& self.width <= 0x4000_0000
        &&& self.height <= 0x4000_0000
        &&& (self.width as int) * (self.height as int) <= 0x4000_0000
    }

    /// The color of the pixel at `(x, y)`.
    pub open spec fn pixel_spec(self, x: int, y: int) -> Color {
        self.pixels[y * self.width + x]
    }

    /// A fresh canvas: every pixel is zero-valued (transparent black).
    pub fn new(width: u32, height: u32) -> (img: Image)
        requires
            width <= 0x4000_0000,
            height <= 0x4000_0000,
            (width as int) * (height as int) <= 0x4000_0000,
        ensures
            img.wf(),
            img.width == width,
            img.height == height,
            forall|i: int| 0 <= i < img.pixels.len() ==> img.pixels[i] == Color::black_spec(),
    {
        let count: u64 = (width as u64) * (height as u64);
        let mut pixels: Vec<Color> = Vec::new();
        let mut i: u64 = 0;
        while i < count
            invariant
                i <= count,
                count == (width as int) * (height as int),
                count <= 0x4000_0000,
                pixels.len() == i,
                forall|j: int| 0 <= j < pixels.len() ==> pixels[j] == Color::black_spec(),
            decreases count - i,
        {
            pixels.push(Color::black());
            i = i + 1;
        }
        Image { width, height, pixels }
    }

    pub fn get_pixel(&self, x: u32, y: u32) -> (c: Color)
        requires
            self.wf(),
            x < self.width,
            y < self.height,
        ensures
            c == self.pixel_spec(x as int, y as int),
    {
        proof {
            crate::model::lemma_row_major_index(
                x as int,
                y as int,
                self.width as int,
                self.height as int,
            );
        }
        let idx: usize = (y as usize) * (self.width as usize) + (x as usize);
        self.pixels[idx]
    }

    pub fn set_pixel(&mut self, x: u32, y: u32, c: Color)
        requires
            old(self).wf(),
            x < old(self).width,
            y < old(self).height,
        ensures
            final(self).wf(),
            final(self).width == old(self).width,
            final(self).height == old(self).height,
            final(self).pixels@ == old(self).pixels@.update(
                y * old(self).width + x,
                c,
            ),
    {
        proof {
            crate::model::lemma_row_major_index(
                x as int,
                y as int,
                self.width as int,
                self.height as int,
            );
        }
        let idx: usize = (y as usize) * (self.width as usize) + (x as usize);
        self.pixels.set(idx, c);
    }

    /// Paint every pixel with the same color.
    pub fn fill(&mut self, c: Color)
        requires
            old(self).wf(),
        ensures
            final(self).wf(),
            final(self).width == old(self).width,
            final(self).height == old(self).height,
            final(self).pixels.len() == old(self).pixels.len(),
            forall|i: int| 0 <= i < final(self).pixels.len() ==> final(self).pixels[i] == c,
    {
        let len: usize = self.pixels.len();
        let mut i: usize = 0;
        while i < len
            invariant
                i <= len,
                len == self.pixels.len(),
                self.width == old(self).width,
                self.height == old(self).height,
                self.wf(),
                forall|j: int| 0 <= j < i ==> self.pixels[j] == c,
            decreases len - i,
        {
            self.pixels.set(i, c);
            i = i + 1;
        }
    }
}

} // verus!
