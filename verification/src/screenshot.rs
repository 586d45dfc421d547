//! The normalized bitmap and its bounds-checked pixel access.

use vstd::prelude::*;

verus! {

/// One pixel, a byte for each channel.
#[derive(Clone, Copy, Debug, PartialEq, Eq, Structural)]
pub struct Pixel {
    pub a: u8,
    pub r: u8,
    pub g: u8,
    pub b: u8,
}

/// Bytes per pixel of every bitmap: blue, green, red and alpha, stored in that order.
pub const PIXEL_WIDTH: usize = 4;

/// What a screenshot is: its bytes and its geometry.
pub struct Bitmap {
    /// The bytes, scanline after scanline from the top.
    pub bytes: Seq<u8>,
    /// Height in pixels.
    pub height: nat,
    /// Width in pixels.
    pub width: nat,
    /// Bytes in one scanline.
    pub row_len: nat,
    /// Bytes in one pixel.
    pub pixel_width: nat,
}

impl Bitmap {
    /// The geometry and the bytes agree: four bytes per pixel, every
    /// scanline holds at least `width` pixels, and the scanlines fill the
    /// buffer exactly.
    pub open spec fn wf(self) -> bool {
        &&& self.pixel_width == 4
        &&& self.row_len >= self.width * self.pixel_width
        &&& self.bytes.len() == self.height * self.row_len
    }

    /// Where the pixel at `(row, col)` begins.
    pub open spec fn offset(self, row: int, col: int) -> int {
        row * self.row_len + col * self.pixel_width
    }

    /// The four bytes that begin at the offset of `(row, col)` lie inside the buffer.
    pub open spec fn holds(self, row: int, col: int) -> bool {
        0 <= row && 0 <= col && self.offset(row, col) + 4 <= self.bytes.len()
    }

    /// The pixel at `(row, col)`: the bytes at its offset are blue, green,
    /// red and alpha, in that order.
    pub open spec fn pixel(self, row: int, col: int) -> Pixel {
        let at = self.offset(row, col);
        Pixel {
            a: self.bytes[at + 3],
            r: self.bytes[at + 2],
            g: self.bytes[at + 1],
            b: self.bytes[at],
        }
    }
}

/// An image buffer containing the screenshot.
/// Pixels are stored as blue, green, red, alpha.
pub struct Screenshot {
    data: Vec<u8>,
    height: usize,
    width: usize,
    row_len: usize,
    pixel_width: usize,
}

impl View for Screenshot {
    type V = Bitmap;

    closed spec fn view(&self) -> Bitmap {
        Bitmap {
            bytes: self.data@,
            height: self.height as nat,
            width: self.width as nat,
            row_len: self.row_len as nat,
            pixel_width: self.pixel_width as nat,
        }
    }
}

impl Screenshot {
    /// Every screenshot is well formed, from its construction on.
    #[verifier::type_invariant]
    pub open spec fn inv(&self) -> bool {
        self@.wf()
    }

    /// Wraps `data` as a bitmap of `height` scanlines of `row_len` bytes, each
    /// holding `width` pixels of four bytes, where the numbers agree with the
    /// length of `data`.
    pub fn new(data: Vec<u8>, height: usize, width: usize, row_len: usize) -> (made: Option<
        Screenshot,
    >)
        ensures
            made is Some <==> (Bitmap {
                bytes: data@,
                height: height as nat,
                width: width as nat,
                row_len: row_len as nat,
                pixel_width: 4,
            }).wf(),
            made matches Some(s) ==> s@ == (Bitmap {
                bytes: data@,
                height: height as nat,
                width: width as nat,
                row_len: row_len as nat,
                pixel_width: 4,
            }),
    {
        let fits = match (width.checked_mul(PIXEL_WIDTH), height.checked_mul(row_len)) {
            (Some(pixels), Some(total)) => pixels <= row_len && total == data.len(),
            _ => false,
        };
        assert(width * PIXEL_WIDTH > usize::MAX ==> width * 4 > row_len);
        assert(height * row_len > usize::MAX ==> height * row_len != data.len());
        if fits {
            Some(Screenshot { data, height, width, row_len, pixel_width: PIXEL_WIDTH })
        } else {
            None
        }
    }

    /// Height of image in pixels.
    pub fn height(&self) -> (height: usize)
        ensures
            height == self@.height,
    {
        self.height
    }

    /// Width of image in pixels.
    pub fn width(&self) -> (width: usize)
        ensures
            width == self@.width,
    {
        self.width
    }

    /// Number of bytes in one row of bitmap: at least the bytes of its pixels.
    pub fn row_len(&self) -> (row_len: usize)
        ensures
            row_len == self@.row_len,
            row_len >= self@.width * self@.pixel_width,
    {
        proof {
            use_type_invariant(self);
        }
        self.row_len
    }

    /// Width of pixel in bytes.
    pub fn pixel_width(&self) -> (pixel_width: usize)
        ensures
            pixel_width == self@.pixel_width,
            pixel_width == 4,
    {
        proof {
            use_type_invariant(self);
        }
        self.pixel_width
    }

    /// Number of bytes in bitmap.
    pub fn raw_len(&self) -> (len: usize)
        ensures
            len == self@.bytes.len(),
            len == self@.height * self@.row_len,
    {
        proof {
            use_type_invariant(self);
        }
        self.data.len()
    }

    /// Bitmap as vector: a copy of the bytes, never the buffer itself.
    pub fn get_data(&self) -> (copy: Vec<u8>)
        ensures
            copy@ == self@.bytes,
    {
        self.data.clone()
    }

    /// Raw bitmap: the first byte of the storage, for reading. The bytes
    /// that follow it in memory are the rest of the bitmap. The bitmap must
    /// not be empty.
    pub fn raw_data(&self) -> (first: &u8)
        requires
            self@.bytes.len() > 0,
        ensures
            *first == self@.bytes[0],
    {
        &self.data[0]
    }

    /// Raw bitmap: the first byte of the storage, for writing in place.
    /// Nothing but that byte changes, and the geometry stays as it is. The
    /// bitmap must not be empty.
    pub fn raw_data_mut(&mut self) -> (first: &mut u8)
        requires
            old(self)@.bytes.len() > 0,
        ensures
            *first == old(self)@.bytes[0],
            final(self)@ == (Bitmap {
                bytes: old(self)@.bytes.update(0, *final(first)),
                ..old(self)@
            }),
    {
        proof {
            use_type_invariant(&*self);
        }
        &mut self.data[0]
    }

    /// Whether the four bytes of the pixel at (row, col) lie inside the bitmap.
    pub fn holds(&self, row: usize, col: usize) -> (inside: bool)
        ensures
            inside == self@.holds(row as int, col as int),
    {
        proof {
            use_type_invariant(self);
            assert(0 <= row * self.row_len && 0 <= col * self.pixel_width) by (nonlinear_arith);
        }
        let len = self.data.len();
        match (row.checked_mul(self.row_len), col.checked_mul(self.pixel_width)) {
            (Some(above), Some(before)) => above <= len && before <= len - above && 4 <= len
                - above - before,
            _ => false,
        }
    }

    /// Gets pixel at (row, col).
    pub fn get_pixel(&self, row: usize, col: usize) -> (pixel: Pixel)
        requires
            self@.holds(row as int, col as int),
        ensures
            pixel == self@.pixel(row as int, col as int),
    {
        proof {
            let at = self@.offset(row as int, col as int);
            assert(at == row * self.row_len + col * self.pixel_width);
            assert(0 <= row * self.row_len && 0 <= col * self.pixel_width) by (nonlinear_arith);
            assert(at + 4 <= self.data.len());
        }
        let idx = row * self.row_len + col * self.pixel_width;
        Pixel {
            a: self.data[idx + 3],
            r: self.data[idx + 2],
            g: self.data[idx + 1],
            b: self.data[idx],
        }
    }
}

impl AsRef<[u8]> for Screenshot {
    /// The bytes of the bitmap, borrowed for as long as the screenshot is.
    fn as_ref(&self) -> (bytes: &[u8])
        ensures
            bytes@ == self@.bytes,
    {
        self.data.as_slice()
    }
}

/// Every position inside the image has its four bytes inside the buffer:
/// reading a pixel at a row below `height` and a column below `width` never
/// leaves the bytes, and yields the four bytes that begin at
/// `row * row_len + col * pixel_width` as blue, green, red and alpha.
pub proof fn lemma_pixels_inside(image: Bitmap, row: int, col: int)
    requires
        image.wf(),
        0 <= row < image.height,
        0 <= col < image.width,
    ensures
        image.holds(row, col),
        0 <= image.offset(row, col),
        image.pixel(row, col).b == image.bytes[image.offset(row, col)],
        image.pixel(row, col).g == image.bytes[image.offset(row, col) + 1],
        image.pixel(row, col).r == image.bytes[image.offset(row, col) + 2],
        image.pixel(row, col).a == image.bytes[image.offset(row, col) + 3],
{
    let row_len = image.row_len as int;
    let height = image.height as int;
    assert(0 <= row * row_len && (row + 1) * row_len <= height * row_len
        && (row + 1) * row_len == row * row_len + row_len) by (nonlinear_arith)
        requires
            0 <= row < height,
            0 <= row_len,
    ;
}

} // verus!
