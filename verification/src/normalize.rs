//! The transforms that bring a backend's raw bytes into the canonical layout:
//! scanlines from the top, four bytes per pixel, stored as blue, green, red, alpha.

use vstd::arithmetic::div_mod::lemma_fundamental_div_mod_converse;
use vstd::prelude::*;
use crate::error::CaptureError;
use crate::screenshot::{Bitmap, Pixel, Screenshot};

verus! {

/// Where byte `r` of row `q` lies among `n` rows of `d` bytes, and how its
/// position splits back into row and byte.
proof fn lemma_position(q: int, r: int, d: int, n: int)
    requires
        0 <= q < n,
        0 <= r < d,
    ensures
        0 <= q * d,
        q * d + r < n * d,
        (q + 1) * d == q * d + d,
        (q * d + r) / d == q,
        (q * d + r) % d == r,
{
    assert(0 <= q * d && (q + 1) * d == q * d + d && (q + 1) * d <= n * d) by (nonlinear_arith)
        requires
            0 <= q < n,
            0 <= d,
    ;
    lemma_fundamental_div_mod_converse(q * d + r, d, q, r);
}

/// The index from which reversing the order of `height` scanlines of
/// `row_len` bytes fills index `i`. Bytes past the scanlines stay where they are.
pub open spec fn flipped_source(i: int, height: nat, row_len: nat) -> int {
    if row_len > 0 && i < height * row_len {
        (height - 1 - i / (row_len as int)) * row_len + i % (row_len as int)
    } else {
        i
    }
}

/// `data` with its first `height` scanlines of `row_len` bytes in reverse
/// order: the last scanline first.
pub open spec fn rows_flipped(data: Seq<u8>, height: nat, row_len: nat) -> Seq<u8> {
    Seq::new(data.len(), |i: int| data[flipped_source(i, height, row_len)])
}

/// Reorder rows in bitmap, last to first.
pub fn flip_rows(data: Vec<u8>, height: usize, row_len: usize) -> (flipped: Vec<u8>)
    requires
        height * row_len <= data@.len(),
    ensures
        flipped@ == rows_flipped(data@, height as nat, row_len as nat),
{
    let len = data.len();
    let mut new_data: Vec<u8> = Vec::with_capacity(len);
    let mut row_i: usize = 0;
    while row_i < height
        invariant
            row_i <= height,
            len == data@.len(),
            height * row_len <= len,
            new_data@.len() == row_i * row_len,
            forall|i: int|
                0 <= i < new_data@.len() ==> new_data@[i] == data@[flipped_source(
                    i,
                    height as nat,
                    row_len as nat,
                )],
        decreases height - row_i,
    {
        let mut byte_i: usize = 0;
        while byte_i < row_len
            invariant
                row_i < height,
                byte_i <= row_len,
                len == data@.len(),
                height * row_len <= len,
                new_data@.len() == row_i * row_len + byte_i,
                forall|i: int|
                    0 <= i < new_data@.len() ==> new_data@[i] == data@[flipped_source(
                        i,
                        height as nat,
                        row_len as nat,
                    )],
            decreases row_len - byte_i,
        {
            proof {
                lemma_position(
                    height - row_i - 1,
                    byte_i as int,
                    row_len as int,
                    height as int,
                );
                lemma_position(row_i as int, byte_i as int, row_len as int, height as int);
            }
            let old_idx = (height - row_i - 1) * row_len + byte_i;
            new_data.push(data[old_idx]);
            byte_i += 1;
        }
        assert((row_i + 1) * row_len == row_i * row_len + row_len) by (nonlinear_arith);
        row_i += 1;
    }
    let mut rest: usize = new_data.len();
    while rest < len
        invariant
            height * row_len <= rest <= len,
            len == data@.len(),
            new_data@.len() == rest,
            forall|i: int|
                0 <= i < new_data@.len() ==> new_data@[i] == data@[flipped_source(
                    i,
                    height as nat,
                    row_len as nat,
                )],
        decreases len - rest,
    {
        new_data.push(data[rest]);
        rest += 1;
    }
    new_data
}

/// The index from which exchanging the first and third byte of each of the
/// first `pixels` pixels fills index `i`.
pub open spec fn swapped_source(i: int, pixels: nat) -> int {
    if i / 4 < pixels {
        if i % 4 == 0 {
            i + 2
        } else if i % 4 == 2 {
            i - 2
        } else {
            i
        }
    } else {
        i
    }
}

/// `data` with the first and the third byte exchanged in each of its first
/// `pixels` pixels of four bytes. The second and the fourth byte of a pixel
/// stay, and so does every byte past those pixels.
pub open spec fn red_blue_swapped(data: Seq<u8>, pixels: nat) -> Seq<u8> {
    Seq::new(data.len(), |i: int| data[swapped_source(i, pixels)])
}

/// The first three bytes of each of `pixels` pixels lie among `len` bytes.
pub open spec fn swappable(len: nat, pixels: nat) -> bool {
    pixels == 0 || 4 * pixels <= len + 1
}

/// Reorder bytes in one pixel, BGR to RGB.
pub fn flip_rgb(data: Vec<u8>, height: usize, width: usize, pixel_width: usize) -> (flipped: Vec<
    u8,
>)
    requires
        pixel_width == 4,
        swappable(data@.len(), (height * width) as nat),
    ensures
        flipped@ == red_blue_swapped(data@, (height * width) as nat),
{
    let ghost before = data@;
    let mut data = data;
    let len = data.len();
    if height == 0 || width == 0 {
        assert(height * width == 0) by (nonlinear_arith)
            requires
                height == 0 || width == 0,
        ;
        assert(data@ =~= red_blue_swapped(before, 0));
        return data;
    }
    assert(height * width > 0) by (nonlinear_arith)
        requires
            height > 0,
            width > 0,
    ;
    let pixels = height * width;
    let mut done: usize = 0;
    while done < pixels
        invariant
            done <= pixels,
            pixel_width == 4,
            len == before.len(),
            data@.len() == before.len(),
            4 * pixels <= before.len() + 1,
            data@ == red_blue_swapped(before, done as nat),
        decreases pixels - done,
    {
        let at = done * pixel_width;
        let blue = data[at];
        let red = data[at + 2];
        data.set(at, red);
        data.set(at + 2, blue);
        done += 1;
        assert(data@ =~= red_blue_swapped(before, done as nat));
    }
    data
}

/// Bytes from the start of one scanline to the start of the next, in a frame
/// of `len` bytes and `height` scanlines.
pub open spec fn stride(len: nat, height: nat) -> nat {
    if height == 0 {
        0
    } else {
        len / height
    }
}

/// Every pixel of a frame of `width` by `height` pixels has its first three
/// bytes among the frame's `len` bytes. A frame without pixels always does.
pub open spec fn covers(len: nat, width: nat, height: nat) -> bool {
    width == 0 || height == 0 || stride(len, height) * (height - 1) + 4 * (width - 1) + 2 < len
}

/// Byte `k` of the canonical bitmap of a packed frame: the pixel's own first
/// three bytes, which are its blue, green and red, and 255 for alpha.
pub open spec fn opaque_byte(raw: Seq<u8>, width: nat, height: nat, k: int) -> u8 {
    let pixel = k / 4;
    let channel = k % 4;
    if channel == 3 {
        255u8
    } else {
        raw[stride(raw.len(), height) * (pixel / (width as int)) + 4 * (pixel % (width as int))
            + channel]
    }
}

/// The canonical bytes of a packed frame whose scanlines run from the top:
/// `width * height` pixels without padding between scanlines, each fully opaque.
pub open spec fn opaque(raw: Seq<u8>, width: nat, height: nat) -> Seq<u8> {
    Seq::new(width * height * 4, |k: int| opaque_byte(raw, width, height, k))
}

/// Whether every pixel of a frame of `width` by `height` pixels has its first
/// three bytes among `len` bytes.
pub fn covers_frame(len: usize, width: usize, height: usize) -> (fits: bool)
    ensures
        fits == covers(len as nat, width as nat, height as nat),
{
    if width == 0 || height == 0 {
        return true;
    }
    let step = len / height;
    assert(step * (height - 1) <= len) by (nonlinear_arith)
        requires
            step == (len as int) / (height as int),
            height > 0,
            len >= 0,
    ;
    let rows = step * (height - 1);
    match (width - 1).checked_mul(4) {
        Some(columns) => columns <= len - rows && 2 < len - rows - columns,
        None => false,
    }
}

/// Makes the canonical bytes of a packed frame whose scanlines run from the
/// top: drops what lies between the scanlines, keeps each pixel's blue, green
/// and red, and sets its alpha to 255.
pub fn make_opaque(raw: &[u8], width: usize, height: usize) -> (bytes: Vec<u8>)
    requires
        covers(raw@.len(), width as nat, height as nat),
        width * height * 4 <= usize::MAX,
    ensures
        bytes@ == opaque(raw@, width as nat, height as nat),
{
    let mut bytes: Vec<u8> = Vec::new();
    if width == 0 || height == 0 {
        assert(width * height * 4 == 0) by (nonlinear_arith)
            requires
                width == 0 || height == 0,
        ;
        assert(bytes@ =~= opaque(raw@, width as nat, height as nat));
        return bytes;
    }
    let len = raw.len();
    let step = len / height;
    let mut y: usize = 0;
    while y < height
        invariant
            y <= height,
            0 < width,
            0 < height,
            len == raw@.len(),
            step == stride(raw@.len(), height as nat),
            covers(raw@.len(), width as nat, height as nat),
            bytes@.len() == y * width * 4,
            forall|k: int|
                0 <= k < bytes@.len() ==> bytes@[k] == opaque_byte(
                    raw@,
                    width as nat,
                    height as nat,
                    k,
                ),
        decreases height - y,
    {
        let mut x: usize = 0;
        while x < width
            invariant
                y < height,
                x <= width,
                0 < width,
                0 < height,
                len == raw@.len(),
                step == stride(raw@.len(), height as nat),
                covers(raw@.len(), width as nat, height as nat),
                bytes@.len() == (y * width + x) * 4,
                forall|k: int|
                    0 <= k < bytes@.len() ==> bytes@[k] == opaque_byte(
                        raw@,
                        width as nat,
                        height as nat,
                        k,
                    ),
            decreases width - x,
        {
            proof {
                lemma_position(y as int, x as int, width as int, height as int);
                assert(0 <= step * y <= step * (height - 1)) by (nonlinear_arith)
                    requires
                        0 <= y < height,
                        0 <= step,
                ;
            }
            let i = step * y + 4 * x;
            bytes.push(raw[i]);
            bytes.push(raw[i + 1]);
            bytes.push(raw[i + 2]);
            bytes.push(255);
            x += 1;
        }
        assert((y + 1) * width * 4 == (y * width + width) * 4) by (nonlinear_arith);
        y += 1;
    }
    assert(height * width * 4 == width * height * 4) by (nonlinear_arith);
    assert(bytes@ =~= opaque(raw@, width as nat, height as nat));
    bytes
}

/// The bitmap of a packed frame of `width` by `height` pixels whose
/// scanlines run from the top.
pub open spec fn packed_bitmap(raw: Seq<u8>, width: nat, height: nat) -> Bitmap {
    Bitmap {
        bytes: opaque(raw, width, height),
        height,
        width,
        row_len: width * 4,
        pixel_width: 4,
    }
}

/// A packed frame of `len` bytes can be normalized: its pixels lie inside it,
/// and the bitmap's scanline length and size are numbers of the machine.
pub open spec fn packed_fits(len: nat, width: nat, height: nat) -> bool {
    &&& covers(len, width, height)
    &&& width * 4 <= usize::MAX
    &&& width * height * 4 <= usize::MAX
}

/// Normalizes a packed frame whose scanlines run from the top, as the generic
/// and the compositor backend deliver it. A frame without pixels gives an
/// empty bitmap.
pub fn normalize_packed(raw: &[u8], width: usize, height: usize) -> (result: Result<
    Screenshot,
    CaptureError,
>)
    ensures
        result is Ok <==> packed_fits(raw@.len(), width as nat, height as nat),
        result matches Ok(shot) ==> shot@ == packed_bitmap(raw@, width as nat, height as nat),
        result matches Err(error) ==> error == CaptureError::FrameMismatch,
{
    let row_len = match width.checked_mul(4) {
        Some(row_len) => row_len,
        None => { return Err(CaptureError::FrameMismatch); },
    };
    if row_len.checked_mul(height).is_none() || !covers_frame(raw.len(), width, height) {
        assert(width * 4 * height == width * height * 4) by (nonlinear_arith);
        return Err(CaptureError::FrameMismatch);
    }
    assert(width * 4 * height == width * height * 4 && height * (width * 4) == width * height * 4)
        by (nonlinear_arith);
    let bytes = make_opaque(raw, width, height);
    match Screenshot::new(bytes, height, width, row_len) {
        Some(shot) => Ok(shot),
        None => Err(CaptureError::FrameMismatch),
    }
}

/// The bitmap of a frame of `width` by `height` pixels of four bytes whose
/// scanlines run from the bottom: the scanlines in reverse order, and in each
/// pixel the first and the third byte exchanged.
pub open spec fn bottom_up_bitmap(data: Seq<u8>, width: nat, height: nat) -> Bitmap {
    Bitmap {
        bytes: red_blue_swapped(rows_flipped(data, height, width * 4), width * height),
        height,
        width,
        row_len: width * 4,
        pixel_width: 4,
    }
}

/// A frame of `len` bytes whose scanlines run from the bottom can be
/// normalized: it holds its pixels and nothing else, and the bitmap's
/// scanline length is a number of the machine.
pub open spec fn bottom_up_fits(len: nat, width: nat, height: nat) -> bool {
    &&& len == width * height * 4
    &&& width * 4 <= usize::MAX
}

/// Normalizes a frame whose scanlines run from the bottom, as the legacy
/// backend reads it back: `width * height` pixels of four bytes and nothing
/// else. The fourth byte of each pixel is kept as it was read.
pub fn normalize_bottom_up(data: Vec<u8>, width: usize, height: usize) -> (result: Result<
    Screenshot,
    CaptureError,
>)
    ensures
        result is Ok <==> bottom_up_fits(data@.len(), width as nat, height as nat),
        result matches Ok(shot) ==> shot@ == bottom_up_bitmap(data@, width as nat, height as nat),
        result matches Err(error) ==> error == CaptureError::FrameMismatch,
{
    let len = data.len();
    let row_len = match width.checked_mul(4) {
        Some(row_len) => row_len,
        None => { return Err(CaptureError::FrameMismatch); },
    };
    assert(width * 4 * height == width * height * 4 && height * (width * 4) == width * height * 4
        && height * width * 4 == width * height * 4) by (nonlinear_arith);
    if row_len.checked_mul(height) != Some(len) {
        return Err(CaptureError::FrameMismatch);
    }
    let rows = flip_rows(data, height, row_len);
    let bytes = flip_rgb(rows, height, width, 4);
    match Screenshot::new(bytes, height, width, row_len) {
        Some(shot) => Ok(shot),
        None => Err(CaptureError::FrameMismatch),
    }
}

/// Whatever a packed frame of width W and height H holds, its bitmap is well
/// formed and has exactly W * H pixels of four bytes in scanlines of W * 4 bytes.
pub proof fn lemma_packed_geometry(raw: Seq<u8>, width: nat, height: nat)
    ensures
        packed_bitmap(raw, width, height).wf(),
        packed_bitmap(raw, width, height).width == width,
        packed_bitmap(raw, width, height).height == height,
        packed_bitmap(raw, width, height).row_len == width * 4,
        packed_bitmap(raw, width, height).bytes.len() == width * height * 4,
{
    assert(height * (width * 4) == width * height * 4) by (nonlinear_arith);
}

/// A bottom-up frame of width W and height H that holds its W * H pixels of
/// four bytes and nothing else has a well-formed bitmap of exactly W * H
/// pixels in scanlines of W * 4 bytes.
pub proof fn lemma_bottom_up_geometry(data: Seq<u8>, width: nat, height: nat)
    requires
        data.len() == width * height * 4,
    ensures
        bottom_up_bitmap(data, width, height).wf(),
        bottom_up_bitmap(data, width, height).width == width,
        bottom_up_bitmap(data, width, height).height == height,
        bottom_up_bitmap(data, width, height).row_len == width * 4,
        bottom_up_bitmap(data, width, height).bytes.len() == width * height * 4,
{
    assert(height * (width * 4) == width * height * 4) by (nonlinear_arith);
}

/// Reading the pixel at `(row, col)` of a normalized packed frame gives the
/// three bytes that begin at `stride * row + 4 * col` in the frame as blue,
/// green and red, and 255 as alpha, whatever the frame's own fourth byte was.
pub proof fn lemma_packed_pixel(raw: Seq<u8>, width: nat, height: nat, row: int, col: int)
    requires
        0 <= row < height,
        0 <= col < width,
    ensures
        packed_bitmap(raw, width, height).holds(row, col),
        packed_bitmap(raw, width, height).pixel(row, col) == ({
            let at = stride(raw.len(), height) * row + 4 * col;
            Pixel { a: 255, r: raw[at + 2], g: raw[at + 1], b: raw[at] }
        }),
{
    let image = packed_bitmap(raw, width, height);
    lemma_packed_geometry(raw, width, height);
    crate::screenshot::lemma_pixels_inside(image, row, col);
    lemma_position(row, col, width as int, height as int);
    let first = image.offset(row, col);
    assert(first == (row * width + col) * 4) by (nonlinear_arith)
        requires
            first == row * (width * 4) + col * 4,
    ;
    assert(image.bytes[first] == opaque_byte(raw, width, height, first));
    assert(image.bytes[first + 1] == opaque_byte(raw, width, height, first + 1));
    assert(image.bytes[first + 2] == opaque_byte(raw, width, height, first + 2));
    assert(image.bytes[first + 3] == opaque_byte(raw, width, height, first + 3));
}

/// Reading the pixel at `(row, col)` of a normalized bottom-up frame gives
/// the pixel of the frame's scanline `height - 1 - row` at column `col`, its
/// first byte as red, its second as green, its third as blue and its fourth,
/// as it was read, as alpha.
pub proof fn lemma_bottom_up_pixel(data: Seq<u8>, width: nat, height: nat, row: int, col: int)
    requires
        data.len() == width * height * 4,
        0 <= row < height,
        0 <= col < width,
    ensures
        bottom_up_bitmap(data, width, height).holds(row, col),
        bottom_up_bitmap(data, width, height).pixel(row, col) == ({
            let at = (height - 1 - row) * (width * 4) + 4 * col;
            Pixel { a: data[at + 3], r: data[at], g: data[at + 1], b: data[at + 2] }
        }),
{
    let image = bottom_up_bitmap(data, width, height);
    let row_len = (width * 4) as int;
    let rows = rows_flipped(data, height, width * 4);
    lemma_bottom_up_geometry(data, width, height);
    crate::screenshot::lemma_pixels_inside(image, row, col);
    let first = image.offset(row, col);
    let source = (height - 1 - row) * row_len + 4 * col;
    assert(height * row_len == width * height * 4) by (nonlinear_arith)
        requires
            row_len == width * 4,
    ;
    assert(first == (row * width + col) * 4) by (nonlinear_arith)
        requires
            first == row * (width * 4) + col * 4,
    ;
    lemma_position(row, col, width as int, height as int);
    assert((row * width + col) < width * height) by (nonlinear_arith)
        requires
            row * width + col < height * width,
    ;
    assert forall|c: int| 0 <= c < 4 implies #[trigger] rows[first + c] == data[source + c] by {
        lemma_position(row, 4 * col + c, row_len, height as int);
        lemma_position(height - 1 - row, 4 * col + c, row_len, height as int);
        assert(first + c == row * row_len + (4 * col + c));
    }
    assert(image.bytes[first] == rows[first + 2]);
    assert(image.bytes[first + 1] == rows[first + 1]);
    assert(image.bytes[first + 2] == rows[first + 0]);
    assert(image.bytes[first + 3] == rows[first + 3]);
}

} // verus!
