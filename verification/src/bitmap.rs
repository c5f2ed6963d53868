//! In-memory raster image and the classic bitmap container layout.
//!
//! The container is a 14-byte file header (magic "BM", little-endian
//! 32-bit file size, reserved field, pixel-data offset) followed by a
//! 40-byte info header and the raw pixel bytes, three per pixel in
//! B-G-R order, rows in the order they are stored in the buffer.
//! Every byte of the output is pinned by the spec functions here.

use vstd::prelude::*;
use crate::error::RenderError;

verus! {

/// Largest width or height the renderer accepts; keeps every size
/// computation comfortably inside the machine integer types.
pub const MAX_DIMENSION: usize = 30000;

/// Total size of the two headers that precede the pixel data.
pub const HEADER_BYTES: usize = 54;

/// The four little-endian bytes of a 32-bit value.
pub open spec fn le4(v: int) -> Seq<u8>
    recommends
        0 <= v < 0x1_0000_0000,
{
    seq![
        (v % 256) as u8,
        ((v / 256) % 256) as u8,
        ((v / 65536) % 256) as u8,
        ((v / 16777216) % 256) as u8,
    ]
}

/// The two little-endian bytes of a 16-bit value.
pub open spec fn le2(v: int) -> Seq<u8>
    recommends
        0 <= v < 0x1_0000,
{
    seq![(v % 256) as u8, ((v / 256) % 256) as u8]
}

/// The value encoded by four little-endian bytes.
pub open spec fn le4_val(b0: u8, b1: u8, b2: u8, b3: u8) -> int {
    b0 + 256 * b1 + 65536 * b2 + 16777216 * b3
}

/// Encoding then decoding four little-endian bytes recovers the value.
pub proof fn lemma_le4_roundtrip(v: int)
    requires
        0 <= v < 0x1_0000_0000,
    ensures
        le4_val(le4(v)[0], le4(v)[1], le4(v)[2], le4(v)[3]) == v,
{
    assert(v == 256 * (v / 256) + v % 256);
    assert(v / 256 == 256 * (v / 256 / 256) + (v / 256) % 256);
    assert(v / 256 / 256 == v / 65536);
    assert(v / 65536 == 256 * (v / 65536 / 256) + (v / 65536) % 256);
    assert(v / 65536 / 256 == v / 16777216);
    assert(v / 16777216 < 256);
    assert((v / 16777216) % 256 == v / 16777216);
}

/// The 14 bytes of the file header: magic "BM", file size, a reserved
/// zero field, and the offset of the pixel data.
pub open spec fn file_header_bytes(file_size: int, data_offset: int) -> Seq<u8> {
    seq![66u8, 77u8] + le4(file_size) + le4(0) + le4(data_offset)
}

/// The 40 bytes of the info header: header size 40, width, height,
/// 1 plane, 24 bits per pixel, and six zero fields (compression, data
/// size, the two resolutions, and the two palette fields).
pub open spec fn info_header_bytes(width: int, height: int) -> Seq<u8> {
    le4(40) + le4(width) + le4(height) + le2(1) + le2(24) + le4(0) + le4(0) + le4(0) + le4(0) + le4(
    0) + le4(0)
}

/// The whole file: both headers followed by the raw pixel bytes.
pub open spec fn bmp_bytes(width: int, height: int, pixels: Seq<u8>) -> Seq<u8> {
    file_header_bytes(
        HEADER_BYTES + width * height * 3,
        HEADER_BYTES as int,
    ) + info_header_bytes(width, height) + pixels
}

/// The file header of the bitmap container, field by field.
pub struct FileHeader {
    pub header: [u8; 2],
    pub file_size: i32,
    pub reserved: i32,
    pub data_offset: i32,
}

/// The info header of the bitmap container, field by field.
pub struct InfoHeader {
    pub header_size: i32,
    pub width: i32,
    pub height: i32,
    pub planes: i16,
    pub bits_per_pixel: i16,
    pub compression: i32,
    pub data_size: i32,
    pub horizontal_resolution: i32,
    pub vertical_resolution: i32,
    pub colors: i32,
    pub important_colors: i32,
}

impl Default for FileHeader {
    /// The fixed parts of a file header; sizes are filled in later.
    fn default() -> (r: FileHeader)
        ensures
            r.header@ == seq![66u8, 77u8],
            r.file_size == 0,
            r.reserved == 0,
            r.data_offset == 0,
    {
        FileHeader { header: [66u8, 77u8], file_size: 0, reserved: 0, data_offset: 0 }
    }
}

impl Default for InfoHeader {
    /// The fixed parts of an info header for a 24-bit uncompressed image.
    fn default() -> (r: InfoHeader)
        ensures
            r.header_size == 40,
            r.width == 0,
            r.height == 0,
            r.planes == 1,
            r.bits_per_pixel == 24,
            r.compression == 0,
            r.data_size == 0,
            r.horizontal_resolution == 0,
            r.vertical_resolution == 0,
            r.colors == 0,
            r.important_colors == 0,
    {
        InfoHeader {
            header_size: 40,
            width: 0,
            height: 0,
            planes: 1,
            bits_per_pixel: 24,
            compression: 0,
            data_size: 0,
            horizontal_resolution: 0,
            vertical_resolution: 0,
            colors: 0,
            important_colors: 0,
        }
    }
}

/// Append the four little-endian bytes of `v` to `out`.
fn push_le4(out: &mut Vec<u8>, v: u32)
    ensures
        final(out)@ == old(out)@ + le4(v as int),
{
    out.push((v % 256) as u8);
    out.push(((v / 256) % 256) as u8);
    out.push(((v / 65536) % 256) as u8);
    out.push(((v / 16777216) % 256) as u8);
    assert(out@ =~= old(out)@ + le4(v as int));
}

/// Append the two little-endian bytes of `v` to `out`.
fn push_le2(out: &mut Vec<u8>, v: u16)
    ensures
        final(out)@ == old(out)@ + le2(v as int),
{
    out.push((v % 256) as u8);
    out.push(((v / 256) % 256) as u8);
    assert(out@ =~= old(out)@ + le2(v as int));
}

/// Read back the 32-bit little-endian value stored at `offset`.
pub fn read_le4(bytes: &Vec<u8>, offset: usize) -> (r: u32)
    requires
        offset + 4 <= bytes@.len(),
    ensures
        r == le4_val(
            bytes@[offset as int],
            bytes@[offset + 1],
            bytes@[offset + 2],
            bytes@[offset + 3],
        ),
{
    proof {
        vstd::std_specs::vec::axiom_spec_len(bytes);
    }
    let b0: u32 = bytes[offset] as u32;
    let b1: u32 = bytes[offset + 1] as u32;
    let b2: u32 = bytes[offset + 2] as u32;
    let b3: u32 = bytes[offset + 3] as u32;
    b0 + 256 * b1 + 65536 * b2 + 16777216 * b3
}

/// The file size the container will record for a width x height image,
/// or the error when it does not fit the format's 32-bit signed field.
pub fn bmp_file_size(width: usize, height: usize) -> (r: Result<i32, RenderError>)
    requires
        width <= MAX_DIMENSION,
        height <= MAX_DIMENSION,
    ensures
        HEADER_BYTES + width * height * 3 <= i32::MAX ==> (r matches Ok(s) && s == HEADER_BYTES
            + width * height * 3),
        HEADER_BYTES + width * height * 3 > i32::MAX ==> (r matches Err(e) && e
            == RenderError::NumericConversion),
{
    proof {
        assert(width * height * 3 <= MAX_DIMENSION * MAX_DIMENSION * 3) by (nonlinear_arith)
            requires
                0 <= width <= MAX_DIMENSION,
                0 <= height <= MAX_DIMENSION,
                MAX_DIMENSION == 30000,
        ;
    }
    let total: u64 = (HEADER_BYTES as u64) + (width as u64) * (height as u64) * 3;
    if total <= 0x7fff_ffff {
        Ok(total as i32)
    } else {
        Err(RenderError::NumericConversion)
    }
}

/// An owned raster of `width * height` pixels, three bytes per pixel
/// in B-G-R order, rows stored first to last.
pub struct Image {
    pub width: usize,
    pub height: usize,
    pub pixels: Vec<u8>,
}

impl Image {
    /// The buffer has exactly three bytes per pixel and the dimensions
    /// are within what the container can describe.
    pub open spec fn wf(&self) -> bool {
        &&& self.pixels@.len() == self.width * self.height * 3
        &&& self.width <= MAX_DIMENSION
        &&& self.height <= MAX_DIMENSION
    }

    /// A zeroed image of the given dimensions.
    pub fn new(width: usize, height: usize) -> (r: Image)
        requires
            width <= MAX_DIMENSION,
            height <= MAX_DIMENSION,
        ensures
            r.wf(),
            r.width == width,
            r.height == height,
            forall|i: int| 0 <= i < r.pixels@.len() ==> r.pixels@[i] == 0u8,
    {
        proof {
            assert(width * height * 3 <= MAX_DIMENSION * MAX_DIMENSION * 3) by (nonlinear_arith)
                requires
                    0 <= width <= MAX_DIMENSION,
                    0 <= height <= MAX_DIMENSION,
                    MAX_DIMENSION == 30000,
            ;
        }
        let n: usize = width * height * 3;
        let pixels: Vec<u8> = vec![0u8; n];
        Image { width, height, pixels }
    }

    /// Write one pixel.  The three bytes of pixel (x, y) start at
    /// `(y * width + x) * 3` and hold blue, green, red in that order.
    pub fn set_pixel(&mut self, x: usize, y: usize, red: u8, green: u8, blue: u8)
        requires
            old(self).wf(),
            x < old(self).width,
            y < old(self).height,
        ensures
            final(self).wf(),
            final(self).width == old(self).width,
            final(self).height == old(self).height,
            final(self).pixels@ == old(self).pixels@.update(
                (y * old(self).width + x) * 3,
                blue,
            ).update((y * old(self).width + x) * 3 + 1, green).update(
                (y * old(self).width + x) * 3 + 2,
                red,
            ),
    {
        proof {
            assert((y * self.width + x) * 3 + 3 <= self.width * self.height * 3 && self.width
                * self.height * 3 <= 2700000000) by (nonlinear_arith)
                requires
                    x < self.width,
                    y < self.height,
                    self.width <= MAX_DIMENSION,
                    self.height <= MAX_DIMENSION,
                    MAX_DIMENSION == 30000,
            ;
        }
        let base: usize = (y * self.width + x) * 3;
        self.pixels[base] = blue;
        self.pixels[base + 1] = green;
        self.pixels[base + 2] = red;
    }

    /// The bytes of the whole bitmap file for this image, or the error
    /// when the file size cannot be recorded in the container's 32-bit
    /// signed field.  No bytes are produced in the error case.
    pub fn file_bytes(&self) -> (r: Result<Vec<u8>, RenderError>)
        requires
            self.wf(),
        ensures
            HEADER_BYTES + self.width * self.height * 3 <= i32::MAX ==> (r matches Ok(b) && b@
                == bmp_bytes(self.width as int, self.height as int, self.pixels@)),
            HEADER_BYTES + self.width * self.height * 3 > i32::MAX ==> (r matches Err(e) && e
                == RenderError::NumericConversion),
    {
        let file_size: i32 = match bmp_file_size(self.width, self.height) {
            Ok(s) => s,
            Err(e) => { return Err(e); },
        };
        let mut out: Vec<u8> = Vec::new();
        out.push(66u8);
        out.push(77u8);
        push_le4(&mut out, file_size as u32);
        push_le4(&mut out, 0);
        push_le4(&mut out, HEADER_BYTES as u32);
        proof {
            assert(out@ =~= file_header_bytes(
                HEADER_BYTES + self.width * self.height * 3,
                HEADER_BYTES as int,
            ));
        }
        push_le4(&mut out, 40);
        push_le4(&mut out, self.width as u32);
        push_le4(&mut out, self.height as u32);
        push_le2(&mut out, 1);
        push_le2(&mut out, 24);
        push_le4(&mut out, 0);
        push_le4(&mut out, 0);
        push_le4(&mut out, 0);
        push_le4(&mut out, 0);
        push_le4(&mut out, 0);
        push_le4(&mut out, 0);
        proof {
            assert(out@ =~= file_header_bytes(
                HEADER_BYTES + self.width * self.height * 3,
                HEADER_BYTES as int,
            ) + info_header_bytes(self.width as int, self.height as int));
        }
        let ghost headers = out@;
        let mut i: usize = 0;
        while i < self.pixels.len()
            invariant
                i <= self.pixels@.len(),
                out@ == headers + self.pixels@.subrange(0, i as int),
            decreases self.pixels@.len() - i,
        {
            out.push(self.pixels[i]);
            i = i + 1;
            proof {
                assert(out@ =~= headers + self.pixels@.subrange(0, i as int));
            }
        }
        proof {
            assert(self.pixels@.subrange(0, self.pixels@.len() as int) =~= self.pixels@);
            assert(out@ =~= bmp_bytes(self.width as int, self.height as int, self.pixels@));
        }
        Ok(out)
    }
}

/// Writing an image and re-reading its header bytes recovers the exact
/// width, height and file size that were supplied: the file size sits in
/// bytes 2..6 of the file, the width in bytes 18..22 and the height in
/// bytes 22..26, each little-endian.
#[verifier::rlimit(50)]
pub proof fn lemma_header_roundtrip(width: int, height: int, pixels: Seq<u8>)
    requires
        0 <= width <= MAX_DIMENSION,
        0 <= height <= MAX_DIMENSION,
        HEADER_BYTES + width * height * 3 <= i32::MAX,
    ensures
        ({
            let b = bmp_bytes(width, height, pixels);
            &&& le4_val(b[2], b[3], b[4], b[5]) == HEADER_BYTES + width * height * 3
            &&& le4_val(b[18], b[19], b[20], b[21]) == width
            &&& le4_val(b[22], b[23], b[24], b[25]) == height
        }),
{
    let b = bmp_bytes(width, height, pixels);
    let size = HEADER_BYTES + width * height * 3;
    assert(width * height * 3 >= 0) by (nonlinear_arith)
        requires
            width >= 0,
            height >= 0,
    ;
    assert(b[2] == le4(size)[0] && b[3] == le4(size)[1] && b[4] == le4(size)[2] && b[5] == le4(
    size)[3]);
    lemma_le4_roundtrip(size);
    assert(b[18] == le4(width)[0] && b[19] == le4(width)[1] && b[20] == le4(width)[2] && b[21]
        == le4(width)[3]);
    lemma_le4_roundtrip(width);
    assert(b[22] == le4(height)[0] && b[23] == le4(height)[1] && b[24] == le4(height)[2] && b[25]
        == le4(height)[3]);
    lemma_le4_roundtrip(height);
}

} // verus!
