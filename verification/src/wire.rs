//! Pixels on the X11 wire and in storage images.
//!
//! On the wire each scanline is padded to 32 bits. In storage the rows are
//! tight: four bytes per pixel for depths 24 and 32, one byte for depths 8
//! and 1. A depth 1 pixel is one bit on the wire, the lowest bit of a byte
//! first, and 0xFF or 0x00 in storage.

use vstd::arithmetic::div_mod::*;
use vstd::arithmetic::mul::*;
use vstd::prelude::*;

use crate::error::RenderError;
use crate::geometry::Extent;

verus! {

/// The bits of one scanline before padding.
pub open spec fn row_bits(depth: u8, width: int) -> int {
    if depth == 1 {
        width
    } else if depth == 8 {
        8 * width
    } else {
        32 * width
    }
}

/// The bytes of one scanline on the wire: whole 32-bit units.
pub open spec fn row_stride(depth: u8, width: int) -> int {
    (row_bits(depth, width) + 31) / 32 * 4
}

/// The stride of a ZPixmap scanline of the given depth and width.
pub fn x11_src_row_stride(depth: u8, width: u32) -> (r: usize)
    requires
        row_bits(depth, width as int) + 31 <= u32::MAX,
    ensures
        r == row_stride(depth, width as int),
{
    let bits: u32 = if depth == 1 {
        width
    } else if depth == 8 {
        8 * width
    } else {
        32 * width
    };
    let units: u32 = (bits + 31) / 32;
    (units * 4) as usize
}

/// The depths that have a wire format here.
pub open spec fn known_depth(depth: u8) -> bool {
    depth == 1 || depth == 8 || depth == 24 || depth == 32
}

/// The bytes that one pixel takes in storage.
pub open spec fn storage_bpp(depth: u8) -> int {
    if depth == 24 || depth == 32 {
        4
    } else {
        1
    }
}

/// Whether bit `k` of `b` is set.
pub open spec fn bit_set(b: u8, k: int) -> bool {
    (b >> (k as u8)) & 1 == 1
}

/// Byte `off` of row `row` of the storage image that the part of the wire
/// image `src` starting at (`sx`, `sy`) gives.
pub open spec fn unpacked_byte(
    src: Seq<u8>,
    stride: int,
    depth: u8,
    sx: int,
    sy: int,
    row: int,
    off: int,
) -> u8 {
    let base = (sy + row) * stride;
    if depth == 1 {
        if bit_set(src[base + (sx + off) / 8], (sx + off) % 8) {
            0xFF
        } else {
            0x00
        }
    } else if depth == 24 && off % 4 == 3 {
        0xFF
    } else {
        src[base + sx * storage_bpp(depth) + off]
    }
}

/// The storage image that a part of a wire image gives.
pub open spec fn unpacked(
    src: Seq<u8>,
    src_width: int,
    depth: u8,
    sx: int,
    sy: int,
    w: int,
    h: int,
) -> Seq<u8> {
    let rb = w * storage_bpp(depth);
    Seq::new(
        (rb * h) as nat,
        |i: int| unpacked_byte(src, row_stride(depth, src_width), depth, sx, sy, i / rb, i % rb),
    )
}

/// The bytes that an upload of `rows` scanlines needs.
pub open spec fn wire_len(depth: u8, width: int, rows: int) -> int {
    row_stride(depth, width) * rows
}

proof fn lemma_row_index(rb: int, row: int, off: int)
    requires
        0 <= off < rb,
        0 <= row,
    ensures
        (row * rb + off) / rb == row,
        (row * rb + off) % rb == off,
{
    lemma_fundamental_div_mod_converse(row * rb + off, rb, row, off);
}

proof fn lemma_row_bound(rb: int, row: int, h: int)
    requires
        0 <= rb,
        0 <= row < h,
    ensures
        row * rb + rb <= h * rb,
        0 <= row * rb,
{
    assert(row * rb + rb <= h * rb) by (nonlinear_arith)
        requires
            0 <= rb,
            row + 1 <= h,
    ;
    assert(0 <= row * rb) by (nonlinear_arith)
        requires
            0 <= rb,
            0 <= row,
    ;
}

/// One bit of a byte as a truth value.
fn test_bit(b: u8, k: usize) -> (r: bool)
    requires
        k < 8,
    ensures
        r == bit_set(b, k as int),
{
    let s: u8 = k as u8;
    (b >> s) & 1 == 1
}

/// Copies the part of `src` that starts at (`sx`, `sy`) into a tight storage
/// image of `dst_w` by `dst_h` pixels.
///
/// The part has to lie in the scanlines that `src` is long enough to hold.
pub fn unpack_to_staging(
    src: &[u8],
    src_extent: Extent,
    sx: u32,
    sy: u32,
    dst_w: u32,
    dst_h: u32,
    src_depth: u8,
) -> (r: Result<Vec<u8>, RenderError>)
    requires
        row_bits(src_depth, src_extent.width as int) + 31 <= u32::MAX,
        sy + dst_h <= u32::MAX,
        known_depth(src_depth) && wire_len(src_depth, src_extent.width as int, sy + dst_h)
            <= src@.len() ==> row_bits(src_depth, sx + dst_w) <= 8 * row_stride(
            src_depth,
            src_extent.width as int,
        ),
    ensures
        ({
            let need = wire_len(src_depth, src_extent.width as int, sy + dst_h);
            if need > src@.len() {
                r == Err::<Vec<u8>, _>(
                    RenderError::TruncatedSource {
                        expected: (if need <= usize::MAX {
                            need as usize
                        } else {
                            usize::MAX
                        }),
                    },
                )
            } else if !known_depth(src_depth) {
                r == Err::<Vec<u8>, _>(RenderError::UnsupportedDepth(src_depth))
            } else {
                r is Ok && r->Ok_0@ == unpacked(
                    src@,
                    src_extent.width as int,
                    src_depth,
                    sx as int,
                    sy as int,
                    dst_w as int,
                    dst_h as int,
                )
            }
        }),
{
    let stride: usize = x11_src_row_stride(src_depth, src_extent.width);
    let rows: usize = (sy + dst_h) as usize;
    let len: usize = src.len();
    let expected: usize = match stride.checked_mul(rows) {
        Some(n) => n,
        None => {
            proof {
                assert(stride * rows > usize::MAX);
            }
            return Err(RenderError::TruncatedSource { expected: usize::MAX });
        },
    };
    if len < expected {
        return Err(RenderError::TruncatedSource { expected });
    }
    if !(src_depth == 1 || src_depth == 8 || src_depth == 24 || src_depth == 32) {
        return Err(RenderError::UnsupportedDepth(src_depth));
    }
    let bpp: usize = if src_depth == 24 || src_depth == 32 {
        4
    } else {
        1
    };
    let ghost width = src_extent.width as int;
    let mut out: Vec<u8> = Vec::new();
    if dst_h == 0 {
        proof {
            assert(out@ =~= unpacked(
                src@,
                width,
                src_depth,
                sx as int,
                sy as int,
                dst_w as int,
                dst_h as int,
            ));
        }
        return Ok(out);
    }
    let rb: usize = dst_w as usize * bpp;
    let ghost img = |i: int|
        unpacked_byte(
            src@,
            row_stride(src_depth, width),
            src_depth,
            sx as int,
            sy as int,
            i / (rb as int),
            i % (rb as int),
        );
    let mut row: u32 = 0;
    while row < dst_h
        invariant
            row <= dst_h,
            sy + dst_h <= u32::MAX,
            known_depth(src_depth),
            bpp == storage_bpp(src_depth),
            rb == dst_w * bpp,
            width == src_extent.width,
            row_bits(src_depth, sx + dst_w) <= 8 * row_stride(src_depth, width),
            row_bits(src_depth, width) + 31 <= u32::MAX,
            stride == row_stride(src_depth, width),
            stride * (sy + dst_h) <= len,
            len == src@.len(),
            img == (|i: int|
                unpacked_byte(
                    src@,
                    row_stride(src_depth, width),
                    src_depth,
                    sx as int,
                    sy as int,
                    i / (rb as int),
                    i % (rb as int),
                )),
            out@ == Seq::new((rb * row) as nat, img),
        decreases dst_h - row,
    {
        proof {
            lemma_row_bound(stride as int, (sy + row) as int, (sy + dst_h) as int);
            lemma_mul_is_commutative(stride as int, (sy + dst_h) as int);
            lemma_mul_is_commutative(rb as int, row as int);
            assert(0 <= rb * row) by (nonlinear_arith)
                requires
                    0 <= rb,
                    0 <= row,
            ;
        }
        let base: usize = (sy + row) as usize * stride;
        let mut off: usize = 0;
        while off < rb
            invariant
                off <= rb,
                row < dst_h,
                sy + dst_h <= u32::MAX,
                known_depth(src_depth),
                bpp == storage_bpp(src_depth),
                rb == dst_w * bpp,
                width == src_extent.width,
                row_bits(src_depth, sx + dst_w) <= 8 * row_stride(src_depth, width),
                row_bits(src_depth, width) + 31 <= u32::MAX,
                stride == row_stride(src_depth, width),
                base == (sy + row) * stride,
                base + stride <= len,
                len == src@.len(),
                0 <= rb * row,
                img == (|i: int|
                    unpacked_byte(
                        src@,
                        row_stride(src_depth, width),
                        src_depth,
                        sx as int,
                        sy as int,
                        i / (rb as int),
                        i % (rb as int),
                    )),
                out@ == Seq::new((rb * row + off) as nat, img),
            decreases rb - off,
        {
            let b: u8 = if src_depth == 1 {
                let bit: usize = sx as usize + off;
                if test_bit(src[base + bit / 8], bit % 8) {
                    0xFF
                } else {
                    0x00
                }
            } else if src_depth == 24 && off % 4 == 3 {
                0xFF
            } else {
                src[base + sx as usize * bpp + off]
            };
            proof {
                lemma_row_index(rb as int, row as int, off as int);
                lemma_mul_is_commutative(rb as int, row as int);
                assert(b == img(rb * row + off));
            }
            out.push(b);
            off = off + 1;
            proof {
                assert(out@ =~= Seq::new((rb * row + off) as nat, img));
            }
        }
        row = row + 1;
        proof {
            assert(rb * (row - 1) + rb == rb * row) by (nonlinear_arith);
        }
    }
    proof {
        assert(out@ =~= unpacked(
            src@,
            width,
            src_depth,
            sx as int,
            sy as int,
            dst_w as int,
            dst_h as int,
        ));
    }
    Ok(out)
}

/// The byte whose bits are given, the lowest first.
pub open spec fn byte_of_bits(
    b0: bool,
    b1: bool,
    b2: bool,
    b3: bool,
    b4: bool,
    b5: bool,
    b6: bool,
    b7: bool,
) -> u8 {
    (if b0 { 1u8 } else { 0u8 }) | (if b1 { 2u8 } else { 0u8 }) | (if b2 { 4u8 } else { 0u8 }) | (
    if b3 { 8u8 } else { 0u8 }) | (if b4 { 16u8 } else { 0u8 }) | (if b5 { 32u8 } else { 0u8 }) | (
    if b6 { 64u8 } else { 0u8 }) | (if b7 { 128u8 } else { 0u8 })
}

/// Whether pixel `col` of a depth 1 row exists and is set in storage.
pub open spec fn pixel_on(raw: Seq<u8>, w: int, row: int, col: int) -> bool {
    col < w && raw[row * w + col] != 0
}

/// Byte `off` of scanline `row` of the wire image that a storage image gives.
pub open spec fn packed_byte(raw: Seq<u8>, w: int, depth: u8, row: int, off: int) -> u8 {
    if depth == 1 {
        byte_of_bits(
            pixel_on(raw, w, row, 8 * off),
            pixel_on(raw, w, row, 8 * off + 1),
            pixel_on(raw, w, row, 8 * off + 2),
            pixel_on(raw, w, row, 8 * off + 3),
            pixel_on(raw, w, row, 8 * off + 4),
            pixel_on(raw, w, row, 8 * off + 5),
            pixel_on(raw, w, row, 8 * off + 6),
            pixel_on(raw, w, row, 8 * off + 7),
        )
    } else if off < w {
        raw[row * w + off]
    } else {
        0
    }
}

/// The wire image that a storage image gives.
pub open spec fn packed(raw: Seq<u8>, w: int, h: int, depth: u8) -> Seq<u8> {
    if depth == 24 || depth == 32 {
        raw
    } else {
        let rb = row_stride(depth, w);
        Seq::new((rb * h) as nat, |i: int| packed_byte(raw, w, depth, i / rb, i % rb))
    }
}

/// Whether pixel `col` of the row that starts at `base` exists and is set.
fn test_pixel(raw: &[u8], base: usize, w: usize, col: u64, row: Ghost<int>) -> (r: bool)
    requires
        base == row@ * w,
        base + w <= raw@.len(),
    ensures
        r == pixel_on(raw@, w as int, row@, col as int),
{
    let len: usize = raw.len();
    col < w as u64 && raw[base + col as usize] != 0
}

/// Turns a tight storage image into the padded scanlines that clients expect.
pub fn pack_from_storage(raw: &[u8], w: u32, h: u32, depth: u8) -> (r: Result<Vec<u8>, RenderError>)
    requires
        depth == 1 || depth == 8 ==> w * h <= raw@.len() && wire_len(depth, w as int, h as int)
            <= usize::MAX,
    ensures
        if known_depth(depth) {
            r is Ok && r->Ok_0@ == packed(raw@, w as int, h as int, depth)
        } else {
            r == Err::<Vec<u8>, _>(RenderError::UnsupportedDepth(depth))
        },
{
    let mut out: Vec<u8> = Vec::new();
    if depth == 24 || depth == 32 {
        out.extend_from_slice(raw);
        proof {
            assert(out@ =~= raw@);
        }
        return Ok(out);
    }
    if !(depth == 1 || depth == 8) {
        return Err(RenderError::UnsupportedDepth(depth));
    }
    if h == 0 {
        proof {
            assert(row_stride(depth, w as int) * (h as int) == 0) by (nonlinear_arith)
                requires
                    h == 0,
            ;
            assert(out@ =~= packed(raw@, w as int, h as int, depth));
        }
        return Ok(out);
    }
    let bits: u64 = if depth == 1 {
        w as u64
    } else {
        8 * w as u64
    };
    let wide: u64 = (bits + 31) / 32 * 4;
    proof {
        assert(wide == row_stride(depth, w as int));
        assert(wide <= wide * h) by (nonlinear_arith)
            requires
                h >= 1,
                wide >= 0,
        ;
        assert(w <= w * h) by (nonlinear_arith)
            requires
                h >= 1,
                w >= 0,
        ;
    }
    let len: usize = raw.len();
    let rb: usize = wide as usize;
    let wu: usize = w as usize;
    let ghost img = |i: int|
        packed_byte(raw@, w as int, depth, i / (rb as int), i % (rb as int));
    let mut row: u32 = 0;
    while row < h
        invariant
            row <= h,
            depth == 1 || depth == 8,
            rb == row_stride(depth, w as int),
            wu == w,
            len == raw@.len(),
            w * h <= len,
            rb * h <= usize::MAX,
            img == (|i: int|
                packed_byte(raw@, w as int, depth, i / (rb as int), i % (rb as int))),
            out@ == Seq::new((rb * row) as nat, img),
        decreases h - row,
    {
        proof {
            lemma_row_bound(w as int, row as int, h as int);
            lemma_mul_is_commutative(w as int, h as int);
            assert(0 <= rb * row) by (nonlinear_arith)
                requires
                    0 <= rb,
                    0 <= row,
            ;
        }
        let base: usize = row as usize * wu;
        let mut off: usize = 0;
        while off < rb
            invariant
                off <= rb,
                row < h,
                depth == 1 || depth == 8,
                rb == row_stride(depth, w as int),
                wu == w,
                len == raw@.len(),
                base == row * wu,
                base + wu <= len,
                0 <= rb * row,
                img == (|i: int|
                    packed_byte(raw@, w as int, depth, i / (rb as int), i % (rb as int))),
                out@ == Seq::new((rb * row + off) as nat, img),
            decreases rb - off,
        {
            let b: u8 = if depth == 1 {
                let c: u64 = 8 * off as u64;
                let g: Ghost<int> = Ghost(row as int);
                let b0: u8 = if test_pixel(raw, base, wu, c, g) { 1 } else { 0 };
                let b1: u8 = if test_pixel(raw, base, wu, c + 1, g) { 2 } else { 0 };
                let b2: u8 = if test_pixel(raw, base, wu, c + 2, g) { 4 } else { 0 };
                let b3: u8 = if test_pixel(raw, base, wu, c + 3, g) { 8 } else { 0 };
                let b4: u8 = if test_pixel(raw, base, wu, c + 4, g) { 16 } else { 0 };
                let b5: u8 = if test_pixel(raw, base, wu, c + 5, g) { 32 } else { 0 };
                let b6: u8 = if test_pixel(raw, base, wu, c + 6, g) { 64 } else { 0 };
                let b7: u8 = if test_pixel(raw, base, wu, c + 7, g) { 128 } else { 0 };
                b0 | b1 | b2 | b3 | b4 | b5 | b6 | b7
            } else if off < wu {
                raw[base + off]
            } else {
                0
            };
            proof {
                lemma_row_index(rb as int, row as int, off as int);
                lemma_mul_is_commutative(rb as int, row as int);
                assert(b == img(rb * row + off));
            }
            out.push(b);
            off = off + 1;
            proof {
                assert(out@ =~= Seq::new((rb * row + off) as nat, img));
            }
        }
        row = row + 1;
        proof {
            assert(rb * (row - 1) + rb == rb * row) by (nonlinear_arith);
        }
    }
    proof {
        assert(out@ =~= packed(raw@, w as int, h as int, depth));
    }
    Ok(out)
}

proof fn lemma_bits_of_byte(
    b0: bool,
    b1: bool,
    b2: bool,
    b3: bool,
    b4: bool,
    b5: bool,
    b6: bool,
    b7: bool,
)
    ensures
        ({
            let b = byte_of_bits(b0, b1, b2, b3, b4, b5, b6, b7);
            &&& bit_set(b, 0) == b0
            &&& bit_set(b, 1) == b1
            &&& bit_set(b, 2) == b2
            &&& bit_set(b, 3) == b3
            &&& bit_set(b, 4) == b4
            &&& bit_set(b, 5) == b5
            &&& bit_set(b, 6) == b6
            &&& bit_set(b, 7) == b7
        }),
{
    let c0: u8 = if b0 { 1 } else { 0 };
    let c1: u8 = if b1 { 2 } else { 0 };
    let c2: u8 = if b2 { 4 } else { 0 };
    let c3: u8 = if b3 { 8 } else { 0 };
    let c4: u8 = if b4 { 16 } else { 0 };
    let c5: u8 = if b5 { 32 } else { 0 };
    let c6: u8 = if b6 { 64 } else { 0 };
    let c7: u8 = if b7 { 128 } else { 0 };
    let b = c0 | c1 | c2 | c3 | c4 | c5 | c6 | c7;
    assert(((b >> 0u8) & 1 == 1 <==> c0 == 1) && ((b >> 1u8) & 1 == 1 <==> c1 == 2) && ((b >> 2u8)
        & 1 == 1 <==> c2 == 4) && ((b >> 3u8) & 1 == 1 <==> c3 == 8) && ((b >> 4u8) & 1 == 1 <==> c4
        == 16) && ((b >> 5u8) & 1 == 1 <==> c5 == 32) && ((b >> 6u8) & 1 == 1 <==> c6 == 64) && ((b
        >> 7u8) & 1 == 1 <==> c7 == 128)) by (bit_vector)
        requires
            b == c0 | c1 | c2 | c3 | c4 | c5 | c6 | c7,
            c0 == 0 || c0 == 1,
            c1 == 0 || c1 == 2,
            c2 == 0 || c2 == 4,
            c3 == 0 || c3 == 8,
            c4 == 0 || c4 == 16,
            c5 == 0 || c5 == 32,
            c6 == 0 || c6 == 64,
            c7 == 0 || c7 == 128,
    ;
}

proof fn lemma_byte_is_its_bits(b: u8)
    ensures
        b == byte_of_bits(
            bit_set(b, 0),
            bit_set(b, 1),
            bit_set(b, 2),
            bit_set(b, 3),
            bit_set(b, 4),
            bit_set(b, 5),
            bit_set(b, 6),
            bit_set(b, 7),
        ),
{
    assert(b == (if (b >> 0u8) & 1 == 1 { 1u8 } else { 0u8 }) | (if (b >> 1u8) & 1 == 1 {
        2u8
    } else {
        0u8
    }) | (if (b >> 2u8) & 1 == 1 { 4u8 } else { 0u8 }) | (if (b >> 3u8) & 1 == 1 {
        8u8
    } else {
        0u8
    }) | (if (b >> 4u8) & 1 == 1 { 16u8 } else { 0u8 }) | (if (b >> 5u8) & 1 == 1 {
        32u8
    } else {
        0u8
    }) | (if (b >> 6u8) & 1 == 1 { 64u8 } else { 0u8 }) | (if (b >> 7u8) & 1 == 1 {
        128u8
    } else {
        0u8
    })) by (bit_vector);
}

/// A storage image of the given size as an upload leaves it: opaque alpha at
/// depth 24, only 0x00 and 0xFF at depth 1.
pub open spec fn canonical_storage(raw: Seq<u8>, w: int, h: int, depth: u8) -> bool {
    &&& raw.len() == w * storage_bpp(depth) * h
    &&& depth == 24 ==> forall|i: int|
        0 <= i < raw.len() && i % 4 == 3 ==> #[trigger] raw[i] == 0xFF
    &&& depth == 1 ==> forall|i: int|
        0 <= i < raw.len() ==> #[trigger] raw[i] == 0xFF || raw[i] == 0
}

/// A wire image of the given size whose padding is zero and whose unused
/// alpha bytes are 0xFF.
pub open spec fn canonical_wire(src: Seq<u8>, w: int, h: int, depth: u8) -> bool {
    &&& src.len() == wire_len(depth, w, h)
    &&& depth == 24 ==> forall|i: int|
        0 <= i < src.len() && i % 4 == 3 ==> #[trigger] src[i] == 0xFF
    &&& depth == 8 ==> forall|row: int, off: int|
        #![trigger src[row * row_stride(depth, w) + off]]
        0 <= row < h && w <= off < row_stride(depth, w) ==> src[row * row_stride(depth, w) + off]
            == 0
    &&& depth == 1 ==> forall|row: int, off: int, k: int|
        #![trigger bit_set(src[row * row_stride(depth, w) + off], k)]
        0 <= row < h && 0 <= off < row_stride(depth, w) && 0 <= k < 8 && w <= 8 * off + k
            ==> !bit_set(src[row * row_stride(depth, w) + off], k)
}

proof fn lemma_stride(depth: u8, w: int)
    requires
        known_depth(depth),
        0 <= w,
    ensures
        depth == 24 || depth == 32 ==> row_stride(depth, w) == 4 * w,
        depth == 8 ==> w <= row_stride(depth, w),
        depth == 1 ==> w <= 8 * row_stride(depth, w),
        0 <= row_stride(depth, w),
{
    let padded = row_bits(depth, w) + 31;
    let units = padded / 32;
    lemma_fundamental_div_mod(padded, 32);
    assert(32 * units <= padded < 32 * units + 32);
}

proof fn lemma_index_parts(i: int, rb: int, h: int)
    requires
        0 <= i < rb * h,
        0 <= rb,
        0 <= h,
    ensures
        0 < rb,
        0 <= i / rb < h,
        0 <= i % rb < rb,
        i == i / rb * rb + i % rb,
{
    assert(0 < rb) by (nonlinear_arith)
        requires
            0 < rb * h,
            0 <= rb,
            0 <= h,
    ;
    lemma_fundamental_div_mod(i, rb);
    lemma_mul_is_commutative(rb, i / rb);
    lemma_div_pos_is_pos(i, rb);
    assert(i / rb < h) by (nonlinear_arith)
        requires
            i == i / rb * rb + i % rb,
            0 <= i % rb,
            i < rb * h,
            0 < rb,
    ;
}

proof fn lemma_quad_offset(row: int, w: int, off: int)
    requires
        0 <= row,
        0 <= w,
        0 <= off,
    ensures
        (row * (w * 4) + off) % 4 == off % 4,
{
    assert(row * (w * 4) == 4 * (row * w)) by (nonlinear_arith);
    lemma_mod_multiples_vanish(row * w, off, 4);
}

/// Packing a storage image for the wire and unpacking it again returns it.
pub proof fn unpack_of_pack(raw: Seq<u8>, w: int, h: int, depth: u8)
    requires
        known_depth(depth),
        0 <= w,
        0 <= h,
        canonical_storage(raw, w, h, depth),
    ensures
        unpacked(packed(raw, w, h, depth), w, depth, 0, 0, w, h) == raw,
{
    let src = packed(raw, w, h, depth);
    let out = unpacked(src, w, depth, 0, 0, w, h);
    let rb = w * storage_bpp(depth);
    let rs = row_stride(depth, w);
    lemma_stride(depth, w);
    assert forall|i: int| 0 <= i < out.len() implies out[i] == raw[i] by {
        lemma_index_parts(i, rb, h);
        let row = i / rb;
        let off = i % rb;
        if depth == 24 || depth == 32 {
            lemma_quad_offset(row, w, off);
        } else if depth == 8 {
            lemma_row_bound(rs, row, h);
            lemma_mul_is_commutative(rs, h);
            lemma_row_index(rs, row, off);
        } else {
            lemma_row_bound(rs, row, h);
            lemma_mul_is_commutative(rs, h);
            lemma_row_index(rs, row, off / 8);
            let o = off / 8;
            lemma_bits_of_byte(
                pixel_on(raw, w, row, 8 * o),
                pixel_on(raw, w, row, 8 * o + 1),
                pixel_on(raw, w, row, 8 * o + 2),
                pixel_on(raw, w, row, 8 * o + 3),
                pixel_on(raw, w, row, 8 * o + 4),
                pixel_on(raw, w, row, 8 * o + 5),
                pixel_on(raw, w, row, 8 * o + 6),
                pixel_on(raw, w, row, 8 * o + 7),
            );
            assert(8 * o + off % 8 == off);
            assert(bit_set(src[row * rs + o], off % 8) == pixel_on(raw, w, row, off));
        }
    }
    assert(out =~= raw);
}

/// Unpacking and then packing a wire image with zero padding returns it.
pub proof fn pack_of_unpack(src: Seq<u8>, w: int, h: int, depth: u8)
    requires
        known_depth(depth),
        0 <= w,
        0 <= h,
        canonical_wire(src, w, h, depth),
    ensures
        packed(unpacked(src, w, depth, 0, 0, w, h), w, h, depth) == src,
{
    let raw = unpacked(src, w, depth, 0, 0, w, h);
    let out = packed(raw, w, h, depth);
    let rb = w * storage_bpp(depth);
    let rs = row_stride(depth, w);
    lemma_stride(depth, w);
    lemma_mul_is_commutative(rs, h);
    assert(0 <= rb * h && 0 <= rs * h) by (nonlinear_arith)
        requires
            0 <= rb,
            0 <= rs,
            0 <= h,
    ;
    assert forall|i: int| 0 <= i < out.len() implies out[i] == src[i] by {
        lemma_index_parts(i, rs, h);
        let row = i / rs;
        let off = i % rs;
        if depth == 24 || depth == 32 {
            lemma_quad_offset(row, w, off);
        } else if depth == 8 {
            if off < w {
                lemma_row_bound(w, row, h);
                lemma_mul_is_commutative(w, h);
                lemma_row_index(w, row, off);
            } else {
                assert(src[row * row_stride(depth, w) + off] == 0);
            }
        } else {
            let b = src[row * rs + off];
            assert forall|k: int| 0 <= k < 8 implies #[trigger] pixel_on(raw, w, row, 8 * off + k)
                == bit_set(b, k) by {
                let col = 8 * off + k;
                if col < w {
                    lemma_row_bound(w, row, h);
                    lemma_mul_is_commutative(w, h);
                    lemma_row_index(w, row, col);
                    assert(col / 8 == off && col % 8 == k);
                } else {
                    assert(!bit_set(src[row * row_stride(depth, w) + off], k));
                }
            }
            assert(pixel_on(raw, w, row, 8 * off + 0) == bit_set(b, 0));
            assert(pixel_on(raw, w, row, 8 * off) == bit_set(b, 0));
            lemma_byte_is_its_bits(b);
        }
    }
    assert(out =~= src);
}

/// Uploading a part of an image gives the pixels that the whole upload has at
/// that part.
pub proof fn unpack_of_part(
    src: Seq<u8>,
    depth: u8,
    width: int,
    height: int,
    sx: int,
    sy: int,
    w: int,
    h: int,
    row: int,
    off: int,
)
    requires
        known_depth(depth),
        0 <= sx,
        0 <= sy,
        sx + w <= width,
        sy + h <= height,
        0 <= row < h,
        0 <= off < w * storage_bpp(depth),
    ensures
        unpacked(src, width, depth, sx, sy, w, h)[row * (w * storage_bpp(depth)) + off] == unpacked(
            src,
            width,
            depth,
            0,
            0,
            width,
            height,
        )[(sy + row) * (width * storage_bpp(depth)) + (sx * storage_bpp(depth) + off)],
{
    let bpp = storage_bpp(depth);
    lemma_row_bound(w * bpp, row, h);
    lemma_mul_is_commutative(w * bpp, h);
    lemma_row_index(w * bpp, row, off);
    assert(sx * bpp + off < width * bpp) by (nonlinear_arith)
        requires
            off < w * bpp,
            sx + w <= width,
            bpp > 0,
    ;
    lemma_row_bound(width * bpp, sy + row, height);
    lemma_mul_is_commutative(width * bpp, height);
    lemma_row_index(width * bpp, sy + row, sx * bpp + off);
}

} // verus!
