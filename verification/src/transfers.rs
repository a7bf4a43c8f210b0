//! Uploads store the pixels that a client sent where it sent them, and
//! readbacks give a client the pixels that it asked for.

use vstd::arithmetic::div_mod::*;
use vstd::arithmetic::mul::*;
use vstd::prelude::*;

use crate::command::Command;
use crate::device::{
    byte_place, bytes_per_pixel, device_run, device_run_concat, device_run_one, device_run_two,
    device_step, knows, pixel_after, texel_byte, texel_of, Device, Shading,
};
use crate::geometry::{
    clamp_keeps_shared_pixels, clamped, put_rect, put_rect_keeps_shared_pixels, Extent, Offset,
    Rect,
};
use crate::image::{get_commands, put_commands, rect_bytes, storage_format, ImageBytes};
use crate::store::Drawable;
use crate::wire::{
    bit_set, byte_of_bits, known_depth, packed, pixel_on, row_bits, row_stride, storage_bpp,
    unpacked,
};

verus! {

/// Byte `k` of the storage pixel that a pixel of a wire image stands for. A bit
/// becomes a whole byte, and depth 24 is opaque.
pub open spec fn wire_byte(
    src: Seq<u8>,
    stride: int,
    depth: u8,
    col: int,
    row: int,
    k: int,
) -> u8 {
    if depth == 1 {
        if bit_set(src[row * stride + col / 8], col % 8) {
            255
        } else {
            0
        }
    } else if depth == 8 {
        src[row * stride + col]
    } else if depth == 24 && k == 3 {
        255
    } else {
        src[row * stride + 4 * col + k]
    }
}

/// A scanline on the wire takes the least number of 32-bit units that hold its
/// pixels.
pub proof fn stride_is_least(depth: u8, width: int)
    requires
        known_depth(depth),
        0 <= width,
    ensures
        row_stride(depth, width) % 4 == 0,
        8 * row_stride(depth, width) >= width * (if depth == 24 {
            32
        } else {
            depth as int
        }),
        8 * row_stride(depth, width) < width * (if depth == 24 {
            32
        } else {
            depth as int
        }) + 32,
{
    let bits = row_bits(depth, width);
    lemma_fundamental_div_mod(bits + 31, 32);
    if depth == 1 {
        assert(width * (depth as int) == width);
    } else if depth == 8 {
        assert(width * (depth as int) == 8 * width);
    } else if depth == 32 {
        assert(width * (depth as int) == 32 * width);
    }
}

proof fn place_parts(w: int, bpp: int, col: int, row: int, k: int)
    requires
        bpp == 1 || bpp == 4,
        0 <= col < w,
        0 <= row,
        0 <= k < bpp,
    ensures
        ({
            let i = byte_place(w, bpp, col, row) + k;
            &&& i / (w * bpp) == row
            &&& i % (w * bpp) == col * bpp + k
            &&& i % (w * bpp) / bpp == col
            &&& i % (w * bpp) % bpp == k
            &&& 0 <= i
        }),
{
    let rb = w * bpp;
    let off = col * bpp + k;
    if bpp == 4 {
        assert(0 <= off < rb);
    } else {
        assert(rb == w && off == col);
    }
    lemma_fundamental_div_mod_converse(row * rb + off, rb, row, off);
    assert(0 <= row * rb) by (nonlinear_arith)
        requires
            0 <= row,
            0 <= rb,
    ;
}

proof fn place_bound(w: int, h: int, bpp: int, col: int, row: int, k: int)
    requires
        bpp == 1 || bpp == 4,
        0 <= col < w,
        0 <= row < h,
        0 <= k < bpp,
    ensures
        0 <= byte_place(w, bpp, col, row) + k < w * bpp * h,
{
    place_parts(w, bpp, col, row, k);
    let rb = w * bpp;
    let off = col * bpp + k;
    if bpp == 4 {
        assert(rb == w * 4 && off == col * 4 + k);
        assert(off < rb);
    } else {
        assert(rb == w * 1 && off == col * 1 + k);
    }
    assert(row * rb + off < rb * h) by (nonlinear_arith)
        requires
            row + 1 <= h,
            0 <= off < rb,
    ;
}

/// Whether commands leave the tight bytes of a rectangle of a drawable at the
/// start of a buffer, as far as byte `k` of the pixel at a column and a row
/// goes, and change no image.
pub open spec fn reads_at(
    sh: Shading,
    dev: Device,
    cmds: Seq<Command>,
    d: Drawable,
    buffer: u64,
    rect: Rect,
    col: int,
    row: int,
    k: int,
) -> bool {
    let end = device_run(sh, dev, cmds);
    let n = bytes_per_pixel(d.format);
    knows(dev, d) ==> {
        &&& end.images == dev.images
        &&& end.buffers[buffer].len() == rect.extent.width * n * rect.extent.height
        &&& 0 <= col < rect.extent.width && 0 <= row < rect.extent.height && 0 <= k < n
            ==> end.buffers[buffer][byte_place(rect.extent.width as int, n, col, row) + k]
            == texel_byte(
            d.format,
            (dev.images[d.image])(rect.offset.x + col, rect.offset.y + row),
            k,
        )
    }
}

/// Whether commands leave the tight bytes of a rectangle of a drawable at the
/// start of a buffer, and change no image.
pub open spec fn reads(cmds: Seq<Command>, d: Drawable, buffer: u64, rect: Rect) -> bool {
    forall|sh: Shading, dev: Device, col: int, row: int, k: int| #[trigger]
        reads_at(sh, dev, cmds, d, buffer, rect, col, row, k)
}

/// Whether a rectangle is the part of another that lies in an image.
pub open spec fn shared_part(part: Rect, rect: Rect, extent: Extent) -> bool {
    forall|x: int, y: int|
        #![trigger part.covers(x, y)]
        #![trigger rect.covers(x, y)]
        part.covers(x, y) == (rect.covers(x, y) && extent.covers(x, y))
}

/// A readback reads the part of the rectangle that lies in the image.
pub proof fn clipping_reads_shared_part(rect: Rect, extent: Extent)
    ensures
        shared_part(clamped(rect, extent), rect, extent),
{
    assert forall|x: int, y: int|
        #![trigger clamped(rect, extent).covers(x, y)]
        #![trigger rect.covers(x, y)]
        clamped(rect, extent).covers(x, y) == (rect.covers(x, y) && extent.covers(x, y)) by {
        clamp_keeps_shared_pixels(rect, extent, x, y);
    }
}

proof fn get_runs(sh: Shading, dev: Device, d: Drawable, buffer: u64, rect: Rect)
    ensures
        device_run(sh, dev, get_commands(d, buffer, rect)) == device_step(
            sh,
            dev,
            get_commands(d, buffer, rect)[1],
        ),
{
    let cmds = get_commands(d, buffer, rect);
    assert(cmds =~= cmds.take(2) + seq![cmds[2]]);
    device_run_two(sh, dev, cmds.take(2));
    device_run_concat(sh, dev, cmds.take(2), seq![cmds[2]]);
    device_run_one(sh, device_run(sh, dev, cmds.take(2)), cmds[2]);
}

/// A readback leaves in its buffer exactly the pixels of the rectangle that was
/// asked for, row by row.
pub proof fn readback_reads_its_rectangle(d: Drawable, buffer: u64, rect: Rect)
    ensures
        reads(get_commands(d, buffer, rect), d, buffer, rect),
{
    let cmds = get_commands(d, buffer, rect);
    let n = bytes_per_pixel(d.format);
    let w = rect.extent.width as int;
    let h = rect.extent.height as int;
    assert(0 <= w * n * h) by (nonlinear_arith)
        requires
            0 <= w,
            0 <= h,
            0 <= n,
    ;
    assert forall|sh: Shading, dev: Device, col: int, row: int, k: int| #[trigger]
        reads_at(sh, dev, cmds, d, buffer, rect, col, row, k) by {
        get_runs(sh, dev, d, buffer, rect);
        if 0 <= col < w && 0 <= row < h && 0 <= k < n {
            place_parts(w, n, col, row, k);
            place_bound(w, h, n, col, row, k);
        }
    }
}

/// The bytes of a drawable's image, by position.
pub open spec fn image_bytes(dev: Device, d: Drawable) -> ImageBytes {
    |x: int, y: int, k: int| texel_byte(d.format, (dev.images[d.image])(x, y), k)
}

/// After a readback the buffer holds the tight bytes of the rectangle.
pub proof fn readback_buffer_is_rectangle(
    sh: Shading,
    dev: Device,
    d: Drawable,
    buffer: u64,
    rect: Rect,
)
    requires
        knows(dev, d),
    ensures
        device_run(sh, dev, get_commands(d, buffer, rect)).buffers[buffer] == rect_bytes(
            image_bytes(dev, d),
            rect,
            bytes_per_pixel(d.format),
        ),
{
    get_runs(sh, dev, d, buffer, rect);
    assert(device_run(sh, dev, get_commands(d, buffer, rect)).buffers[buffer] =~= rect_bytes(
        image_bytes(dev, d),
        rect,
        bytes_per_pixel(d.format),
    ));
}

/// Whether a wire image shows the pixels of a tight storage image.
pub open spec fn wire_shows(out: Seq<u8>, raw: Seq<u8>, w: int, h: int, depth: u8) -> bool {
    let stride = row_stride(depth, w);
    let n = storage_bpp(depth);
    &&& out.len() == stride * h
    &&& forall|col: int, row: int, k: int|
        #![trigger raw[byte_place(w, n, col, row) + k]]
        0 <= col < w && 0 <= row < h && 0 <= k < n ==> {
            let byte = raw[byte_place(w, n, col, row) + k];
            if depth == 1 {
                bit_set(out[row * stride + col / 8], col % 8) == (byte != 0)
            } else if depth == 8 {
                out[row * stride + col] == byte
            } else {
                out[row * stride + 4 * col + k] == byte
            }
        }
}

proof fn byte_of_bits_bit(
    b0: bool,
    b1: bool,
    b2: bool,
    b3: bool,
    b4: bool,
    b5: bool,
    b6: bool,
    b7: bool,
    k: int,
)
    requires
        0 <= k < 8,
    ensures
        bit_set(byte_of_bits(b0, b1, b2, b3, b4, b5, b6, b7), k) == if k == 0 {
            b0
        } else if k == 1 {
            b1
        } else if k == 2 {
            b2
        } else if k == 3 {
            b3
        } else if k == 4 {
            b4
        } else if k == 5 {
            b5
        } else if k == 6 {
            b6
        } else {
            b7
        },
{
    let n = k as u8;
    assert(((((if b0 { 1u8 } else { 0u8 }) | (if b1 { 2u8 } else { 0u8 }) | (if b2 { 4u8 } else {
        0u8
    }) | (if b3 { 8u8 } else { 0u8 }) | (if b4 { 16u8 } else { 0u8 }) | (if b5 { 32u8 } else {
        0u8
    }) | (if b6 { 64u8 } else { 0u8 }) | (if b7 { 128u8 } else { 0u8 })) >> n) & 1 == 1) == (if n
        == 0 { b0 } else if n == 1 { b1 } else if n == 2 { b2 } else if n == 3 { b3 } else if n
        == 4 { b4 } else if n == 5 { b5 } else if n == 6 { b6 } else { b7 })) by (bit_vector)
        requires
            n < 8,
    ;
}

proof fn stride_index(stride: int, row: int, off: int, h: int)
    requires
        0 <= off < stride,
        0 <= row < h,
    ensures
        (row * stride + off) / stride == row,
        (row * stride + off) % stride == off,
        0 <= row * stride + off < stride * h,
{
    lemma_fundamental_div_mod_converse(row * stride + off, stride, row, off);
    assert(0 <= row * stride + off < stride * h) by (nonlinear_arith)
        requires
            0 <= row,
            row + 1 <= h,
            0 <= off < stride,
    ;
}

/// A packed wire image shows every pixel of the storage image at its place.
pub proof fn packing_shows_pixels(raw: Seq<u8>, w: int, h: int, depth: u8)
    requires
        known_depth(depth),
        0 <= w,
        0 <= h,
        raw.len() == w * storage_bpp(depth) * h,
    ensures
        wire_shows(packed(raw, w, h, depth), raw, w, h, depth),
{
    let stride = row_stride(depth, w);
    let n = storage_bpp(depth);
    let out = packed(raw, w, h, depth);
    stride_is_least(depth, w);
    assert(0 <= stride * h) by (nonlinear_arith)
        requires
            0 <= stride,
            0 <= h,
    ;
    if n == 4 {
        assert(stride == 4 * w);
        assert(w * 4 * h == stride * h) by (nonlinear_arith)
            requires
                stride == 4 * w,
        ;
    }
    assert forall|col: int, row: int, k: int|
        #![trigger raw[byte_place(w, n, col, row) + k]]
        0 <= col < w && 0 <= row < h && 0 <= k < n implies {
        let byte = raw[byte_place(w, n, col, row) + k];
        if depth == 1 {
            bit_set(out[row * stride + col / 8], col % 8) == (byte != 0)
        } else if depth == 8 {
            out[row * stride + col] == byte
        } else {
            out[row * stride + 4 * col + k] == byte
        }
    } by {
        if depth == 1 {
            let off = col / 8;
            stride_index(stride, row, off, h);
            let p = |j: int| pixel_on(raw, w, row, 8 * off + j);
            byte_of_bits_bit(p(0), p(1), p(2), p(3), p(4), p(5), p(6), p(7), col % 8);
            assert(8 * off + col % 8 == col);
            assert(byte_place(w, n, col, row) + k == row * w + col);
        } else if depth == 8 {
            stride_index(stride, row, col, h);
            assert(byte_place(w, n, col, row) + k == row * w + col);
        } else {
            assert(w * 4 == stride);
        }
    }
}

/// Whether tight bytes are the pixels of a client's image that land in a
/// rectangle of an image of the given size, and the rectangle holds every pixel
/// of the image that the client's image reaches.
pub open spec fn stages(
    rect: Rect,
    bytes: Seq<u8>,
    extent: Extent,
    pos: Offset,
    src_extent: Extent,
    src: Seq<u8>,
    depth: u8,
) -> bool {
    let n = storage_bpp(depth);
    forall|x: int, y: int, k: int|
        #![trigger wire_byte(
            src,
            row_stride(depth, src_extent.width as int),
            depth,
            x - pos.x,
            y - pos.y,
            k,
        )]
        extent.covers(x, y) ==> {
            &&& rect.covers(x, y) == (0 <= x - pos.x < src_extent.width && 0 <= y - pos.y
                < src_extent.height)
            &&& rect.covers(x, y) && 0 <= k < n ==> bytes[byte_place(
                rect.extent.width as int,
                n,
                x - rect.offset.x,
                y - rect.offset.y,
            ) + k] == wire_byte(
                src,
                row_stride(depth, src_extent.width as int),
                depth,
                x - pos.x,
                y - pos.y,
                k,
            )
        }
}

/// What an upload stages is what the client's image shows at each pixel that it
/// reaches.
pub proof fn upload_stages_client_pixels(
    extent: Extent,
    pos: Offset,
    src_extent: Extent,
    src: Seq<u8>,
    depth: u8,
)
    requires
        known_depth(depth),
    ensures
        match put_rect(pos, src_extent, extent) {
            None => forall|x: int, y: int|
                #[trigger] extent.covers(x, y) ==> !(0 <= x - pos.x < src_extent.width && 0 <= y
                    - pos.y < src_extent.height),
            Some((rect, (sx, sy))) => stages(
                rect,
                unpacked(
                    src,
                    src_extent.width as int,
                    depth,
                    sx as int,
                    sy as int,
                    rect.extent.width as int,
                    rect.extent.height as int,
                ),
                extent,
                pos,
                src_extent,
                src,
                depth,
            ),
        },
{
    let stride = row_stride(depth, src_extent.width as int);
    let n = storage_bpp(depth);
    match put_rect(pos, src_extent, extent) {
        None => {
            assert forall|x: int, y: int| #[trigger] extent.covers(x, y) implies !(0 <= x - pos.x
                < src_extent.width && 0 <= y - pos.y < src_extent.height) by {
                put_rect_keeps_shared_pixels(pos, src_extent, extent, x, y);
            }
        },
        Some((rect, (sx, sy))) => {
            let w = rect.extent.width as int;
            let h = rect.extent.height as int;
            let bytes = unpacked(
                src,
                src_extent.width as int,
                depth,
                sx as int,
                sy as int,
                w,
                h,
            );
            assert forall|x: int, y: int, k: int|
                #![trigger wire_byte(src, stride, depth, x - pos.x, y - pos.y, k)]
                extent.covers(x, y) implies {
                &&& rect.covers(x, y) == (0 <= x - pos.x < src_extent.width && 0 <= y - pos.y
                    < src_extent.height)
                &&& rect.covers(x, y) && 0 <= k < n ==> bytes[byte_place(
                    w,
                    n,
                    x - rect.offset.x,
                    y - rect.offset.y,
                ) + k] == wire_byte(src, stride, depth, x - pos.x, y - pos.y, k)
            } by {
                put_rect_keeps_shared_pixels(pos, src_extent, extent, x, y);
                if rect.covers(x, y) && 0 <= k < n {
                    let col = x - rect.offset.x;
                    let row = y - rect.offset.y;
                    place_parts(w, n, col, row, k);
                    place_bound(w, h, n, col, row, k);
                    if n == 4 {
                        assert((col * 4 + k) % 4 == k);
                        assert(sx * 4 + (col * 4 + k) == 4 * (sx + col) + k);
                    }
                }
            }
        },
    }
}

/// Whether commands store the tight bytes at the start of a buffer in a
/// rectangle of a drawable, and change no other pixel of any image.
pub open spec fn uploads(cmds: Seq<Command>, d: Drawable, buffer: u64, rect: Rect) -> bool {
    forall|sh: Shading, dev: Device, image: u64, x: int, y: int|
        knows(dev, d) ==> #[trigger] pixel_after(sh, dev, cmds, image, x, y) == if image == d.image
            && rect.covers(x, y) {
            texel_of(
                d.format,
                dev.buffers[buffer],
                byte_place(
                    rect.extent.width as int,
                    bytes_per_pixel(d.format),
                    x - rect.offset.x,
                    y - rect.offset.y,
                ),
            )
        } else {
            (dev.images[image])(x, y)
        }
}

/// An upload stores each staged pixel at its place in the rectangle.
pub proof fn upload_fills_its_rectangle(d: Drawable, buffer: u64, rect: Rect)
    ensures
        uploads(put_commands(d, buffer, rect), d, buffer, rect),
{
    let cmds = put_commands(d, buffer, rect);
    assert forall|sh: Shading, dev: Device, image: u64, x: int, y: int|
        knows(dev, d) implies #[trigger] pixel_after(sh, dev, cmds, image, x, y) == if image
        == d.image && rect.covers(x, y) {
        texel_of(
            d.format,
            dev.buffers[buffer],
            byte_place(
                rect.extent.width as int,
                bytes_per_pixel(d.format),
                x - rect.offset.x,
                y - rect.offset.y,
            ),
        )
    } else {
        (dev.images[image])(x, y)
    } by {
        assert(cmds =~= cmds.take(2) + seq![cmds[2]]);
        device_run_two(sh, dev, cmds.take(2));
        device_run_concat(sh, dev, cmds.take(2), seq![cmds[2]]);
        device_run_one(sh, device_run(sh, dev, cmds.take(2)), cmds[2]);
    }
}

/// A client's image that is uploaded from a buffer that holds what was staged:
/// each byte of each pixel that it reaches is that of the client's pixel at the
/// same distance from the corner, and no other pixel changes.
pub proof fn upload_stores_client_pixels(
    sh: Shading,
    dev: Device,
    d: Drawable,
    buffer: u64,
    rect: Rect,
    bytes: Seq<u8>,
    pos: Offset,
    src_extent: Extent,
    src: Seq<u8>,
    depth: u8,
    x: int,
    y: int,
    k: int,
)
    requires
        known_depth(depth),
        knows(dev, d),
        d.format == storage_format(depth),
        stages(rect, bytes, d.extent, pos, src_extent, src, depth),
        dev.buffers[buffer] == bytes,
        d.extent.covers(x, y),
        0 <= k < storage_bpp(depth),
    ensures
        ({
            let old = (dev.images[d.image])(x, y);
            let new = pixel_after(sh, dev, put_commands(d, buffer, rect), d.image, x, y);
            if 0 <= x - pos.x < src_extent.width && 0 <= y - pos.y < src_extent.height {
                texel_byte(d.format, new, k) == wire_byte(
                    src,
                    row_stride(depth, src_extent.width as int),
                    depth,
                    x - pos.x,
                    y - pos.y,
                    k,
                )
            } else {
                new == old
            }
        }),
{
    upload_fills_its_rectangle(d, buffer, rect);
    let stride = row_stride(depth, src_extent.width as int);
    assert(rect.covers(x, y) == (0 <= x - pos.x < src_extent.width && 0 <= y - pos.y
        < src_extent.height)) by {
        let b = wire_byte(src, stride, depth, x - pos.x, y - pos.y, k);
    }
    let new = pixel_after(sh, dev, put_commands(d, buffer, rect), d.image, x, y);
    if rect.covers(x, y) {
        let b = wire_byte(src, stride, depth, x - pos.x, y - pos.y, k);
        let at = byte_place(
            rect.extent.width as int,
            storage_bpp(depth),
            x - rect.offset.x,
            y - rect.offset.y,
        );
        assert(bytes[at + k] == b);
        assert(texel_byte(d.format, texel_of(d.format, bytes, at), k) == bytes[at + k]);
    }
}

/// A client that reads back a rectangle gets, at each of its pixels, what the
/// image shows at the same distance from the rectangle's corner.
pub proof fn readback_gives_client_pixels(
    sh: Shading,
    dev: Device,
    d: Drawable,
    buffer: u64,
    rect: Rect,
    depth: u8,
    col: int,
    row: int,
    k: int,
)
    requires
        known_depth(depth),
        knows(dev, d),
        d.format == storage_format(depth),
        0 <= col < rect.extent.width,
        0 <= row < rect.extent.height,
        0 <= k < storage_bpp(depth),
    ensures
        ({
            let raw = device_run(sh, dev, get_commands(d, buffer, rect)).buffers[buffer];
            let w = rect.extent.width as int;
            let out = packed(raw, w, rect.extent.height as int, depth);
            let stride = row_stride(depth, w);
            let byte = texel_byte(
                d.format,
                (dev.images[d.image])(rect.offset.x + col, rect.offset.y + row),
                k,
            );
            if depth == 1 {
                bit_set(out[row * stride + col / 8], col % 8) == (byte != 0)
            } else if depth == 8 {
                out[row * stride + col] == byte
            } else {
                out[row * stride + 4 * col + k] == byte
            }
        }),
{
    let raw = device_run(sh, dev, get_commands(d, buffer, rect)).buffers[buffer];
    let w = rect.extent.width as int;
    let h = rect.extent.height as int;
    readback_reads_its_rectangle(d, buffer, rect);
    assert(reads_at(sh, dev, get_commands(d, buffer, rect), d, buffer, rect, col, row, k));
    let byte = texel_byte(
        d.format,
        (dev.images[d.image])(rect.offset.x + col, rect.offset.y + row),
        k,
    );
    assert(raw.len() == w * storage_bpp(depth) * h);
    assert(raw[byte_place(w, storage_bpp(depth), col, row) + k] == byte);
    packing_shows_pixels(raw, w, h, depth);
}

} // verus!
