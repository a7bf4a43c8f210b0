//! Integer rectangles in pixel coordinates, and how they are clipped.

use vstd::prelude::*;

verus! {

/// A signed pixel position.
#[derive(Clone, Copy, Debug, PartialEq, Eq, Structural)]
pub struct Offset {
    pub x: i32,
    pub y: i32,
}

/// A size in pixels.
#[derive(Clone, Copy, Debug, PartialEq, Eq, Structural)]
pub struct Extent {
    pub width: u32,
    pub height: u32,
}

/// A rectangle in pixel coordinates.
#[derive(Clone, Copy, Debug, PartialEq, Eq, Structural)]
pub struct Rect {
    pub offset: Offset,
    pub extent: Extent,
}

/// A rectangle as X11 clients send it.
#[derive(Clone, Copy, Debug, PartialEq, Eq, Structural)]
pub struct Rectangle16 {
    pub x: i16,
    pub y: i16,
    pub width: u16,
    pub height: u16,
}

/// The part of a length that signed coordinates can address.
pub open spec fn reach(len: u32) -> int {
    if len <= i32::MAX {
        len as int
    } else {
        i32::MAX as int
    }
}

/// `v` moved into `0..=hi`.
pub open spec fn clamp_to(v: int, hi: int) -> int {
    if v < 0 {
        0
    } else if v > hi {
        hi
    } else {
        v
    }
}

pub open spec fn min_int(a: int, b: int) -> int {
    if a <= b {
        a
    } else {
        b
    }
}

pub open spec fn max_int(a: int, b: int) -> int {
    if a <= b {
        b
    } else {
        a
    }
}

impl Extent {
    /// Whether the pixel lies in an image of this size, at a position that
    /// signed coordinates can address.
    pub open spec fn covers(self, px: int, py: int) -> bool {
        0 <= px < reach(self.width) && 0 <= py < reach(self.height)
    }

    pub open spec fn spec_is_empty(self) -> bool {
        self.width == 0 || self.height == 0
    }

    /// Whether an image of this size has no pixel.
    pub fn is_empty(self) -> (r: bool)
        ensures
            r == self.spec_is_empty(),
    {
        self.width == 0 || self.height == 0
    }
}

impl Rect {
    pub open spec fn covers(self, px: int, py: int) -> bool {
        &&& self.offset.x <= px < self.offset.x + self.extent.width
        &&& self.offset.y <= py < self.offset.y + self.extent.height
    }

    /// The rectangle at the origin with the given size.
    pub open spec fn spec_full(extent: Extent) -> Rect {
        Rect { offset: Offset { x: 0, y: 0 }, extent }
    }

    pub fn full(extent: Extent) -> (r: Rect)
        ensures
            r == Rect::spec_full(extent),
    {
        Rect { offset: Offset { x: 0, y: 0 }, extent }
    }
}

impl Rectangle16 {
    pub open spec fn covers(self, px: int, py: int) -> bool {
        &&& self.x <= px < self.x + self.width
        &&& self.y <= py < self.y + self.height
    }
}

/// `reach` as a coordinate.
pub fn coordinate_limit(len: u32) -> (r: i32)
    ensures
        r == reach(len),
{
    if len <= 0x7fff_ffff {
        len as i32
    } else {
        i32::MAX
    }
}

/// One axis of [`clamp_rect`]: where the clipped span starts and how long it is.
fn clamp_span(pos: i32, len: u32, limit: u32) -> (r: (i32, u32))
    ensures
        r.0 == clamp_to(pos as int, reach(limit)),
        r.1 == clamp_to(pos + len, reach(limit)) - clamp_to(pos as int, reach(limit)),
{
    let hi: i64 = coordinate_limit(limit) as i64;
    let start: i64 = if (pos as i64) < 0 {
        0
    } else if pos as i64 > hi {
        hi
    } else {
        pos as i64
    };
    let far: i64 = pos as i64 + len as i64;
    let end: i64 = if far < 0 {
        0
    } else if far > hi {
        hi
    } else {
        far
    };
    (start as i32, (end - start) as u32)
}

/// The rectangle that [`clamp_rect`] returns.
pub open spec fn clamped(rect: Rect, extent: Extent) -> Rect {
    let w = reach(extent.width);
    let h = reach(extent.height);
    let x0 = clamp_to(rect.offset.x as int, w);
    let y0 = clamp_to(rect.offset.y as int, h);
    Rect {
        offset: Offset { x: x0 as i32, y: y0 as i32 },
        extent: Extent {
            width: (clamp_to(rect.offset.x + rect.extent.width, w) - x0) as u32,
            height: (clamp_to(rect.offset.y + rect.extent.height, h) - y0) as u32,
        },
    }
}

/// Clips `rect` to an image of size `extent`.
pub fn clamp_rect(rect: Rect, extent: Extent) -> (r: Rect)
    ensures
        r == clamped(rect, extent),
{
    let xs = clamp_span(rect.offset.x, rect.extent.width, extent.width);
    let ys = clamp_span(rect.offset.y, rect.extent.height, extent.height);
    Rect {
        offset: Offset { x: xs.0, y: ys.0 },
        extent: Extent { width: xs.1, height: ys.1 },
    }
}

/// What [`clamp_rect`] makes of each rectangle, the empty ones left out.
pub open spec fn clamped_nonempty(rects: Seq<Rect>, extent: Extent) -> Seq<Rect>
    decreases rects.len(),
{
    if rects.len() == 0 {
        Seq::empty()
    } else {
        let head = clamped_nonempty(rects.drop_last(), extent);
        let c = clamped(rects.last(), extent);
        if c.extent.spec_is_empty() {
            head
        } else {
            head.push(c)
        }
    }
}

/// Clips each rectangle and keeps the ones that still hold a pixel, in order.
pub fn clamp_rects(rects: &Vec<Rect>, extent: Extent) -> (r: Vec<Rect>)
    ensures
        r@ == clamped_nonempty(rects@, extent),
{
    let mut out: Vec<Rect> = Vec::new();
    let mut i: usize = 0;
    while i < rects.len()
        invariant
            i <= rects.len(),
            out@ == clamped_nonempty(rects@.take(i as int), extent),
        decreases rects.len() - i,
    {
        let c = clamp_rect(rects[i], extent);
        proof {
            assert(rects@.take(i + 1).drop_last() == rects@.take(i as int));
        }
        if !c.extent.is_empty() {
            out.push(c);
        }
        i = i + 1;
    }
    proof {
        assert(rects@.take(i as int) == rects@);
    }
    out
}

/// Where an upload of size `src` at `pos` lands in an image of size `dst`.
pub open spec fn put_rect(pos: Offset, src: Extent, dst: Extent) -> Option<(Rect, (u32, u32))> {
    let x0 = max_int(pos.x as int, 0);
    let y0 = max_int(pos.y as int, 0);
    let x1 = min_int(pos.x + src.width, reach(dst.width));
    let y1 = min_int(pos.y + src.height, reach(dst.height));
    if x1 <= x0 || y1 <= y0 {
        None
    } else {
        Some(
            (
                Rect {
                    offset: Offset { x: x0 as i32, y: y0 as i32 },
                    extent: Extent { width: (x1 - x0) as u32, height: (y1 - y0) as u32 },
                },
                ((x0 - pos.x) as u32, (y0 - pos.y) as u32),
            ),
        )
    }
}

/// The destination rectangle of an upload and the source pixel that lands in
/// its top left corner; `None` when no pixel is visible.
pub fn clamp_put_rect(dst_pos: Offset, src_extent: Extent, dst_extent: Extent) -> (r: Option<
    (Rect, (u32, u32)),
>)
    ensures
        r == put_rect(dst_pos, src_extent, dst_extent),
{
    let max_x: i64 = coordinate_limit(dst_extent.width) as i64;
    let max_y: i64 = coordinate_limit(dst_extent.height) as i64;
    let x: i64 = dst_pos.x as i64;
    let y: i64 = dst_pos.y as i64;
    let x0: i64 = if x < 0 {
        0
    } else {
        x
    };
    let y0: i64 = if y < 0 {
        0
    } else {
        y
    };
    let far_x: i64 = x + src_extent.width as i64;
    let far_y: i64 = y + src_extent.height as i64;
    let x1: i64 = if far_x < max_x {
        far_x
    } else {
        max_x
    };
    let y1: i64 = if far_y < max_y {
        far_y
    } else {
        max_y
    };
    if x1 <= x0 || y1 <= y0 {
        return None;
    }
    Some(
        (
            Rect {
                offset: Offset { x: x0 as i32, y: y0 as i32 },
                extent: Extent { width: (x1 - x0) as u32, height: (y1 - y0) as u32 },
            },
            ((x0 - x) as u32, (y0 - y) as u32),
        ),
    )
}

/// The part of a client rectangle that lies in an image of size `extent`.
pub open spec fn clipped16(r: Rectangle16, extent: Extent) -> Option<Rect> {
    let x0 = max_int(r.x as int, 0);
    let y0 = max_int(r.y as int, 0);
    let x1 = min_int(r.x + r.width, reach(extent.width));
    let y1 = min_int(r.y + r.height, reach(extent.height));
    if x1 <= x0 || y1 <= y0 {
        None
    } else {
        Some(
            Rect {
                offset: Offset { x: x0 as i32, y: y0 as i32 },
                extent: Extent { width: (x1 - x0) as u32, height: (y1 - y0) as u32 },
            },
        )
    }
}

/// Clips one client rectangle to an image.
pub fn clip_rectangle16(r: Rectangle16, extent: Extent) -> (c: Option<Rect>)
    ensures
        c == clipped16(r, extent),
{
    let max_x: i32 = coordinate_limit(extent.width);
    let max_y: i32 = coordinate_limit(extent.height);
    let x: i32 = r.x as i32;
    let y: i32 = r.y as i32;
    let x0: i32 = if x < 0 {
        0
    } else {
        x
    };
    let y0: i32 = if y < 0 {
        0
    } else {
        y
    };
    let far_x: i32 = x + r.width as i32;
    let far_y: i32 = y + r.height as i32;
    let x1: i32 = if far_x < max_x {
        far_x
    } else {
        max_x
    };
    let y1: i32 = if far_y < max_y {
        far_y
    } else {
        max_y
    };
    if x1 <= x0 || y1 <= y0 {
        return None;
    }
    Some(
        Rect {
            offset: Offset { x: x0, y: y0 },
            extent: Extent { width: (x1 - x0) as u32, height: (y1 - y0) as u32 },
        },
    )
}

/// The visible parts of a list of client rectangles, in order.
pub open spec fn clipped_list(rects: Seq<Rectangle16>, extent: Extent) -> Seq<Rect>
    decreases rects.len(),
{
    if rects.len() == 0 {
        Seq::empty()
    } else {
        let head = clipped_list(rects.drop_last(), extent);
        match clipped16(rects.last(), extent) {
            Some(c) => head.push(c),
            None => head,
        }
    }
}

/// Clips a list of client rectangles to an image and keeps the visible parts.
pub fn clip_rectangles(rects: &Vec<Rectangle16>, extent: Extent) -> (r: Vec<Rect>)
    ensures
        r@ == clipped_list(rects@, extent),
{
    let mut out: Vec<Rect> = Vec::new();
    let mut i: usize = 0;
    while i < rects.len()
        invariant
            i <= rects.len(),
            out@ == clipped_list(rects@.take(i as int), extent),
        decreases rects.len() - i,
    {
        proof {
            assert(rects@.take(i + 1).drop_last() == rects@.take(i as int));
        }
        match clip_rectangle16(rects[i], extent) {
            Some(c) => {
                out.push(c);
            },
            None => {},
        }
        i = i + 1;
    }
    proof {
        assert(rects@.take(i as int) == rects@);
    }
    out
}

/// The scissors of a draw under a picture clip: the whole image without a
/// clip, else the visible part of each clip rectangle.
pub open spec fn scissors_of(clip: Option<Vec<Rectangle16>>, extent: Extent) -> Seq<Rect> {
    match clip {
        None => seq![Rect::spec_full(extent)],
        Some(list) => clipped_list(list@, extent),
    }
}

/// Builds the scissor list of a draw under a picture clip.
pub fn build_render_clip_scissors(clip_rects: &Option<Vec<Rectangle16>>, dst_extent: Extent) -> (r:
    Vec<Rect>)
    ensures
        r@ == scissors_of(*clip_rects, dst_extent),
{
    match clip_rects {
        None => {
            let mut out: Vec<Rect> = Vec::new();
            out.push(Rect::full(dst_extent));
            proof {
                assert(out@ == seq![Rect::spec_full(dst_extent)]);
            }
            out
        },
        Some(list) => clip_rectangles(list, dst_extent),
    }
}

/// The first step of a copy along one axis, from `from` on the source and to
/// `to` on the destination, that lies on both.
pub open spec fn copy_skip(from: int, to: int) -> int {
    max_int(0, max_int(-from, -to))
}

/// The number of steps of a copy of `len` along one axis before it leaves
/// either image.
pub open spec fn copy_stop(from: int, src: u32, to: int, dst: u32, len: u32) -> int {
    min_int(len as int, min_int(reach(src) - from, reach(dst) - to))
}

/// One axis of [`copy_rects`]: where the copy starts on the source and on the
/// destination, and how long it is.
fn copy_span(from: i32, src: u32, to: i32, dst: u32, len: u32) -> (r: Option<(i32, i32, u32)>)
    ensures
        ({
            let skip = copy_skip(from as int, to as int);
            let stop = copy_stop(from as int, src, to as int, dst, len);
            match r {
                None => stop <= skip,
                Some((a, b, n)) => skip < stop && a == from + skip && b == to + skip && n == stop
                    - skip,
            }
        }),
{
    let f: i64 = from as i64;
    let t: i64 = to as i64;
    let mut skip: i64 = 0;
    if f < 0 {
        skip = -f;
    }
    if t < 0 && -t > skip {
        skip = -t;
    }
    let on_src: i64 = coordinate_limit(src) as i64 - f;
    let on_dst: i64 = coordinate_limit(dst) as i64 - t;
    let mut stop: i64 = len as i64;
    if on_src < stop {
        stop = on_src;
    }
    if on_dst < stop {
        stop = on_dst;
    }
    if stop <= skip {
        return None;
    }
    Some(((f + skip) as i32, (t + skip) as i32, (stop - skip) as u32))
}

/// What is left of a copy of `rect` to `pos` inside both images: the area that
/// is read and the area that is written; `None` when nothing is.
pub open spec fn copied_rects(rect: Rect, src: Extent, pos: Offset, dst: Extent) -> Option<
    (Rect, Rect),
> {
    let dx = copy_skip(rect.offset.x as int, pos.x as int);
    let dy = copy_skip(rect.offset.y as int, pos.y as int);
    let w = copy_stop(
        rect.offset.x as int,
        src.width,
        pos.x as int,
        dst.width,
        rect.extent.width,
    ) - dx;
    let h = copy_stop(
        rect.offset.y as int,
        src.height,
        pos.y as int,
        dst.height,
        rect.extent.height,
    ) - dy;
    if w <= 0 || h <= 0 {
        None
    } else {
        let extent = Extent { width: w as u32, height: h as u32 };
        Some(
            (
                Rect {
                    offset: Offset {
                        x: (rect.offset.x + dx) as i32,
                        y: (rect.offset.y + dy) as i32,
                    },
                    extent,
                },
                Rect {
                    offset: Offset { x: (pos.x + dx) as i32, y: (pos.y + dy) as i32 },
                    extent,
                },
            ),
        )
    }
}

/// Clips a copy of `rect` to `pos` to both images.
pub fn copy_rects(rect: Rect, src: Extent, pos: Offset, dst: Extent) -> (r: Option<(Rect, Rect)>)
    ensures
        r == copied_rects(rect, src, pos, dst),
{
    let (sx, dx, width): (i32, i32, u32) = match copy_span(
        rect.offset.x,
        src.width,
        pos.x,
        dst.width,
        rect.extent.width,
    ) {
        None => {
            return None;
        },
        Some(span) => span,
    };
    let (sy, dy, height): (i32, i32, u32) = match copy_span(
        rect.offset.y,
        src.height,
        pos.y,
        dst.height,
        rect.extent.height,
    ) {
        None => {
            return None;
        },
        Some(span) => span,
    };
    let extent = Extent { width, height };
    Some(
        (
            Rect { offset: Offset { x: sx, y: sy }, extent },
            Rect { offset: Offset { x: dx, y: dy }, extent },
        ),
    )
}

/// Clipping keeps exactly the pixels that the rectangle and the image share.
pub proof fn clamp_keeps_shared_pixels(rect: Rect, extent: Extent, px: int, py: int)
    ensures
        clamped(rect, extent).covers(px, py) <==> rect.covers(px, py) && extent.covers(px, py),
{
}

/// Clipping twice is clipping once.
pub proof fn clamp_is_idempotent(rect: Rect, extent: Extent)
    ensures
        clamped(clamped(rect, extent), extent) == clamped(rect, extent),
{
}

/// An upload covers exactly the pixels that its placed source and the image
/// share, and each of them comes from the source pixel at the same distance
/// from the placement.
pub proof fn put_rect_keeps_shared_pixels(pos: Offset, src: Extent, dst: Extent, px: int, py: int)
    ensures
        match put_rect(pos, src, dst) {
            None => !(dst.covers(px, py) && 0 <= px - pos.x < src.width && 0 <= py - pos.y
                < src.height),
            Some((rect, (sx, sy))) => {
                &&& rect.covers(px, py) <==> (dst.covers(px, py) && 0 <= px - pos.x < src.width
                    && 0 <= py - pos.y < src.height)
                &&& sx + (px - rect.offset.x) == px - pos.x
                &&& sy + (py - rect.offset.y) == py - pos.y
                &&& sx + rect.extent.width <= src.width
                &&& sy + rect.extent.height <= src.height
            },
        },
{
}

/// The scissors of a clip cover exactly the pixels of the image that some
/// clip rectangle covers.
pub proof fn scissors_cover_clip(rects: Seq<Rectangle16>, extent: Extent, px: int, py: int)
    ensures
        (exists|i: int|
            0 <= i < clipped_list(rects, extent).len() && (#[trigger] clipped_list(
                rects,
                extent,
            )[i]).covers(px, py)) <==> (extent.covers(px, py) && exists|j: int|
            0 <= j < rects.len() && (#[trigger] rects[j]).covers(px, py)),
    decreases rects.len(),
{
    if rects.len() > 0 {
        let head = rects.drop_last();
        let list = clipped_list(rects, extent);
        let hlist = clipped_list(head, extent);
        scissors_cover_clip(head, extent, px, py);
        if exists|i: int| 0 <= i < list.len() && (#[trigger] list[i]).covers(px, py) {
            let i = choose|i: int| 0 <= i < list.len() && (#[trigger] list[i]).covers(px, py);
            if i < hlist.len() {
                assert(hlist[i].covers(px, py));
                let j = choose|j: int| 0 <= j < head.len() && (#[trigger] head[j]).covers(px, py);
                assert(rects[j].covers(px, py));
            } else {
                assert(rects[rects.len() - 1].covers(px, py));
            }
        }
        if extent.covers(px, py) && exists|j: int|
            0 <= j < rects.len() && (#[trigger] rects[j]).covers(px, py) {
            let j = choose|j: int| 0 <= j < rects.len() && (#[trigger] rects[j]).covers(px, py);
            if j < head.len() {
                assert(head[j].covers(px, py));
                let i = choose|i: int| 0 <= i < hlist.len() && (#[trigger] hlist[i]).covers(px, py);
                assert(list[i].covers(px, py));
            } else {
                assert(clipped16(rects.last(), extent) is Some);
                assert(list[list.len() - 1].covers(px, py));
            }
        }
    }
}

/// Where the pixel that a copy of `rect` to `pos` puts at `p` comes from, along
/// one axis.
pub open spec fn copy_source(from: int, pos: int, p: int) -> int {
    from + p - pos
}

/// Whether a copy of `rect` to `pos` writes a pixel: the pixel lies in the
/// destination, and what it comes from lies in the rectangle and in the
/// source.
pub open spec fn copy_writes(
    rect: Rect,
    src: Extent,
    pos: Offset,
    dst: Extent,
    px: int,
    py: int,
) -> bool {
    let qx = copy_source(rect.offset.x as int, pos.x as int, px);
    let qy = copy_source(rect.offset.y as int, pos.y as int, py);
    dst.covers(px, py) && rect.covers(qx, qy) && src.covers(qx, qy)
}

/// Clipping a copy keeps exactly the pixels that lie in both images, and keeps
/// for each of them where it comes from.
pub proof fn copy_keeps_shared_pixels(
    rect: Rect,
    src: Extent,
    pos: Offset,
    dst: Extent,
    px: int,
    py: int,
)
    ensures
        match copied_rects(rect, src, pos, dst) {
            None => !copy_writes(rect, src, pos, dst, px, py),
            Some((read, written)) => {
                &&& written.covers(px, py) <==> copy_writes(rect, src, pos, dst, px, py)
                &&& px - written.offset.x + read.offset.x == copy_source(
                    rect.offset.x as int,
                    pos.x as int,
                    px,
                )
                &&& py - written.offset.y + read.offset.y == copy_source(
                    rect.offset.y as int,
                    pos.y as int,
                    py,
                )
                &&& read.extent == written.extent
            },
        },
{
}

/// A copy never leaves the rectangle, the source image nor the destination
/// image.
pub proof fn copy_stays_inside(rect: Rect, src: Extent, pos: Offset, dst: Extent)
    ensures
        copied_rects(rect, src, pos, dst) matches Some((read, written)) ==> {
            &&& 0 <= read.offset.x && read.offset.x + read.extent.width <= reach(src.width)
            &&& 0 <= read.offset.y && read.offset.y + read.extent.height <= reach(src.height)
            &&& 0 <= written.offset.x && written.offset.x + written.extent.width <= reach(
                dst.width,
            )
            &&& 0 <= written.offset.y && written.offset.y + written.extent.height <= reach(
                dst.height,
            )
            &&& rect.offset.x <= read.offset.x && read.offset.x + read.extent.width
                <= rect.offset.x + rect.extent.width
            &&& rect.offset.y <= read.offset.y && read.offset.y + read.extent.height
                <= rect.offset.y + rect.extent.height
        },
{
}

} // verus!
