//! What a device makes of commands: the pixels of images, the bytes of
//! buffers, and the glyph atlas.
//!
//! What only shaders compute is a parameter: how a colour is stored, how two
//! pixels blend, how far a primitive covers a pixel. Everything else, above all
//! where a command reads and where it writes, is stated here.

use vstd::prelude::*;

use crate::command::{
    Color, Command, GcFunction, GlyphDraw, PipelineKey, Rgba8, Slot, SnapshotKind, TrapPrimKind,
};
use crate::geometry::{Extent, Rect};
use crate::picture::{
    spec_mapping, Binding, Channel, ComponentMapping, CompositeAttrs, CompositeRect, PictTransform,
    Repeat, SwizzleClass,
};
use crate::store::{Drawable, Format};

verus! {

/// The pixels of an image, by position. An image of one channel keeps it in
/// red.
pub type Texels = spec_fn(int, int) -> Rgba8;

/// What shaders compute.
pub ghost struct Shading {
    /// How one component of a colour is stored.
    pub unit: spec_fn(u32) -> u8,
    /// A pixel of a composite: pipeline, source, mask, destination.
    pub blend: spec_fn(PipelineKey, Rgba8, Rgba8, Rgba8) -> Rgba8,
    /// A pixel of text that a glyph covers in part: foreground, coverage,
    /// destination.
    pub tint: spec_fn(Color, u8, Rgba8) -> Rgba8,
    /// Where a picture is sampled behind a gradient's projection and a
    /// transform.
    pub place: spec_fn(Option<u32>, Option<PictTransform>, int, int) -> (int, int),
    /// How far a primitive of a buffer covers a pixel of the destination:
    /// kind, buffer, number of the primitive, position.
    pub cover: spec_fn(TrapPrimKind, Seq<u8>, int, int, int) -> u8,
    /// The coverage of a pixel by one more primitive.
    pub gather: spec_fn(u8, u8) -> u8,
}

#[verifier::ext_equal]
pub ghost struct Device {
    pub images: Map<u64, Texels>,
    pub formats: Map<u64, Format>,
    pub extents: Map<u64, Extent>,
    /// The images behind the views that are rendered to.
    pub views: Map<u64, u64>,
    pub buffers: Map<u64, Seq<u8>>,
    /// The lookup tables of gradients, by view.
    pub tables: Map<u64, Texels>,
    /// What a descriptor binds as source and as mask; without a mask it binds
    /// the mask image.
    pub descriptors: Map<u64, (Binding, Option<Binding>)>,
    /// The image that primitives are rasterised into.
    pub mask_image: u64,
    /// The engine's one pixel images.
    pub src_solid: Rgba8,
    pub mask_solid: Rgba8,
    pub alias: Texels,
    pub alias_format: Option<Format>,
    pub readback: Texels,
    pub atlas: spec_fn(int, int) -> u8,
    /// The image that is rendered to, and the part of it that draws reach.
    pub attached: u64,
    pub area: Extent,
    pub pipeline: Option<PipelineKey>,
    pub foreground: Option<Color>,
}

/// A colour as it is stored, channel by channel.
pub open spec fn stored(sh: Shading, c: Color) -> Rgba8 {
    Rgba8 { r: (sh.unit)(c.r), g: (sh.unit)(c.g), b: (sh.unit)(c.b), a: (sh.unit)(c.a) }
}

pub open spec fn transparent() -> Rgba8 {
    Rgba8 { r: 0, g: 0, b: 0, a: 0 }
}

pub open spec fn white() -> Rgba8 {
    Rgba8 { r: 255, g: 255, b: 255, a: 255 }
}

/// The bytes that one pixel of an image takes in a buffer.
pub open spec fn bytes_per_pixel(f: Format) -> int {
    if f == Format::R8Unorm {
        1
    } else {
        4
    }
}

/// Byte `k` of a pixel in a buffer: blue first, then green, red, alpha.
pub open spec fn texel_byte(f: Format, t: Rgba8, k: int) -> u8 {
    if f == Format::R8Unorm {
        t.r
    } else if k == 0 {
        t.b
    } else if k == 1 {
        t.g
    } else if k == 2 {
        t.r
    } else {
        t.a
    }
}

/// The pixel whose bytes start at `at` in a buffer.
pub open spec fn texel_of(f: Format, bytes: Seq<u8>, at: int) -> Rgba8 {
    if f == Format::R8Unorm {
        Rgba8 { r: bytes[at], g: 0, b: 0, a: 0 }
    } else {
        Rgba8 { b: bytes[at], g: bytes[at + 1], r: bytes[at + 2], a: bytes[at + 3] }
    }
}

/// Where the pixel of a column and a row starts in a buffer of tight rows.
pub open spec fn byte_place(width: int, bpp: int, col: int, row: int) -> int {
    row * (width * bpp) + col * bpp
}

/// The boolean operation of a raster operation, on all bits of a byte.
pub open spec fn raster(f: GcFunction, s: u8, d: u8) -> u8 {
    match f {
        GcFunction::Clear => 0u8,
        GcFunction::And => s & d,
        GcFunction::AndReverse => s & !d,
        GcFunction::Copy => s,
        GcFunction::AndInverted => !s & d,
        GcFunction::NoOp => d,
        GcFunction::Xor => s ^ d,
        GcFunction::Or => s | d,
        GcFunction::Nor => !(s | d),
        GcFunction::Equiv => !(s ^ d),
        GcFunction::Invert => !d,
        GcFunction::OrReverse => s | !d,
        GcFunction::CopyInverted => !s,
        GcFunction::OrInverted => !s | d,
        GcFunction::Nand => !(s & d),
        GcFunction::SetBits => 0xFFu8,
    }
}

/// A pixel after a raster operation; the server's alpha is not written.
pub open spec fn raster_texel(f: GcFunction, opaque_alpha: bool, s: Rgba8, d: Rgba8) -> Rgba8 {
    Rgba8 {
        r: raster(f, s.r, d.r),
        g: raster(f, s.g, d.g),
        b: raster(f, s.b, d.b),
        a: if opaque_alpha {
            d.a
        } else {
            raster(f, s.a, d.a)
        },
    }
}

/// One channel of a view: the stored channel, a constant, or red.
pub open spec fn channel(c: Channel, own: u8, red: u8) -> u8 {
    match c {
        Channel::Identity => own,
        Channel::Zero => 0,
        Channel::One => 255,
        Channel::Red => red,
    }
}

/// A stored pixel as a view shows it.
pub open spec fn mapped(m: ComponentMapping, t: Rgba8) -> Rgba8 {
    Rgba8 {
        r: channel(m.r, t.r, t.r),
        g: channel(m.g, t.g, t.r),
        b: channel(m.b, t.b, t.r),
        a: channel(m.a, t.a, t.r),
    }
}

/// `v` folded into `0..n` by mirroring.
pub open spec fn mirrored(v: int, n: int) -> int {
    let k = v % (2 * n);
    if k < n {
        k
    } else {
        2 * n - 1 - k
    }
}

/// `v` moved to the nearest of `0..n`.
pub open spec fn nearest(v: int, n: int) -> int {
    if v < 0 {
        0
    } else if v >= n {
        n - 1
    } else {
        v
    }
}

/// The pixel of an image that a picture shows at a position; `None` where it
/// shows nothing.
pub open spec fn wrapped(repeat: Repeat, e: Extent, u: int, v: int) -> Option<(int, int)> {
    let w = e.width as int;
    let h = e.height as int;
    if w == 0 || h == 0 {
        None
    } else {
        match repeat {
            Repeat::Off => if 0 <= u < w && 0 <= v < h {
                Some((u, v))
            } else {
                None
            },
            Repeat::Normal => Some((u % w, v % h)),
            Repeat::Pad => Some((nearest(u, w), nearest(v, h))),
            Repeat::Reflect => Some((mirrored(u, w), mirrored(v, h))),
        }
    }
}

/// Where a picture is sampled: at the position itself without a transform or
/// a gradient.
pub open spec fn placed(
    sh: Shading,
    gradient: Option<u32>,
    transform: Option<PictTransform>,
    x: int,
    y: int,
) -> (int, int) {
    if gradient is None && transform is None {
        (x, y)
    } else {
        (sh.place)(gradient, transform, x, y)
    }
}

/// Whether an operator is computed in the shader, from a snapshot of the
/// destination.
pub open spec fn reads_snapshot(op: u8) -> bool {
    op == 13 || 16 <= op <= 27 || 32 <= op <= 43
}

/// A pixel of what a slot is bound to.
pub open spec fn slot_texel(dev: Device, b: Option<Binding>, slot: Slot, i: int, j: int) -> Rgba8 {
    match b {
        None => mapped(
            spec_mapping(SwizzleClass::AlphaOnlyR8),
            (dev.images[dev.mask_image])(i, j),
        ),
        Some(Binding::Alias) => if dev.alias_format == Some(Format::R8Unorm) {
            Rgba8 { r: 0, g: 0, b: 0, a: (dev.alias)(i, j).r }
        } else {
            (dev.alias)(i, j)
        },
        Some(Binding::View { image, swizzle, .. }) => mapped(
            spec_mapping(swizzle),
            (dev.images[image])(i, j),
        ),
        Some(Binding::Solid(_)) => match slot {
            Slot::Src => dev.src_solid,
            Slot::Mask => dev.mask_solid,
        },
        Some(Binding::Gradient { view, .. }) => (dev.tables[view])(i, j),
        Some(Binding::White) => white(),
    }
}

/// What a slot gives at a position.
pub open spec fn sampled(
    sh: Shading,
    dev: Device,
    b: Option<Binding>,
    slot: Slot,
    attrs: CompositeAttrs,
    x: int,
    y: int,
) -> Rgba8 {
    let (gradient, transform, repeat, extent, opaque) = match slot {
        Slot::Src => (
            attrs.src_gradient,
            attrs.src_transform,
            attrs.src_repeat,
            attrs.src_extent,
            attrs.src_force_opaque,
        ),
        Slot::Mask => (
            attrs.mask_gradient,
            attrs.mask_transform,
            attrs.mask_repeat,
            attrs.mask_extent,
            attrs.mask_force_opaque,
        ),
    };
    let (u, v) = placed(sh, gradient, transform, x, y);
    match wrapped(repeat, extent, u, v) {
        None => transparent(),
        Some((i, j)) => {
            let t = slot_texel(dev, b, slot, i, j);
            if opaque {
                Rgba8 { a: 255, ..t }
            } else {
                t
            }
        },
    }
}

/// The rectangle that a quad covers.
pub open spec fn quad_covers(q: CompositeRect, x: int, y: int) -> bool {
    q.dst_x <= x < q.dst_x + q.width && q.dst_y <= y < q.dst_y + q.height
}

/// A pixel of a composite draw: source and mask at the same distance from
/// their corners as the pixel from the quad's.
pub open spec fn composite_texel(
    sh: Shading,
    dev: Device,
    descriptor: u64,
    attrs: CompositeAttrs,
    q: CompositeRect,
    x: int,
    y: int,
) -> Rgba8 {
    let (src, mask) = dev.descriptors[descriptor];
    let key = dev.pipeline->0;
    (sh.blend)(
        key,
        sampled(
            sh,
            dev,
            Some(src),
            Slot::Src,
            attrs,
            q.src_x + x - q.dst_x,
            q.src_y + y - q.dst_y,
        ),
        sampled(
            sh,
            dev,
            mask,
            Slot::Mask,
            attrs,
            q.mask_x + x - q.dst_x,
            q.mask_y + y - q.dst_y,
        ),
        if reads_snapshot(key.op) {
            (dev.readback)(x, y)
        } else {
            (dev.images[dev.attached])(x, y)
        },
    )
}

pub open spec fn glyph_covers(g: GlyphDraw, x: int, y: int) -> bool {
    g.dst_x <= x < g.dst_x + g.w && g.dst_y <= y < g.dst_y + g.h
}

/// The bits of 1.0, the alpha of an opaque colour.
pub open spec fn one_bits() -> u32 {
    0x3f80_0000
}

/// A pixel of text: what a glyph does not cover stays, and what it covers
/// fully is an opaque foreground itself.
pub open spec fn text_texel(sh: Shading, foreground: Color, coverage: u8, old: Rgba8) -> Rgba8 {
    if coverage == 0 {
        old
    } else if coverage == 255 && foreground.a == one_bits() {
        stored(sh, foreground)
    } else {
        (sh.tint)(foreground, coverage, old)
    }
}

/// The coverage of a pixel by the first `n` primitives of a buffer.
pub open spec fn gathered(
    sh: Shading,
    kind: TrapPrimKind,
    bytes: Seq<u8>,
    n: nat,
    x: int,
    y: int,
) -> u8
    decreases n,
{
    if n == 0 {
        0
    } else {
        (sh.gather)(
            gathered(sh, kind, bytes, (n - 1) as nat, x, y),
            (sh.cover)(kind, bytes, n - 1, x, y),
        )
    }
}

/// Whether the device has the image of a drawable: its format, its size, and
/// the view to render to it.
pub open spec fn knows(dev: Device, d: Drawable) -> bool {
    &&& dev.formats[d.image] == d.format
    &&& dev.extents[d.image] == d.extent
    &&& dev.views[d.view] == d.image
}

/// The device once it renders to a part of an image, by its view.
pub open spec fn rendering(dev: Device, view: u64, extent: Extent) -> Device {
    Device { attached: dev.views[view], area: extent, ..dev }
}

/// The device with other pixels in the part of an image that is rendered to.
pub open spec fn drawn(dev: Device, t: Texels) -> Device {
    let before = dev.images[dev.attached];
    Device {
        images: dev.images.insert(
            dev.attached,
            |x: int, y: int|
                if Rect::spec_full(dev.area).covers(x, y) {
                    t(x, y)
                } else {
                    before(x, y)
                },
        ),
        ..dev
    }
}

/// Part of an image, in place of what was there.
pub open spec fn overlaid(old: Texels, new: Texels, extent: Extent) -> Texels {
    |x: int, y: int|
        if Rect::spec_full(extent).covers(x, y) {
            new(x, y)
        } else {
            old(x, y)
        }
}

/// The device after one command. What an image holds whose layout is undefined
/// is of no interest, so barriers keep all pixels.
pub open spec fn device_step(sh: Shading, dev: Device, c: Command) -> Device {
    let before = dev.images[dev.attached];
    match c {
        Command::CopyImage { src, dst, from, to, extent } => {
            let s = dev.images[src];
            let d = dev.images[dst];
            Device {
                images: dev.images.insert(
                    dst,
                    |x: int, y: int|
                        if (Rect { offset: to, extent }).covers(x, y) {
                            s(from.x + x - to.x, from.y + y - to.y)
                        } else {
                            d(x, y)
                        },
                ),
                ..dev
            }
        },
        Command::CopyBufferToImage { buffer, image, to, extent } => {
            let f = dev.formats[image];
            let bytes = dev.buffers[buffer];
            let d = dev.images[image];
            Device {
                images: dev.images.insert(
                    image,
                    |x: int, y: int|
                        if (Rect { offset: to, extent }).covers(x, y) {
                            texel_of(
                                f,
                                bytes,
                                byte_place(extent.width as int, bytes_per_pixel(f), x - to.x, y - to.y),
                            )
                        } else {
                            d(x, y)
                        },
                ),
                ..dev
            }
        },
        Command::CopyImageToBuffer { image, buffer, from, extent } => {
            let f = dev.formats[image];
            let n = bytes_per_pixel(f);
            let s = dev.images[image];
            let row = extent.width * n;
            Device {
                buffers: dev.buffers.insert(
                    buffer,
                    Seq::new(
                        (row * extent.height) as nat,
                        |i: int|
                            texel_byte(
                                f,
                                s(from.x + i % row / n, from.y + i / row),
                                i % row % n,
                            ),
                    ),
                ),
                ..dev
            }
        },
        Command::BeginRendering { view, extent, .. } => rendering(dev, view, extent),
        Command::ClearRect { color, rect } => drawn(
            dev,
            |x: int, y: int|
                if rect.covers(x, y) {
                    stored(sh, color)
                } else {
                    before(x, y)
                },
        ),
        Command::LogicDraw { format, function, opaque_alpha, pixel, rect } => drawn(
            dev,
            |x: int, y: int|
                if rect.covers(x, y) && dev.formats[dev.attached] == format {
                    raster_texel(function, opaque_alpha, pixel, before(x, y))
                } else {
                    before(x, y)
                },
        ),
        Command::ClearSolid { slot, solid } => match slot {
            Slot::Src => Device { src_solid: stored(sh, solid), ..dev },
            Slot::Mask => Device { mask_solid: stored(sh, solid), ..dev },
        },
        Command::Snapshot { of, image, format, extent, .. } => match of {
            SnapshotKind::Alias => Device {
                alias: overlaid(dev.alias, dev.images[image], extent),
                alias_format: Some(format),
                ..dev
            },
            SnapshotKind::Readback => Device {
                readback: overlaid(dev.readback, dev.images[image], extent),
                ..dev
            },
        },
        Command::OpenComposite { view, extent, pipeline, .. } => Device {
            pipeline: Some(pipeline),
            ..rendering(dev, view, extent)
        },
        Command::CompositeDraw { descriptor, dst_extent, attrs, quad, scissor } => drawn(
            dev,
            |x: int, y: int|
                if quad_covers(quad, x, y) && scissor.covers(x, y) && dst_extent
                    == dev.extents[dev.attached] {
                    composite_texel(sh, dev, descriptor, attrs, quad, x, y)
                } else {
                    before(x, y)
                },
        ),
        Command::UploadGlyph { buffer, atlas_x, atlas_y, w, h } => {
            let bytes = dev.buffers[buffer];
            let a = dev.atlas;
            Device {
                atlas: |x: int, y: int|
                    if atlas_x <= x < atlas_x + w && atlas_y <= y < atlas_y + h {
                        bytes[(y - atlas_y) * w + (x - atlas_x)]
                    } else {
                        a(x, y)
                    },
                ..dev
            }
        },
        Command::OpenText { view, extent, foreground, .. } => Device {
            foreground: Some(foreground),
            ..rendering(dev, view, extent)
        },
        Command::GlyphQuad { glyph, scissor } => drawn(
            dev,
            |x: int, y: int|
                if glyph_covers(glyph, x, y) && scissor.covers(x, y) {
                    text_texel(
                        sh,
                        dev.foreground->0,
                        (dev.atlas)(
                            glyph.atlas_x + x - glyph.dst_x,
                            glyph.atlas_y + y - glyph.dst_y,
                        ),
                        before(x, y),
                    )
                } else {
                    before(x, y)
                },
        ),
        Command::BeginMask { view, extent, .. } => drawn(
            rendering(dev, view, extent),
            |x: int, y: int| transparent(),
        ),
        Command::TrapDraw { kind, buffer, count, mask_extent, bbox } => drawn(
            dev,
            |x: int, y: int|
                if 0 <= x < bbox.extent.width && 0 <= y < bbox.extent.height && mask_extent
                    == dev.extents[dev.attached] {
                    Rgba8 {
                        r: gathered(
                            sh,
                            kind,
                            dev.buffers[buffer],
                            count as nat,
                            bbox.offset.x + x,
                            bbox.offset.y + y,
                        ),
                        ..before(x, y)
                    }
                } else {
                    before(x, y)
                },
        ),
        Command::Barrier { .. } | Command::EndRendering { .. } | Command::CloseComposite { .. }
        | Command::CloseText { .. } => dev,
    }
}

/// The device after a list of commands.
pub open spec fn device_run(sh: Shading, dev: Device, cmds: Seq<Command>) -> Device
    decreases cmds.len(),
{
    if cmds.len() == 0 {
        dev
    } else {
        device_step(sh, device_run(sh, dev, cmds.drop_last()), cmds.last())
    }
}

/// A pixel of an image after a list of commands.
pub open spec fn pixel_after(
    sh: Shading,
    dev: Device,
    cmds: Seq<Command>,
    image: u64,
    x: int,
    y: int,
) -> Rgba8 {
    (device_run(sh, dev, cmds).images[image])(x, y)
}

/// Running two lists one after the other is running their concatenation.
pub proof fn device_run_concat(sh: Shading, dev: Device, a: Seq<Command>, b: Seq<Command>)
    ensures
        device_run(sh, dev, a + b) == device_run(sh, device_run(sh, dev, a), b),
    decreases b.len(),
{
    if b.len() == 0 {
        assert(a + b =~= a);
    } else {
        assert((a + b).drop_last() =~= a + b.drop_last());
        device_run_concat(sh, dev, a, b.drop_last());
    }
}

pub proof fn device_run_one(sh: Shading, dev: Device, c: Command)
    ensures
        device_run(sh, dev, seq![c]) == device_step(sh, dev, c),
{
    reveal_with_fuel(device_run, 2);
    assert(seq![c].drop_last() =~= Seq::empty());
}

pub proof fn device_run_two(sh: Shading, dev: Device, cmds: Seq<Command>)
    requires
        cmds.len() == 2,
    ensures
        device_run(sh, dev, cmds) == device_step(sh, device_step(sh, dev, cmds[0]), cmds[1]),
{
    assert(cmds =~= seq![cmds[0]] + seq![cmds[1]]);
    device_run_concat(sh, dev, seq![cmds[0]], seq![cmds[1]]);
    device_run_one(sh, dev, cmds[0]);
    device_run_one(sh, device_step(sh, dev, cmds[0]), cmds[1]);
}

/// Whether two devices agree on everything but one image.
pub open spec fn same_but(a: Device, b: Device, image: u64) -> bool {
    &&& forall|i: u64| i != image ==> #[trigger] a.images[i] == b.images[i]
    &&& a.formats == b.formats
    &&& a.extents == b.extents
    &&& a.views == b.views
    &&& a.buffers == b.buffers
    &&& a.tables == b.tables
    &&& a.descriptors == b.descriptors
    &&& a.mask_image == b.mask_image
    &&& a.src_solid == b.src_solid
    &&& a.mask_solid == b.mask_solid
    &&& a.alias == b.alias
    &&& a.alias_format == b.alias_format
    &&& a.readback == b.readback
    &&& a.atlas == b.atlas
    &&& a.attached == b.attached
    &&& a.area == b.area
    &&& a.pipeline == b.pipeline
    &&& a.foreground == b.foreground
}

/// Whether the command draws to the image that is rendered to and does nothing
/// else.
pub open spec fn is_draw(c: Command) -> bool {
    c is ClearRect || c is LogicDraw || c is CompositeDraw || c is GlyphQuad || c is TrapDraw
}

/// Draws change nothing but the image that is rendered to.
pub proof fn draws_stay_on_target(sh: Shading, dev: Device, cmds: Seq<Command>)
    requires
        forall|i: int| 0 <= i < cmds.len() ==> is_draw(#[trigger] cmds[i]),
    ensures
        same_but(device_run(sh, dev, cmds), dev, dev.attached),
    decreases cmds.len(),
{
    if cmds.len() > 0 {
        let head = cmds.drop_last();
        assert forall|i: int| 0 <= i < head.len() implies is_draw(#[trigger] head[i]) by {
            assert(head[i] == cmds[i]);
        }
        draws_stay_on_target(sh, dev, head);
        assert(is_draw(cmds[cmds.len() - 1]));
    }
}

} // verus!
