//! Trapezoids and triangles paint the source wherever one of them covers a
//! pixel, as far as all of them together cover it.

use vstd::prelude::*;

use crate::command::{composite_draws, optional, Command, PipelineKey, Rgba8, Slot, SnapshotKind};
use crate::compositing::{
    device_touch, draws_run, lacks_alpha, over_clip_list, over_rects, over_scissors, picture_shows,
    scissors_are_clip_list, Touch,
};
use crate::device::{
    device_run, device_run_concat, device_run_one, device_run_two, device_step, gathered, knows,
    pixel_after, quad_covers, reads_snapshot, sampled, stored, Device, Shading,
};
use crate::geometry::{Rect, Rectangle16};
use crate::picture::{
    readback_op, resolution, Binding, CompositeRect, Gradient, PictFormat, Resolution,
    ResolvedSource,
};
use crate::store::{Drawable, Format, StoreView};
use crate::traps::{
    mask_commands, trap_attrs, trap_commands, trap_pipeline, trap_quad, trap_rect, trap_scissors,
    MaskImage, TrapRequest,
};

verus! {

/// Whether an operator changes pixels where the mask is zero.
pub open spec fn reaches_beyond_mask(op: u8) -> bool {
    op == 0 || op == 1 || op == 5 || op == 6 || op == 7 || op == 10 || op == 13 || 16 <= op <= 27
        || 32 <= op <= 43
}

/// The part of the destination that a request composites.
pub open spec fn asked_area(req: &TrapRequest, d: Drawable) -> Rect {
    if reaches_beyond_mask(req.op) {
        Rect::spec_full(d.extent)
    } else {
        req.bbox
    }
}

/// The mask at a pixel of the destination: the coverage by all primitives of
/// the request together; outside their box there is none.
pub open spec fn asked_mask(
    sh: Shading,
    dev: Device,
    req: &TrapRequest,
    buffer: u64,
    x: int,
    y: int,
) -> Rgba8 {
    Rgba8 {
        r: 0,
        g: 0,
        b: 0,
        a: if req.bbox.covers(x, y) {
            gathered(sh, req.kind, dev.buffers[buffer], req.count as nat, x, y)
        } else {
            0
        },
    }
}

/// A painted pixel: the operator that was asked for, on the source at the same
/// distance from its corner as the pixel from the painted part's, through the
/// mask.
pub open spec fn trap_touch(
    sh: Shading,
    dev: Device,
    st: StoreView,
    gradients: Seq<Gradient>,
    req: &TrapRequest,
    d: Drawable,
    buffer: u64,
    x: int,
    y: int,
    old: Rgba8,
) -> Rgba8 {
    (sh.blend)(
        PipelineKey {
            op: req.op,
            format: d.format,
            dst_has_alpha: d.format == Format::R8Unorm || (!lacks_alpha(req.dst_format) && (d.depth
                == 32 || req.dst_format == PictFormat::Argb32)),
            component_alpha: false,
        },
        picture_shows(
            sh,
            dev,
            st,
            gradients,
            req.src,
            req.src_repeat,
            req.src_transform,
            req.src_format,
            x - asked_area(req, d).offset.x,
            y - asked_area(req, d).offset.y,
        ),
        asked_mask(sh, dev, req, buffer, x, y),
        if reads_snapshot(req.op) {
            (dev.images[d.image])(x, y)
        } else {
            old
        },
    )
}

/// A pixel that is painted under each clip rectangle that covers it.
pub open spec fn trap_over_clip_list(
    sh: Shading,
    dev: Device,
    st: StoreView,
    gradients: Seq<Gradient>,
    req: &TrapRequest,
    d: Drawable,
    buffer: u64,
    clip: Seq<Rectangle16>,
    x: int,
    y: int,
) -> Rgba8
    decreases clip.len(),
{
    if clip.len() == 0 {
        (dev.images[d.image])(x, y)
    } else {
        let before = trap_over_clip_list(
            sh,
            dev,
            st,
            gradients,
            req,
            d,
            buffer,
            clip.drop_last(),
            x,
            y,
        );
        if clip.last().covers(x, y) {
            trap_touch(sh, dev, st, gradients, req, d, buffer, x, y, before)
        } else {
            before
        }
    }
}

/// A pixel of the destination after a request.
pub open spec fn trap_pixel(
    sh: Shading,
    dev: Device,
    st: StoreView,
    gradients: Seq<Gradient>,
    req: &TrapRequest,
    d: Drawable,
    buffer: u64,
    x: int,
    y: int,
) -> Rgba8 {
    let old = (dev.images[d.image])(x, y);
    if !asked_area(req, d).covers(x, y) {
        old
    } else {
        match req.clip {
            None => trap_touch(sh, dev, st, gradients, req, d, buffer, x, y, old),
            Some(list) => trap_over_clip_list(
                sh,
                dev,
                st,
                gradients,
                req,
                d,
                buffer,
                list@,
                x,
                y,
            ),
        }
    }
}

/// Whether the device is ready for primitives: it has the destination and a
/// mask image that holds their box, and the descriptor binds the source and that
/// mask, none of which is the same image.
pub open spec fn trap_ready(
    dev: Device,
    req: &TrapRequest,
    d: Drawable,
    src: Binding,
    mask: MaskImage,
    descriptor: u64,
) -> bool {
    &&& knows(dev, d)
    &&& dev.mask_image == mask.image
    &&& dev.views[mask.attachment_view] == mask.image
    &&& dev.extents[mask.image] == mask.extent
    &&& req.bbox.extent.width <= mask.extent.width
    &&& req.bbox.extent.height <= mask.extent.height
    &&& dev.descriptors[descriptor] == (src, None::<Binding>)
    &&& mask.image != d.image
    &&& src matches Binding::View { image, .. } ==> image != d.image && image != mask.image
}

/// Whether commands paint the primitives of a request, on every pixel of the
/// destination, and no other image but the mask.
pub open spec fn paints_traps(
    cmds: Seq<Command>,
    st: StoreView,
    gradients: Seq<Gradient>,
    req: &TrapRequest,
    d: Drawable,
    src: Binding,
    mask: MaskImage,
    buffer: u64,
    descriptor: u64,
) -> bool {
    forall|sh: Shading, dev: Device, image: u64, x: int, y: int|
        trap_ready(dev, req, d, src, mask, descriptor) && d.extent.covers(x, y) && image
            != mask.image ==> #[trigger] pixel_after(sh, dev, cmds, image, x, y) == if image
            == d.image {
            trap_pixel(sh, dev, st, gradients, req, d, buffer, x, y)
        } else {
            (dev.images[image])(x, y)
        }
}

/// The device once the mask of a request is rasterised.
spec fn rasterised(
    sh: Shading,
    dev: Device,
    req: &TrapRequest,
    mask: MaskImage,
    buffer: u64,
) -> Device {
    device_step(
        sh,
        device_step(
            sh,
            dev,
            Command::BeginMask {
                image: mask.image,
                view: mask.attachment_view,
                extent: mask.extent,
            },
        ),
        Command::TrapDraw {
            kind: req.kind,
            buffer,
            count: req.count,
            mask_extent: mask.extent,
            bbox: req.bbox,
        },
    )
}

proof fn mask_runs(sh: Shading, dev: Device, req: &TrapRequest, mask: MaskImage, buffer: u64)
    requires
        dev.views[mask.attachment_view] == mask.image,
        dev.extents[mask.image] == mask.extent,
        req.bbox.extent.width <= mask.extent.width,
        req.bbox.extent.height <= mask.extent.height,
    ensures
        ({
            let end = device_run(sh, dev, mask_commands(req, mask, buffer));
            &&& end == (Device {
                images: end.images,
                attached: mask.image,
                area: mask.extent,
                ..dev
            })
            &&& forall|i: u64| i != mask.image ==> #[trigger] end.images[i] == dev.images[i]
            &&& forall|i: int, j: int|
                0 <= i < mask.extent.width && 0 <= j < mask.extent.height ==> (
                #[trigger] (end.images[mask.image])(i, j)).r == if req.bbox.covers(
                    req.bbox.offset.x + i,
                    req.bbox.offset.y + j,
                ) {
                    gathered(
                        sh,
                        req.kind,
                        dev.buffers[buffer],
                        req.count as nat,
                        req.bbox.offset.x + i,
                        req.bbox.offset.y + j,
                    )
                } else {
                    0
                }
        }),
{
    let cmds = mask_commands(req, mask, buffer);
    let a = cmds.take(2);
    let b = cmds.subrange(2, 4);
    let c = seq![cmds[4]];
    assert(cmds =~= a + b + c);
    device_run_two(sh, dev, a);
    device_run_concat(sh, dev, a, b);
    device_run_two(sh, device_run(sh, dev, a), b);
    device_run_concat(sh, dev, a + b, c);
    device_run_one(sh, device_run(sh, dev, a + b), cmds[4]);
    assert(device_run(sh, dev, cmds) == rasterised(sh, dev, req, mask, buffer));
}

proof fn one_quad(touch: Touch, q: CompositeRect, x: int, y: int, old: Rgba8)
    ensures
        over_rects(touch, seq![q], x, y, old) == if quad_covers(q, x, y) {
            touch(q, old)
        } else {
            old
        },
{
    reveal_with_fuel(over_rects, 2);
    assert(seq![q].drop_last() =~= Seq::empty());
    assert(seq![q].last() == q);
}

proof fn clip_list_is_trap(
    sh: Shading,
    dev: Device,
    st: StoreView,
    gradients: Seq<Gradient>,
    req: &TrapRequest,
    d: Drawable,
    buffer: u64,
    touch: Touch,
    q: CompositeRect,
    clip: Seq<Rectangle16>,
    x: int,
    y: int,
)
    requires
        quad_covers(q, x, y),
        forall|old: Rgba8| #[trigger]
            touch(q, old) == trap_touch(sh, dev, st, gradients, req, d, buffer, x, y, old),
    ensures
        over_clip_list(touch, seq![q], clip, x, y, (dev.images[d.image])(x, y))
            == trap_over_clip_list(sh, dev, st, gradients, req, d, buffer, clip, x, y),
    decreases clip.len(),
{
    if clip.len() > 0 {
        let head = clip.drop_last();
        clip_list_is_trap(sh, dev, st, gradients, req, d, buffer, touch, q, head, x, y);
        one_quad(
            touch,
            q,
            x,
            y,
            over_clip_list(touch, seq![q], head, x, y, (dev.images[d.image])(x, y)),
        );
    }
}

proof fn clip_list_spares(
    touch: Touch,
    q: CompositeRect,
    clip: Seq<Rectangle16>,
    x: int,
    y: int,
    old: Rgba8,
)
    requires
        !quad_covers(q, x, y),
    ensures
        over_clip_list(touch, seq![q], clip, x, y, old) == old,
    decreases clip.len(),
{
    if clip.len() > 0 {
        clip_list_spares(touch, q, clip.drop_last(), x, y, old);
        one_quad(touch, q, x, y, old);
    }
}

proof fn trap_draws_paint(
    sh: Shading,
    dev: Device,
    on: Device,
    st: StoreView,
    gradients: Seq<Gradient>,
    req: &TrapRequest,
    d: Drawable,
    src: Binding,
    mask: MaskImage,
    buffer: u64,
    descriptor: u64,
    x: int,
    y: int,
)
    requires
        trap_ready(dev, req, d, src, mask, descriptor),
        req.placeable(),
        d.extent.covers(x, y),
        st.get(req.dst) == Some(d),
        req.src != ResolvedSource::Drawable(req.dst),
        resolution(
            st,
            gradients,
            req.src,
            false,
            req.dst,
            req.src_repeat,
            req.src_format,
        ) == Resolution::Bound(src),
        on.attached == d.image,
        on.pipeline == Some(trap_pipeline(req, d)),
        on.descriptors == dev.descriptors,
        on.mask_image == dev.mask_image,
        on.tables == dev.tables,
        forall|i: u64| i != mask.image ==> #[trigger] on.images[i] == dev.images[i],
        src matches Binding::Solid(c) ==> on.src_solid == stored(sh, c),
        reads_snapshot(req.op) ==> (on.readback)(x, y) == (dev.images[d.image])(x, y),
        forall|i: int, j: int|
            0 <= i < mask.extent.width && 0 <= j < mask.extent.height ==> (
            #[trigger] (on.images[mask.image])(i, j)).r == if req.bbox.covers(
                req.bbox.offset.x + i,
                req.bbox.offset.y + j,
            ) {
                gathered(
                    sh,
                    req.kind,
                    dev.buffers[buffer],
                    req.count as nat,
                    req.bbox.offset.x + i,
                    req.bbox.offset.y + j,
                )
            } else {
                0
            },
    ensures
        ({
            let q = trap_quad(req, d);
            let touch = device_touch(
                sh,
                on,
                descriptor,
                trap_attrs(st, req, d, src, mask),
                x,
                y,
            );
            &&& quad_covers(q, x, y) == asked_area(req, d).covers(x, y)
            &&& forall|old: Rgba8| #[trigger]
                touch(q, old) == trap_touch(sh, dev, st, gradients, req, d, buffer, x, y, old)
        }),
{
    let q = trap_quad(req, d);
    let attrs = trap_attrs(st, req, d, src, mask);
    let u = q.src_x + x - q.dst_x;
    let v = q.src_y + y - q.dst_y;
    assert(u == x - asked_area(req, d).offset.x);
    assert(v == y - asked_area(req, d).offset.y);
    assert(sampled(sh, on, Some(src), Slot::Src, attrs, u, v) == picture_shows(
        sh,
        dev,
        st,
        gradients,
        req.src,
        req.src_repeat,
        req.src_transform,
        req.src_format,
        u,
        v,
    ));
    let i = q.mask_x + x - q.dst_x;
    let j = q.mask_y + y - q.dst_y;
    assert(i == x - req.bbox.offset.x);
    assert(j == y - req.bbox.offset.y);
    let m = (on.images[mask.image])(i, j);
    assert(sampled(sh, on, None, Slot::Mask, attrs, i, j) == asked_mask(
        sh,
        dev,
        req,
        buffer,
        x,
        y,
    ));
}

/// Painting primitives composites the source, under the operator and the clip
/// that were asked for, through the coverage of every one of them, and changes
/// no other pixel.
pub proof fn traps_paint_every_primitive(
    st: StoreView,
    gradients: Seq<Gradient>,
    req: &TrapRequest,
    d: Drawable,
    src: Binding,
    mask: MaskImage,
    buffer: u64,
    descriptor: u64,
)
    requires
        req.placeable(),
        st.get(req.dst) == Some(d),
        req.src != ResolvedSource::Drawable(req.dst),
        resolution(
            st,
            gradients,
            req.src,
            false,
            req.dst,
            req.src_repeat,
            req.src_format,
        ) == Resolution::Bound(src),
    ensures
        paints_traps(
            trap_commands(st, req, d, src, mask, buffer, descriptor),
            st,
            gradients,
            req,
            d,
            src,
            mask,
            buffer,
            descriptor,
        ),
{
    let cmds = trap_commands(st, req, d, src, mask, buffer, descriptor);
    assert forall|sh: Shading, dev: Device, image: u64, x: int, y: int|
        trap_ready(dev, req, d, src, mask, descriptor) && d.extent.covers(x, y) && image
            != mask.image implies #[trigger] pixel_after(sh, dev, cmds, image, x, y) == if image
        == d.image {
        trap_pixel(sh, dev, st, gradients, req, d, buffer, x, y)
    } else {
        (dev.images[image])(x, y)
    } by {
        traps_paint_pixel(
            sh,
            dev,
            st,
            gradients,
            req,
            d,
            src,
            mask,
            buffer,
            descriptor,
            image,
            x,
            y,
        );
    }
}

proof fn optional_runs(sh: Shading, dev: Device, c: Option<Command>)
    ensures
        device_run(sh, dev, optional(c)) == match c {
            Some(c) => device_step(sh, dev, c),
            None => dev,
        },
{
    if let Some(c) = c {
        device_run_one(sh, dev, c);
    }
}

proof fn traps_paint_pixel(
    sh: Shading,
    dev: Device,
    st: StoreView,
    gradients: Seq<Gradient>,
    req: &TrapRequest,
    d: Drawable,
    src: Binding,
    mask: MaskImage,
    buffer: u64,
    descriptor: u64,
    image: u64,
    x: int,
    y: int,
)
    requires
        trap_ready(dev, req, d, src, mask, descriptor),
        req.placeable(),
        st.get(req.dst) == Some(d),
        req.src != ResolvedSource::Drawable(req.dst),
        resolution(
            st,
            gradients,
            req.src,
            false,
            req.dst,
            req.src_repeat,
            req.src_format,
        ) == Resolution::Bound(src),
        d.extent.covers(x, y),
        image != mask.image,
    ensures
        pixel_after(
            sh,
            dev,
            trap_commands(st, req, d, src, mask, buffer, descriptor),
            image,
            x,
            y,
        ) == if image == d.image {
            trap_pixel(sh, dev, st, gradients, req, d, buffer, x, y)
        } else {
            (dev.images[image])(x, y)
        },
{
    let cmds = trap_commands(st, req, d, src, mask, buffer, descriptor);
    let c1 = match src.spec_clear_color() {
        Some(solid) => Some(Command::ClearSolid { slot: Slot::Src, solid }),
        None => None,
    };
    let c3 = if readback_op(req.op) {
        Some(
            Command::Snapshot {
                of: SnapshotKind::Readback,
                image: d.image,
                layout: d.layout,
                format: d.format,
                extent: d.extent,
            },
        )
    } else {
        None
    };
    let open = Command::OpenComposite {
        image: d.image,
        view: d.view,
        extent: d.extent,
        old: d.layout,
        pipeline: trap_pipeline(req, d),
    };
    let attrs = trap_attrs(st, req, d, src, mask);
    let q = trap_quad(req, d);
    let scissors = trap_scissors(req, d);
    let s1 = optional(c1);
    let s2 = mask_commands(req, mask, buffer);
    let s3 = optional(c3);
    let s4 = seq![open];
    let draws = composite_draws(descriptor, d.extent, attrs, seq![q], scissors);
    let close = Command::CloseComposite { image: d.image };
    assert(cmds =~= s1 + s2 + s3 + s4 + draws + seq![close]);
    let d1 = device_run(sh, dev, s1);
    optional_runs(sh, dev, c1);
    device_run_concat(sh, dev, s1, s2);
    mask_runs(sh, d1, req, mask, buffer);
    let d2 = device_run(sh, d1, s2);
    device_run_concat(sh, dev, s1 + s2, s3);
    optional_runs(sh, d2, c3);
    let d3 = device_run(sh, d2, s3);
    device_run_concat(sh, dev, s1 + s2 + s3, s4);
    device_run_one(sh, d3, open);
    let on = device_step(sh, d3, open);
    device_run_concat(sh, dev, s1 + s2 + s3 + s4, draws);
    draws_run(sh, on, descriptor, attrs, seq![q], scissors, x, y);
    let end = device_run(sh, on, draws);
    device_run_concat(sh, dev, s1 + s2 + s3 + s4 + draws, seq![close]);
    device_run_one(sh, end, close);
    assert(device_run(sh, dev, cmds) == end);
    trap_draws_paint(
        sh,
        dev,
        on,
        st,
        gradients,
        req,
        d,
        src,
        mask,
        buffer,
        descriptor,
        x,
        y,
    );
    let touch = device_touch(sh, on, descriptor, attrs, x, y);
    let old = (dev.images[d.image])(x, y);
    match req.clip {
        None => {
            assert(scissors =~= seq![trap_rect(req, d)]);
            reveal_with_fuel(over_scissors, 2);
            assert(scissors.drop_last() =~= Seq::empty());
            one_quad(touch, q, x, y, old);
            assert(trap_rect(req, d).covers(x, y) == quad_covers(q, x, y));
        },
        Some(list) => {
            scissors_are_clip_list(touch, seq![q], list@, d.extent, x, y, old);
            if quad_covers(q, x, y) {
                clip_list_is_trap(
                    sh,
                    dev,
                    st,
                    gradients,
                    req,
                    d,
                    buffer,
                    touch,
                    q,
                    list@,
                    x,
                    y,
                );
            } else {
                clip_list_spares(touch, q, list@, x, y, old);
            }
        },
    }
}

/// The mask of a request changes with every primitive: it is the coverage of
/// one primitive less, with the last one added.
pub proof fn every_primitive_counts(
    sh: Shading,
    dev: Device,
    req: &TrapRequest,
    buffer: u64,
    x: int,
    y: int,
)
    requires
        req.count > 0,
        req.bbox.covers(x, y),
    ensures
        asked_mask(sh, dev, req, buffer, x, y).a == (sh.gather)(
            gathered(sh, req.kind, dev.buffers[buffer], (req.count - 1) as nat, x, y),
            (sh.cover)(req.kind, dev.buffers[buffer], req.count - 1, x, y),
        ),
{
}

} // verus!
