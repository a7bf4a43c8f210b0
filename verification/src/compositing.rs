//! Composites paint what was asked for: at every pixel the source and the mask
//! at the positions of the request, under the operator and the clip of the
//! request.

use vstd::prelude::*;

use crate::batch::{append_commands, batch_key, batchable};
use crate::command::{
    composite_commands, composite_draws, composite_open, composite_preparation, optional, Color,
    Command, CompositeSetup, PipelineKey, Rgba8, Slot, SnapshotKind,
};
use crate::composite::{bound_plan, plan_setup, CompositePlan};
use crate::device::{
    composite_texel, device_run, device_run_concat, device_run_one, device_step,
    draws_stay_on_target, is_draw, knows, overlaid, pixel_after, placed, quad_covers,
    reads_snapshot, same_but, sampled, stored, transparent, white, wrapped, Device, Shading,
};
use crate::error::DrawableId;
use crate::geometry::{clipped16, clipped_list, scissors_of, Extent, Rect, Rectangle16};
use crate::picture::{
    effective_repeat, find_gradient, force_opaque_format, resolution, Binding, CompositeAttrs,
    CompositeRect, CompositeRequest, Gradient, PictFormat, PictTransform, Repeat, Resolution,
    ResolvedSource,
};
use crate::store::{Drawable, Format, Layout, StoreView};

verus! {

/// What becomes of a pixel under one rectangle of a composite: the rectangle
/// and the pixel as it was.
pub type Touch = spec_fn(CompositeRect, Rgba8) -> Rgba8;

/// A pixel after every rectangle that covers it, in order.
pub open spec fn over_rects(
    touch: Touch,
    rects: Seq<CompositeRect>,
    x: int,
    y: int,
    old: Rgba8,
) -> Rgba8
    decreases rects.len(),
{
    if rects.len() == 0 {
        old
    } else {
        let before = over_rects(touch, rects.drop_last(), x, y, old);
        if quad_covers(rects.last(), x, y) {
            touch(rects.last(), before)
        } else {
            before
        }
    }
}

/// A pixel after all rectangles, once for each clip rectangle that covers it.
pub open spec fn over_clip_list(
    touch: Touch,
    rects: Seq<CompositeRect>,
    clip: Seq<Rectangle16>,
    x: int,
    y: int,
    old: Rgba8,
) -> Rgba8
    decreases clip.len(),
{
    if clip.len() == 0 {
        old
    } else {
        let before = over_clip_list(touch, rects, clip.drop_last(), x, y, old);
        if clip.last().covers(x, y) {
            over_rects(touch, rects, x, y, before)
        } else {
            before
        }
    }
}

/// A pixel after all rectangles under a clip; without a clip they paint
/// everywhere.
pub open spec fn over_clip(
    touch: Touch,
    rects: Seq<CompositeRect>,
    clip: Option<Vec<Rectangle16>>,
    x: int,
    y: int,
    old: Rgba8,
) -> Rgba8 {
    match clip {
        None => over_rects(touch, rects, x, y, old),
        Some(list) => over_clip_list(touch, rects, list@, x, y, old),
    }
}

/// A pixel after all rectangles, once for each scissor that covers it.
pub open spec fn over_scissors(
    touch: Touch,
    rects: Seq<CompositeRect>,
    scissors: Seq<Rect>,
    x: int,
    y: int,
    old: Rgba8,
) -> Rgba8
    decreases scissors.len(),
{
    if scissors.len() == 0 {
        old
    } else {
        let before = over_scissors(touch, rects, scissors.drop_last(), x, y, old);
        if scissors.last().covers(x, y) {
            over_rects(touch, rects, x, y, before)
        } else {
            before
        }
    }
}

proof fn scissors_are_clip(
    touch: Touch,
    rects: Seq<CompositeRect>,
    clip: Option<Vec<Rectangle16>>,
    extent: Extent,
    x: int,
    y: int,
    old: Rgba8,
)
    requires
        extent.covers(x, y),
    ensures
        over_scissors(touch, rects, scissors_of(clip, extent), x, y, old) == over_clip(
            touch,
            rects,
            clip,
            x,
            y,
            old,
        ),
{
    match clip {
        None => {
            let all = seq![Rect::spec_full(extent)];
            reveal_with_fuel(over_scissors, 2);
            assert(all.drop_last() =~= Seq::empty());
            assert(all.last() == Rect::spec_full(extent));
        },
        Some(list) => {
            scissors_are_clip_list(touch, rects, list@, extent, x, y, old);
        },
    }
}

/// The scissors of a clip paint a pixel as often as the clip lets it be
/// painted.
pub proof fn scissors_are_clip_list(
    touch: Touch,
    rects: Seq<CompositeRect>,
    clip: Seq<Rectangle16>,
    extent: Extent,
    x: int,
    y: int,
    old: Rgba8,
)
    requires
        extent.covers(x, y),
    ensures
        over_scissors(touch, rects, clipped_list(clip, extent), x, y, old) == over_clip_list(
            touch,
            rects,
            clip,
            x,
            y,
            old,
        ),
    decreases clip.len(),
{
    if clip.len() > 0 {
        let head = clip.drop_last();
        scissors_are_clip_list(touch, rects, head, extent, x, y, old);
        match clipped16(clip.last(), extent) {
            None => {},
            Some(c) => {
                let list = clipped_list(clip, extent);
                assert(list.drop_last() =~= clipped_list(head, extent));
                assert(c.covers(x, y) <==> clip.last().covers(x, y));
            },
        }
    }
}

/// The draws of all rectangles under one scissor.
spec fn draw_row(
    descriptor: u64,
    extent: Extent,
    attrs: CompositeAttrs,
    rects: Seq<CompositeRect>,
    scissor: Rect,
) -> Seq<Command> {
    rects.map_values(
        |quad: CompositeRect|
            Command::CompositeDraw { descriptor, dst_extent: extent, attrs, quad, scissor },
    )
}

proof fn draws_end_with_row(
    descriptor: u64,
    extent: Extent,
    attrs: CompositeAttrs,
    rects: Seq<CompositeRect>,
    scissors: Seq<Rect>,
)
    requires
        scissors.len() > 0,
    ensures
        composite_draws(descriptor, extent, attrs, rects, scissors) == composite_draws(
            descriptor,
            extent,
            attrs,
            rects,
            scissors.drop_last(),
        ) + draw_row(descriptor, extent, attrs, rects, scissors.last()),
{
    let n = rects.len() as int;
    let m = scissors.len() - 1;
    let all = composite_draws(descriptor, extent, attrs, rects, scissors);
    let head = composite_draws(descriptor, extent, attrs, rects, scissors.drop_last());
    let row = draw_row(descriptor, extent, attrs, rects, scissors.last());
    assert(n * (m + 1) == n * m + n && 0 <= n * m) by (nonlinear_arith)
        requires
            0 <= n,
            0 <= m,
    ;
    assert(head.len() == n * m);
    assert(all.len() == head.len() + row.len());
    assert forall|i: int| 0 <= i < all.len() implies all[i] == (head + row)[i] by {
        if i < n * m {
            vstd::arithmetic::div_mod::lemma_fundamental_div_mod(i, n);
            assert(0 <= i / n < m) by (nonlinear_arith)
                requires
                    0 <= i < n * m,
                    i == n * (i / n) + i % n,
                    0 <= i % n < n,
            ;
            assert(scissors.drop_last()[i / n] == scissors[i / n]);
        } else {
            let off = i - n * m;
            vstd::arithmetic::mul::lemma_mul_is_commutative(n, m);
            vstd::arithmetic::div_mod::lemma_fundamental_div_mod_converse(i, n, m, off);
            assert(scissors[m] == scissors.last());
        }
    }
    assert(all =~= head + row);
}

/// What a device makes of a pixel under one rectangle.
pub open spec fn device_touch(
    sh: Shading,
    dev: Device,
    descriptor: u64,
    attrs: CompositeAttrs,
    x: int,
    y: int,
) -> Touch {
    |q: CompositeRect, old: Rgba8|
        (sh.blend)(
            dev.pipeline->0,
            sampled(
                sh,
                dev,
                Some(dev.descriptors[descriptor].0),
                Slot::Src,
                attrs,
                q.src_x + x - q.dst_x,
                q.src_y + y - q.dst_y,
            ),
            sampled(
                sh,
                dev,
                dev.descriptors[descriptor].1,
                Slot::Mask,
                attrs,
                q.mask_x + x - q.dst_x,
                q.mask_y + y - q.dst_y,
            ),
            if reads_snapshot((dev.pipeline->0).op) {
                (dev.readback)(x, y)
            } else {
                old
            },
        )
}

/// Whether what a slot samples is another image than the one rendered to.
pub open spec fn reads_elsewhere(dev: Device, b: Option<Binding>) -> bool {
    match b {
        None => dev.mask_image != dev.attached,
        Some(Binding::View { image, .. }) => image != dev.attached,
        _ => true,
    }
}

proof fn touch_is_stable(
    sh: Shading,
    a: Device,
    b: Device,
    descriptor: u64,
    attrs: CompositeAttrs,
    x: int,
    y: int,
)
    requires
        same_but(a, b, b.attached),
        reads_elsewhere(b, Some(b.descriptors[descriptor].0)),
        reads_elsewhere(b, b.descriptors[descriptor].1),
    ensures
        device_touch(sh, a, descriptor, attrs, x, y) == device_touch(
            sh,
            b,
            descriptor,
            attrs,
            x,
            y,
        ),
{
    let (src, mask) = b.descriptors[descriptor];
    assert forall|slot: Slot, u: int, v: int| #[trigger]
        sampled(sh, a, Some(src), slot, attrs, u, v) == sampled(
            sh,
            b,
            Some(src),
            slot,
            attrs,
            u,
            v,
        ) by {}
    assert forall|slot: Slot, u: int, v: int| #[trigger]
        sampled(sh, a, mask, slot, attrs, u, v) == sampled(sh, b, mask, slot, attrs, u, v) by {}
    assert(device_touch(sh, a, descriptor, attrs, x, y) =~= device_touch(
        sh,
        b,
        descriptor,
        attrs,
        x,
        y,
    ));
}

proof fn row_runs(
    sh: Shading,
    dev: Device,
    descriptor: u64,
    attrs: CompositeAttrs,
    rects: Seq<CompositeRect>,
    scissor: Rect,
    x: int,
    y: int,
)
    requires
        dev.area.covers(x, y),
        reads_elsewhere(dev, Some(dev.descriptors[descriptor].0)),
        reads_elsewhere(dev, dev.descriptors[descriptor].1),
    ensures
        ({
            let end = device_run(
                sh,
                dev,
                draw_row(descriptor, dev.extents[dev.attached], attrs, rects, scissor),
            );
            let old = (dev.images[dev.attached])(x, y);
            &&& same_but(end, dev, dev.attached)
            &&& (end.images[dev.attached])(x, y) == if scissor.covers(x, y) {
                over_rects(device_touch(sh, dev, descriptor, attrs, x, y), rects, x, y, old)
            } else {
                old
            }
        }),
    decreases rects.len(),
{
    let extent = dev.extents[dev.attached];
    let cmds = draw_row(descriptor, extent, attrs, rects, scissor);
    assert forall|i: int| 0 <= i < cmds.len() implies is_draw(#[trigger] cmds[i]) by {}
    draws_stay_on_target(sh, dev, cmds);
    if rects.len() > 0 {
        let head = rects.drop_last();
        let hcmds = draw_row(descriptor, extent, attrs, head, scissor);
        assert(cmds.drop_last() =~= hcmds);
        row_runs(sh, dev, descriptor, attrs, head, scissor, x, y);
        let mid = device_run(sh, dev, hcmds);
        touch_is_stable(sh, mid, dev, descriptor, attrs, x, y);
        let q = rects.last();
        let now = (mid.images[dev.attached])(x, y);
        assert(cmds.last() == Command::CompositeDraw {
            descriptor,
            dst_extent: extent,
            attrs,
            quad: q,
            scissor,
        });
        assert(composite_texel(sh, mid, descriptor, attrs, q, x, y) == (device_touch(
            sh,
            mid,
            descriptor,
            attrs,
            x,
            y,
        ))(q, now));
    }
}

/// The draws of a composite paint each pixel under the scissors, and nothing but
/// the image that is rendered to.
pub proof fn draws_run(
    sh: Shading,
    dev: Device,
    descriptor: u64,
    attrs: CompositeAttrs,
    rects: Seq<CompositeRect>,
    scissors: Seq<Rect>,
    x: int,
    y: int,
)
    requires
        dev.area.covers(x, y),
        reads_elsewhere(dev, Some(dev.descriptors[descriptor].0)),
        reads_elsewhere(dev, dev.descriptors[descriptor].1),
    ensures
        ({
            let end = device_run(
                sh,
                dev,
                composite_draws(descriptor, dev.extents[dev.attached], attrs, rects, scissors),
            );
            &&& same_but(end, dev, dev.attached)
            &&& (end.images[dev.attached])(x, y) == over_scissors(
                device_touch(sh, dev, descriptor, attrs, x, y),
                rects,
                scissors,
                x,
                y,
                (dev.images[dev.attached])(x, y),
            )
        }),
    decreases scissors.len(),
{
    let extent = dev.extents[dev.attached];
    if scissors.len() == 0 {
        assert(rects.len() * scissors.len() == 0);
        assert(composite_draws(descriptor, extent, attrs, rects, scissors) =~= Seq::empty());
    } else {
        let head = scissors.drop_last();
        let hcmds = composite_draws(descriptor, extent, attrs, rects, head);
        let row = draw_row(descriptor, extent, attrs, rects, scissors.last());
        draws_end_with_row(descriptor, extent, attrs, rects, scissors);
        draws_run(sh, dev, descriptor, attrs, rects, head, x, y);
        let mid = device_run(sh, dev, hcmds);
        device_run_concat(sh, dev, hcmds, row);
        row_runs(sh, mid, descriptor, attrs, rects, scissors.last(), x, y);
        touch_is_stable(sh, mid, dev, descriptor, attrs, x, y);
    }
}

/// What a bound picture shows at a position before the composite: a solid
/// colour shows itself, and the destination what it holds.
pub open spec fn bound_shows(
    sh: Shading,
    dev: Device,
    dst: Drawable,
    b: Binding,
    slot: Slot,
    attrs: CompositeAttrs,
    x: int,
    y: int,
) -> Rgba8 {
    sampled(
        sh,
        Device {
            src_solid: match b {
                Binding::Solid(c) => stored(sh, c),
                _ => dev.src_solid,
            },
            mask_solid: match b {
                Binding::Solid(c) => stored(sh, c),
                _ => dev.mask_solid,
            },
            alias: dev.images[dst.image],
            alias_format: Some(dst.format),
            ..dev
        },
        Some(b),
        slot,
        attrs,
        x,
        y,
    )
}

/// What becomes of a pixel under one rectangle of a planned composite.
pub open spec fn plan_touch(sh: Shading, dev: Device, p: CompositePlan, x: int, y: int) -> Touch {
    |q: CompositeRect, old: Rgba8|
        (sh.blend)(
            p.pipeline,
            bound_shows(
                sh,
                dev,
                p.dst,
                p.src,
                Slot::Src,
                p.attrs,
                q.src_x + x - q.dst_x,
                q.src_y + y - q.dst_y,
            ),
            bound_shows(
                sh,
                dev,
                p.dst,
                p.mask,
                Slot::Mask,
                p.attrs,
                q.mask_x + x - q.dst_x,
                q.mask_y + y - q.dst_y,
            ),
            if reads_snapshot(p.pipeline.op) {
                (dev.images[p.dst.image])(x, y)
            } else {
                old
            },
        )
}

/// Whether a picture is bound to another image than the destination's; the
/// destination itself is bound as its snapshot, with its own size.
pub open spec fn binds_elsewhere(p: CompositePlan, b: Binding, extent: Extent) -> bool {
    match b {
        Binding::View { image, .. } => image != p.dst.image,
        Binding::Alias => extent == p.dst.extent,
        _ => true,
    }
}

/// Whether a plan takes every snapshot that its pictures and its operator read.
pub open spec fn takes_snapshots(p: CompositePlan) -> bool {
    &&& p.alias == (p.src is Alias || p.mask is Alias)
    &&& p.readback == reads_snapshot(p.pipeline.op)
    &&& p.pipeline.format == p.dst.format
}

/// Whether the device is ready for a planned composite: it has the destination,
/// and the descriptor binds the pictures, neither of which is the
/// destination's image.
pub open spec fn ready(dev: Device, p: CompositePlan, descriptor: u64) -> bool {
    &&& knows(dev, p.dst)
    &&& dev.descriptors[descriptor] == (p.src, Some(p.mask))
    &&& binds_elsewhere(p, p.src, p.attrs.src_extent)
    &&& binds_elsewhere(p, p.mask, p.attrs.mask_extent)
}

/// Whether commands paint a planned composite: each pixel of the destination
/// under its rectangles and its clip, and no pixel of any other image.
pub open spec fn paints(
    cmds: Seq<Command>,
    p: CompositePlan,
    descriptor: u64,
    rects: Seq<CompositeRect>,
    clip: Option<Vec<Rectangle16>>,
) -> bool {
    forall|sh: Shading, dev: Device, image: u64, x: int, y: int|
        ready(dev, p, descriptor) && p.dst.extent.covers(x, y) ==> #[trigger] pixel_after(
            sh,
            dev,
            cmds,
            image,
            x,
            y,
        ) == if image == p.dst.image {
            over_clip(
                plan_touch(sh, dev, p, x, y),
                rects,
                clip,
                x,
                y,
                (dev.images[image])(x, y),
            )
        } else {
            (dev.images[image])(x, y)
        }
}

/// What a picture shows at a position lies in its image.
pub proof fn wrapped_is_inside(repeat: Repeat, e: Extent, u: int, v: int)
    ensures
        wrapped(repeat, e, u, v) matches Some((i, j)) ==> 0 <= i < e.width && 0 <= j < e.height,
{
    let w = e.width as int;
    let h = e.height as int;
    if w > 0 && h > 0 {
        vstd::arithmetic::div_mod::lemma_mod_bound(u, w);
        vstd::arithmetic::div_mod::lemma_mod_bound(v, h);
        vstd::arithmetic::div_mod::lemma_mod_bound(u, 2 * w);
        vstd::arithmetic::div_mod::lemma_mod_bound(v, 2 * h);
    }
}

/// The device once the preparation of a composite has run.
spec fn prepared(sh: Shading, dev: Device, c: CompositeSetup) -> Device {
    Device {
        src_solid: match c.src_clear {
            Some(x) => stored(sh, x),
            None => dev.src_solid,
        },
        mask_solid: match c.mask_clear {
            Some(x) => stored(sh, x),
            None => dev.mask_solid,
        },
        alias: if c.alias {
            overlaid(dev.alias, dev.images[c.image], c.extent)
        } else {
            dev.alias
        },
        alias_format: if c.alias {
            Some(c.pipeline.format)
        } else {
            dev.alias_format
        },
        readback: if c.readback {
            overlaid(dev.readback, dev.images[c.image], c.extent)
        } else {
            dev.readback
        },
        ..dev
    }
}

proof fn optional_runs(sh: Shading, dev: Device, c: Option<Command>)
    ensures
        device_run(sh, dev, optional(c)) == match c {
            Some(c) => device_step(sh, dev, c),
            None => dev,
        },
{
    if let Some(c) = c {
        device_run_one(sh, dev, c);
    }
}

proof fn preparation_runs(sh: Shading, dev: Device, c: CompositeSetup)
    ensures
        device_run(sh, dev, composite_preparation(c)) == prepared(sh, dev, c),
{
    let c1 = match c.src_clear {
        Some(solid) => Some(Command::ClearSolid { slot: Slot::Src, solid }),
        None => None,
    };
    let c2 = match c.mask_clear {
        Some(solid) => Some(Command::ClearSolid { slot: Slot::Mask, solid }),
        None => None,
    };
    let snap = |of: SnapshotKind|
        Command::Snapshot {
            of,
            image: c.image,
            layout: c.old_layout,
            format: c.pipeline.format,
            extent: c.extent,
        };
    let c3 = if c.alias {
        Some(snap(SnapshotKind::Alias))
    } else {
        None
    };
    let c4 = if c.readback {
        Some(snap(SnapshotKind::Readback))
    } else {
        None
    };
    let d1 = device_run(sh, dev, optional(c1));
    let d2 = device_run(sh, d1, optional(c2));
    let d3 = device_run(sh, d2, optional(c3));
    optional_runs(sh, dev, c1);
    optional_runs(sh, d1, c2);
    optional_runs(sh, d2, c3);
    optional_runs(sh, d3, c4);
    device_run_concat(sh, dev, optional(c1), optional(c2));
    device_run_concat(sh, dev, optional(c1) + optional(c2), optional(c3));
    device_run_concat(sh, dev, optional(c1) + optional(c2) + optional(c3), optional(c4));
    assert(composite_preparation(c) =~= optional(c1) + optional(c2) + optional(c3) + optional(c4));
    assert(device_run(sh, dev, composite_preparation(c)) =~= prepared(sh, dev, c));
}

proof fn prepared_touch(
    sh: Shading,
    dev: Device,
    on: Device,
    p: CompositePlan,
    descriptor: u64,
    x: int,
    y: int,
)
    requires
        ready(dev, p, descriptor),
        takes_snapshots(p),
        p.dst.extent.covers(x, y),
        exists|layout: Layout, fg: Option<Color>|
            on == (Device {
                attached: p.dst.image,
                area: p.dst.extent,
                pipeline: Some(p.pipeline),
                foreground: fg,
                ..#[trigger] prepared_as(sh, dev, plan_setup(p, layout, descriptor), fg)
            }),
    ensures
        device_touch(sh, on, descriptor, p.attrs, x, y) == plan_touch(sh, dev, p, x, y),
{
    assert forall|slot: Slot, b: Binding, u: int, v: int|
        (slot == Slot::Src && b == p.src) || (slot == Slot::Mask && b == p.mask) implies #[trigger]
        sampled(sh, on, Some(b), slot, p.attrs, u, v) == bound_shows(
        sh,
        dev,
        p.dst,
        b,
        slot,
        p.attrs,
        u,
        v,
    ) by {
        let (gradient, transform, repeat, extent) = match slot {
            Slot::Src => (
                p.attrs.src_gradient,
                p.attrs.src_transform,
                p.attrs.src_repeat,
                p.attrs.src_extent,
            ),
            Slot::Mask => (
                p.attrs.mask_gradient,
                p.attrs.mask_transform,
                p.attrs.mask_repeat,
                p.attrs.mask_extent,
            ),
        };
        let at = placed(sh, gradient, transform, u, v);
        wrapped_is_inside(repeat, extent, at.0, at.1);
    }
    assert(device_touch(sh, on, descriptor, p.attrs, x, y) =~= plan_touch(sh, dev, p, x, y));
}

spec fn prepared_as(
    sh: Shading,
    dev: Device,
    c: CompositeSetup,
    fg: Option<Color>,
) -> Device {
    Device { foreground: fg, ..prepared(sh, dev, c) }
}

/// A composite with a command buffer of its own, or replayed by a frame, paints
/// its plan.
pub proof fn composite_paints_plan(
    p: CompositePlan,
    layout: Layout,
    descriptor: u64,
    rects: Seq<CompositeRect>,
    clip: Option<Vec<Rectangle16>>,
)
    requires
        takes_snapshots(p),
    ensures
        paints(
            composite_commands(
                plan_setup(p, layout, descriptor),
                rects,
                scissors_of(clip, p.dst.extent),
            ),
            p,
            descriptor,
            rects,
            clip,
        ),
{
    let c = plan_setup(p, layout, descriptor);
    let scissors = scissors_of(clip, p.dst.extent);
    let cmds = composite_commands(c, rects, scissors);
    assert forall|sh: Shading, dev: Device, image: u64, x: int, y: int|
        ready(dev, p, descriptor) && p.dst.extent.covers(x, y) implies #[trigger] pixel_after(
        sh,
        dev,
        cmds,
        image,
        x,
        y,
    ) == if image == p.dst.image {
        over_clip(plan_touch(sh, dev, p, x, y), rects, clip, x, y, (dev.images[image])(x, y))
    } else {
        (dev.images[image])(x, y)
    } by {
        let prep = composite_preparation(c);
        let open = seq![composite_open(c)];
        let draws = composite_draws(descriptor, c.extent, c.attrs, rects, scissors);
        let close = seq![Command::CloseComposite { image: c.image }];
        let d1 = prepared(sh, dev, c);
        preparation_runs(sh, dev, c);
        device_run_concat(sh, dev, prep, open);
        device_run_one(sh, d1, composite_open(c));
        let on = device_step(sh, d1, composite_open(c));
        device_run_concat(sh, dev, prep + open, draws);
        draws_run(sh, on, descriptor, c.attrs, rects, scissors, x, y);
        let end = device_run(sh, on, draws);
        device_run_concat(sh, dev, prep + open + draws, close);
        device_run_one(sh, end, Command::CloseComposite { image: c.image });
        assert(on == (Device {
            attached: p.dst.image,
            area: p.dst.extent,
            pipeline: Some(p.pipeline),
            foreground: dev.foreground,
            ..prepared_as(sh, dev, plan_setup(p, layout, descriptor), dev.foreground)
        }));
        prepared_touch(sh, dev, on, p, descriptor, x, y);
        scissors_are_clip(
            plan_touch(sh, dev, p, x, y),
            rects,
            clip,
            p.dst.extent,
            x,
            y,
            (dev.images[p.dst.image])(x, y),
        );
    }
}

/// Whether a picture format says that alpha is padding.
pub open spec fn lacks_alpha(f: PictFormat) -> bool {
    f == PictFormat::Rgb24 || f == PictFormat::Xrgb32
}

/// A pixel of a drawable as a picture of it shows it: one channel images show
/// their channel as alpha, and alpha that is padding shows as opaque.
pub open spec fn drawable_shows(d: Drawable, pict: PictFormat, t: Rgba8) -> Rgba8 {
    let shown = if d.format == Format::R8Unorm {
        Rgba8 { r: 0, g: 0, b: 0, a: t.r }
    } else {
        t
    };
    if d.depth == 24 || lacks_alpha(pict) {
        Rgba8 { a: 255, ..shown }
    } else {
        shown
    }
}

/// What a picture of a request shows at a position: a drawable or a gradient
/// at the position behind its transform, continued as its repeat says; a solid
/// colour everywhere; a missing mask is opaque.
pub open spec fn picture_shows(
    sh: Shading,
    dev: Device,
    st: StoreView,
    gradients: Seq<Gradient>,
    source: ResolvedSource,
    repeat: Repeat,
    transform: Option<PictTransform>,
    pict: PictFormat,
    x: int,
    y: int,
) -> Rgba8 {
    match source {
        ResolvedSource::Solid(c) => stored(sh, c),
        ResolvedSource::Absent => white(),
        ResolvedSource::Drawable(id) => {
            let d = st.get(id)->0;
            let at = placed(sh, None, transform, x, y);
            match wrapped(repeat, d.extent, at.0, at.1) {
                None => transparent(),
                Some((i, j)) => drawable_shows(d, pict, (dev.images[d.image])(i, j)),
            }
        },
        ResolvedSource::Gradient(xid) => {
            let g = find_gradient(gradients, xid)->0;
            let at = placed(sh, Some(xid), transform, x, y);
            match wrapped(repeat, g.extent, at.0, at.1) {
                None => transparent(),
                Some((i, j)) => (dev.tables[g.view])(i, j),
            }
        },
    }
}

/// The pipeline that a request asks for: its operator, the destination's
/// format, whether clients see the destination's alpha, and component alpha.
pub open spec fn asked_pipeline(req: &CompositeRequest, d: Drawable) -> PipelineKey {
    PipelineKey {
        op: req.op,
        format: d.format,
        dst_has_alpha: d.format == Format::R8Unorm || (!lacks_alpha(req.dst_format) && (d.depth
            == 32 || req.dst_format == PictFormat::Argb32)),
        component_alpha: req.component_alpha,
    }
}

/// What becomes of a pixel under one rectangle of a request: the operator that
/// was asked for, on the source and on the mask at the rectangle's positions,
/// each at the same distance from its corner as the pixel from the
/// destination's.
pub open spec fn request_touch(
    sh: Shading,
    dev: Device,
    st: StoreView,
    gradients: Seq<Gradient>,
    req: &CompositeRequest,
    d: Drawable,
    x: int,
    y: int,
) -> Touch {
    |q: CompositeRect, old: Rgba8|
        (sh.blend)(
            asked_pipeline(req, d),
            picture_shows(
                sh,
                dev,
                st,
                gradients,
                req.src,
                req.src_repeat,
                req.src_transform,
                req.src_format,
                q.src_x + (x - q.dst_x),
                q.src_y + (y - q.dst_y),
            ),
            picture_shows(
                sh,
                dev,
                st,
                gradients,
                req.mask,
                req.mask_repeat,
                req.mask_transform,
                req.mask_format,
                q.mask_x + (x - q.dst_x),
                q.mask_y + (y - q.dst_y),
            ),
            if reads_snapshot(req.op) {
                (dev.images[d.image])(x, y)
            } else {
                old
            },
        )
}

/// Whether a plan is what a request asks for: the pictures show what they are
/// asked to, wherever they are sampled, under the pipeline that was asked for,
/// and every snapshot that is read is taken.
pub open spec fn plans(
    p: CompositePlan,
    st: StoreView,
    gradients: Seq<Gradient>,
    req: &CompositeRequest,
    d: Drawable,
) -> bool {
    &&& p.dst == d
    &&& takes_snapshots(p)
    &&& p.src is Alias ==> p.attrs.src_extent == d.extent
    &&& p.mask is Alias ==> p.attrs.mask_extent == d.extent
    &&& forall|sh: Shading, dev: Device, x: int, y: int|
        plan_touch(sh, dev, p, x, y) == #[trigger] request_touch(
            sh,
            dev,
            st,
            gradients,
            req,
            d,
            x,
            y,
        )
}

proof fn bound_is_picture(
    sh: Shading,
    dev: Device,
    st: StoreView,
    gradients: Seq<Gradient>,
    dst: DrawableId,
    source: ResolvedSource,
    is_mask: bool,
    repeat: Repeat,
    transform: Option<PictTransform>,
    pict: PictFormat,
    b: Binding,
    slot: Slot,
    attrs: CompositeAttrs,
    x: int,
    y: int,
)
    requires
        st.has(dst),
        resolution(st, gradients, source, is_mask, dst, repeat, pict) == Resolution::Bound(b),
        ({
            let (gradient, t, r, extent, opaque) = match slot {
                Slot::Src => (
                    attrs.src_gradient,
                    attrs.src_transform,
                    attrs.src_repeat,
                    attrs.src_extent,
                    attrs.src_force_opaque,
                ),
                Slot::Mask => (
                    attrs.mask_gradient,
                    attrs.mask_transform,
                    attrs.mask_repeat,
                    attrs.mask_extent,
                    attrs.mask_force_opaque,
                ),
            };
            &&& gradient == b.spec_gradient()
            &&& t == transform
            &&& r == effective_repeat(b, repeat)
            &&& extent == b.spec_extent(st.get(dst)->0.extent)
            &&& opaque == force_opaque_format(st, source, pict)
        }),
    ensures
        bound_shows(sh, dev, st.get(dst)->0, b, slot, attrs, x, y) == picture_shows(
            sh,
            dev,
            st,
            gradients,
            source,
            repeat,
            transform,
            pict,
            x,
            y,
        ),
{
}

/// The plan of a request is what the request asks for.
pub proof fn plan_is_what_was_asked(
    st: StoreView,
    gradients: Seq<Gradient>,
    req: &CompositeRequest,
    src: Binding,
    mask: Binding,
)
    requires
        st.has(req.dst),
        resolution(st, gradients, req.src, false, req.dst, req.src_repeat, req.src_format)
            == Resolution::Bound(src),
        resolution(st, gradients, req.mask, true, req.dst, req.mask_repeat, req.mask_format)
            == Resolution::Bound(mask),
    ensures
        plans(
            bound_plan(st, req, st.get(req.dst)->0, src, mask),
            st,
            gradients,
            req,
            st.get(req.dst)->0,
        ),
{
    let d = st.get(req.dst)->0;
    let p = bound_plan(st, req, d, src, mask);
    assert forall|sh: Shading, dev: Device, x: int, y: int|
        plan_touch(sh, dev, p, x, y) == #[trigger] request_touch(
            sh,
            dev,
            st,
            gradients,
            req,
            d,
            x,
            y,
        ) by {
        assert forall|u: int, v: int| #[trigger]
            bound_shows(sh, dev, d, src, Slot::Src, p.attrs, u, v) == picture_shows(
                sh,
                dev,
                st,
                gradients,
                req.src,
                req.src_repeat,
                req.src_transform,
                req.src_format,
                u,
                v,
            ) by {
            bound_is_picture(
                sh,
                dev,
                st,
                gradients,
                req.dst,
                req.src,
                false,
                req.src_repeat,
                req.src_transform,
                req.src_format,
                src,
                Slot::Src,
                p.attrs,
                u,
                v,
            );
        }
        assert forall|u: int, v: int| #[trigger]
            bound_shows(sh, dev, d, mask, Slot::Mask, p.attrs, u, v) == picture_shows(
                sh,
                dev,
                st,
                gradients,
                req.mask,
                req.mask_repeat,
                req.mask_transform,
                req.mask_format,
                u,
                v,
            ) by {
            bound_is_picture(
                sh,
                dev,
                st,
                gradients,
                req.dst,
                req.mask,
                true,
                req.mask_repeat,
                req.mask_transform,
                req.mask_format,
                mask,
                Slot::Mask,
                p.attrs,
                u,
                v,
            );
        }
        assert(p.pipeline == asked_pipeline(req, d));
        assert(plan_touch(sh, dev, p, x, y) =~= request_touch(
            sh,
            dev,
            st,
            gradients,
            req,
            d,
            x,
            y,
        ));
    }
}

/// A pixel of the destination after a request: under each of its clip
/// rectangles that covers it, each of its rectangles that covers it.
pub open spec fn asked_pixel(
    sh: Shading,
    dev: Device,
    st: StoreView,
    gradients: Seq<Gradient>,
    req: &CompositeRequest,
    x: int,
    y: int,
) -> Rgba8 {
    let d = st.get(req.dst)->0;
    over_clip(
        request_touch(sh, dev, st, gradients, req, d, x, y),
        req.rects@,
        req.clip,
        x,
        y,
        (dev.images[d.image])(x, y),
    )
}

/// Commands that paint the plan of a request paint the request.
pub proof fn painting_the_plan_paints_the_request(
    cmds: Seq<Command>,
    p: CompositePlan,
    descriptor: u64,
    st: StoreView,
    gradients: Seq<Gradient>,
    req: &CompositeRequest,
    sh: Shading,
    dev: Device,
    x: int,
    y: int,
)
    requires
        plans(p, st, gradients, req, st.get(req.dst)->0),
        paints(cmds, p, descriptor, req.rects@, req.clip),
        ready(dev, p, descriptor),
        st.get(req.dst)->0.extent.covers(x, y),
    ensures
        pixel_after(sh, dev, cmds, st.get(req.dst)->0.image, x, y) == asked_pixel(
            sh,
            dev,
            st,
            gradients,
            req,
            x,
            y,
        ),
{
    let d = st.get(req.dst)->0;
    let touch = request_touch(sh, dev, st, gradients, req, d, x, y);
    assert(plan_touch(sh, dev, p, x, y) == touch);
    assert(p.dst == d);
    let end = pixel_after(sh, dev, cmds, d.image, x, y);
    assert(end == over_clip(
        plan_touch(sh, dev, p, x, y),
        req.rects@,
        req.clip,
        x,
        y,
        (dev.images[d.image])(x, y),
    ));
}

/// Whether exactly one rectangle of a list covers a pixel, namely the `n`th.
pub open spec fn only_rect(rects: Seq<CompositeRect>, n: int, x: int, y: int) -> bool {
    &&& 0 <= n < rects.len()
    &&& forall|i: int| 0 <= i < rects.len() ==> quad_covers(#[trigger] rects[i], x, y) == (i == n)
}

proof fn only_rect_touches_once(
    touch: Touch,
    rects: Seq<CompositeRect>,
    n: int,
    x: int,
    y: int,
    old: Rgba8,
)
    requires
        only_rect(rects, n, x, y),
    ensures
        over_rects(touch, rects, x, y, old) == touch(rects[n], old),
    decreases rects.len(),
{
    let head = rects.drop_last();
    assert(quad_covers(rects[rects.len() - 1], x, y) == (rects.len() - 1 == n));
    if n == rects.len() - 1 {
        assert forall|i: int| 0 <= i < head.len() implies !quad_covers(#[trigger] head[i], x, y) by {
            assert(head[i] == rects[i]);
        }
        no_rect_keeps(touch, head, x, y, old);
    } else {
        assert forall|i: int| 0 <= i < head.len() implies quad_covers(#[trigger] head[i], x, y) == (
        i == n) by {
            assert(head[i] == rects[i]);
        }
        only_rect_touches_once(touch, head, n, x, y, old);
    }
}

proof fn no_rect_keeps(touch: Touch, rects: Seq<CompositeRect>, x: int, y: int, old: Rgba8)
    requires
        forall|i: int| 0 <= i < rects.len() ==> !quad_covers(#[trigger] rects[i], x, y),
    ensures
        over_rects(touch, rects, x, y, old) == old,
    decreases rects.len(),
{
    if rects.len() > 0 {
        let head = rects.drop_last();
        assert forall|i: int| 0 <= i < head.len() implies !quad_covers(#[trigger] head[i], x, y) by {
            assert(head[i] == rects[i]);
        }
        no_rect_keeps(touch, head, x, y, old);
        assert(!quad_covers(rects[rects.len() - 1], x, y));
    }
}

/// How many clip rectangles cover a pixel.
pub open spec fn clips_over(clip: Seq<Rectangle16>, x: int, y: int) -> nat
    decreases clip.len(),
{
    if clip.len() == 0 {
        0
    } else {
        clips_over(clip.drop_last(), x, y) + if clip.last().covers(x, y) {
            1nat
        } else {
            0nat
        }
    }
}

/// How often a clip lets a pixel be painted.
pub open spec fn passes(clip: Option<Vec<Rectangle16>>, x: int, y: int) -> nat {
    match clip {
        None => 1,
        Some(list) => clips_over(list@, x, y),
    }
}

proof fn clip_passes(
    touch: Touch,
    rects: Seq<CompositeRect>,
    clip: Seq<Rectangle16>,
    x: int,
    y: int,
    old: Rgba8,
)
    ensures
        clips_over(clip, x, y) == 0 ==> over_clip_list(touch, rects, clip, x, y, old) == old,
        clips_over(clip, x, y) == 1 ==> over_clip_list(touch, rects, clip, x, y, old) == over_rects(
            touch,
            rects,
            x,
            y,
            old,
        ),
    decreases clip.len(),
{
    if clip.len() > 0 {
        clip_passes(touch, rects, clip.drop_last(), x, y, old);
    }
}

/// Where one clip rectangle and one rectangle of a request cover a pixel, it
/// becomes what the operator makes of the source and of the mask at that
/// rectangle's positions and of what was there.
pub proof fn covered_pixel_is_painted(
    sh: Shading,
    dev: Device,
    st: StoreView,
    gradients: Seq<Gradient>,
    req: &CompositeRequest,
    n: int,
    x: int,
    y: int,
)
    requires
        passes(req.clip, x, y) == 1,
        only_rect(req.rects@, n, x, y),
    ensures
        ({
            let q = req.rects@[n];
            let d = st.get(req.dst)->0;
            asked_pixel(sh, dev, st, gradients, req, x, y) == (sh.blend)(
                asked_pipeline(req, d),
                picture_shows(
                    sh,
                    dev,
                    st,
                    gradients,
                    req.src,
                    req.src_repeat,
                    req.src_transform,
                    req.src_format,
                    q.src_x + (x - q.dst_x),
                    q.src_y + (y - q.dst_y),
                ),
                picture_shows(
                    sh,
                    dev,
                    st,
                    gradients,
                    req.mask,
                    req.mask_repeat,
                    req.mask_transform,
                    req.mask_format,
                    q.mask_x + (x - q.dst_x),
                    q.mask_y + (y - q.dst_y),
                ),
                (dev.images[d.image])(x, y),
            )
        }),
{
    let d = st.get(req.dst)->0;
    let old = (dev.images[d.image])(x, y);
    let touch = request_touch(sh, dev, st, gradients, req, d, x, y);
    only_rect_touches_once(touch, req.rects@, n, x, y, old);
    if let Some(list) = req.clip {
        clip_passes(touch, req.rects@, list@, x, y, old);
    }
}

/// Where no clip rectangle, or no rectangle of a request, covers a pixel, it
/// stays.
pub proof fn uncovered_pixel_stays(
    sh: Shading,
    dev: Device,
    st: StoreView,
    gradients: Seq<Gradient>,
    req: &CompositeRequest,
    x: int,
    y: int,
)
    requires
        passes(req.clip, x, y) == 0 || forall|i: int|
            0 <= i < req.rects@.len() ==> !quad_covers(#[trigger] req.rects@[i], x, y),
    ensures
        asked_pixel(sh, dev, st, gradients, req, x, y) == (dev.images[st.get(req.dst)->0.image])(
            x,
            y,
        ),
{
    let d = st.get(req.dst)->0;
    let old = (dev.images[d.image])(x, y);
    let touch = request_touch(sh, dev, st, gradients, req, d, x, y);
    if passes(req.clip, x, y) == 0 {
        clip_passes(touch, req.rects@, req.clip->0@, x, y, old);
    } else {
        no_rect_keeps(touch, req.rects@, x, y, old);
        if let Some(list) = req.clip {
            no_rect_keeps_clip(touch, req.rects@, list@, x, y, old);
        }
    }
}

proof fn no_rect_keeps_clip(
    touch: Touch,
    rects: Seq<CompositeRect>,
    clip: Seq<Rectangle16>,
    x: int,
    y: int,
    old: Rgba8,
)
    requires
        forall|i: int| 0 <= i < rects.len() ==> !quad_covers(#[trigger] rects[i], x, y),
    ensures
        over_clip_list(touch, rects, clip, x, y, old) == old,
    decreases clip.len(),
{
    if clip.len() > 0 {
        no_rect_keeps_clip(touch, rects, clip.drop_last(), x, y, old);
        no_rect_keeps(touch, rects, x, y, old);
    }
}

/// Whether a clip leaves no pixel of an image.
pub open spec fn clips_all(clip: Option<Vec<Rectangle16>>, extent: Extent) -> bool {
    forall|x: int, y: int| extent.covers(x, y) ==> #[trigger] passes(clip, x, y) == 0
}

/// Without a scissor the clip leaves no pixel.
pub proof fn no_scissor_clips_all(clip: Option<Vec<Rectangle16>>, extent: Extent)
    requires
        scissors_of(clip, extent).len() == 0,
    ensures
        clips_all(clip, extent),
{
    assert forall|x: int, y: int| extent.covers(x, y) implies #[trigger] passes(clip, x, y)
        == 0 by {
        no_scissor_no_clip(clip->0@, extent, x, y);
    }
}

proof fn no_scissor_no_clip(clip: Seq<Rectangle16>, extent: Extent, x: int, y: int)
    requires
        extent.covers(x, y),
        clipped_list(clip, extent).len() == 0,
    ensures
        clips_over(clip, x, y) == 0,
    decreases clip.len(),
{
    if clip.len() > 0 {
        no_scissor_no_clip(clip.drop_last(), extent, x, y);
        assert(clipped16(clip.last(), extent) is None);
    }
}

/// Whether a plan needs nothing before its draws: no colour is cleared and no
/// snapshot is taken.
pub open spec fn draws_only(p: CompositePlan) -> bool {
    !p.alias && !p.readback && !(p.src is Solid) && !(p.mask is Solid)
}

/// Whether the device renders to the destination of a plan through its
/// pipeline, as it does in the middle of a batch.
pub open spec fn in_batch(dev: Device, p: CompositePlan) -> bool {
    &&& dev.attached == p.dst.image
    &&& dev.area == p.dst.extent
    &&& dev.pipeline == Some(p.pipeline)
}

/// Whether commands paint one pixel of a planned composite into a batch: in the
/// middle of one, if it is open, and leaving one open in any case.
pub open spec fn joins_at(
    sh: Shading,
    dev: Device,
    cmds: Seq<Command>,
    open: bool,
    p: CompositePlan,
    descriptor: u64,
    rects: Seq<CompositeRect>,
    clip: Option<Vec<Rectangle16>>,
    image: u64,
    x: int,
    y: int,
) -> bool {
    ready(dev, p, descriptor) && p.dst.extent.covers(x, y) && (open ==> in_batch(dev, p)) ==> {
        &&& in_batch(device_run(sh, dev, cmds), p)
        &&& pixel_after(sh, dev, cmds, image, x, y) == if image == p.dst.image {
            over_clip(
                plan_touch(sh, dev, p, x, y),
                rects,
                clip,
                x,
                y,
                (dev.images[image])(x, y),
            )
        } else {
            (dev.images[image])(x, y)
        }
    }
}

/// Whether commands paint a planned composite into a batch, and no pixel of
/// any other image.
pub open spec fn joins(
    cmds: Seq<Command>,
    open: bool,
    p: CompositePlan,
    descriptor: u64,
    rects: Seq<CompositeRect>,
    clip: Option<Vec<Rectangle16>>,
) -> bool {
    forall|sh: Shading, dev: Device, image: u64, x: int, y: int| #[trigger]
        joins_at(sh, dev, cmds, open, p, descriptor, rects, clip, image, x, y)
}

/// A composite that joins a batch paints its plan, and leaves the batch open
/// for the next.
pub proof fn append_paints_plan(
    open: bool,
    p: CompositePlan,
    descriptor: u64,
    req: &CompositeRequest,
)
    requires
        takes_snapshots(p),
        draws_only(p),
    ensures
        joins(append_commands(open, p, descriptor, req), open, p, descriptor, req.rects@, req.clip),
{
    let rects = req.rects@;
    let clip = req.clip;
    let cmds = append_commands(open, p, descriptor, req);
    assert forall|sh: Shading, dev: Device, image: u64, x: int, y: int| #[trigger]
        joins_at(sh, dev, cmds, open, p, descriptor, rects, clip, image, x, y) by {
        if ready(dev, p, descriptor) && p.dst.extent.covers(x, y) && (open ==> in_batch(dev, p)) {
            append_paints_pixel(sh, dev, open, p, descriptor, req, image, x, y);
        }
    }
}

proof fn append_paints_pixel(
    sh: Shading,
    dev: Device,
    open: bool,
    p: CompositePlan,
    descriptor: u64,
    req: &CompositeRequest,
    image: u64,
    x: int,
    y: int,
)
    requires
        takes_snapshots(p),
        draws_only(p),
        ready(dev, p, descriptor),
        p.dst.extent.covers(x, y),
        open ==> in_batch(dev, p),
    ensures
        joins_at(
            sh,
            dev,
            append_commands(open, p, descriptor, req),
            open,
            p,
            descriptor,
            req.rects@,
            req.clip,
            image,
            x,
            y,
        ),
{
    let c = plan_setup(p, p.dst.layout, descriptor);
    let rects = req.rects@;
    let clip = req.clip;
    let scissors = scissors_of(clip, p.dst.extent);
    let draws = composite_draws(descriptor, p.dst.extent, p.attrs, rects, scissors);
    let cmds = append_commands(open, p, descriptor, req);
    let on = Device {
        attached: p.dst.image,
        area: p.dst.extent,
        pipeline: Some(p.pipeline),
        ..dev
    };
    if open {
        assert(on =~= dev);
    } else {
        device_run_concat(sh, dev, seq![composite_open(c)], draws);
        device_run_one(sh, dev, composite_open(c));
    }
    assert(device_run(sh, dev, cmds) == device_run(sh, on, draws));
    draws_run(sh, on, descriptor, p.attrs, rects, scissors, x, y);
    assert(prepared(sh, dev, c) =~= dev);
    assert(on == (Device {
        attached: p.dst.image,
        area: p.dst.extent,
        pipeline: Some(p.pipeline),
        foreground: dev.foreground,
        ..prepared_as(sh, dev, c, dev.foreground)
    }));
    prepared_touch(sh, dev, on, p, descriptor, x, y);
    scissors_are_clip(
        plan_touch(sh, dev, p, x, y),
        rects,
        clip,
        p.dst.extent,
        x,
        y,
        (dev.images[p.dst.image])(x, y),
    );
}

/// A composite that may join a batch needs nothing before its draws.
pub proof fn batchable_plans_draw_only(
    st: StoreView,
    gradients: Seq<Gradient>,
    req: &CompositeRequest,
    d: Drawable,
    src: Binding,
    mask: Binding,
)
    requires
        batchable(req),
        resolution(st, gradients, req.src, false, req.dst, req.src_repeat, req.src_format)
            == Resolution::Bound(src),
        resolution(st, gradients, req.mask, true, req.dst, req.mask_repeat, req.mask_format)
            == Resolution::Bound(mask),
    ensures
        draws_only(bound_plan(st, req, d, src, mask)),
{
}

/// Composites that share a batch ask for one pipeline and one destination, so
/// that each is painted under its own operator.
pub proof fn batch_members_share_a_pipeline(a: &CompositeRequest, b: &CompositeRequest, d: Drawable)
    requires
        batch_key(a) == batch_key(b),
    ensures
        a.dst == b.dst,
        asked_pipeline(a, d) == asked_pipeline(b, d),
{
}

} // verus!
