//! Trapezoids and triangles: rasterised into a mask, through which a source
//! is then composited.

use vstd::prelude::*;

use crate::command::{
    barrier_to_layout, composite_draws, optional, push_composite_draws, scope, spec_barrier,
    spec_scope, Command, PipelineKey, Scope, Slot, SnapshotKind, TrapPrimKind,
    ACCESS_COLOR_ATTACHMENT_WRITE, ACCESS_NONE, ACCESS_SHADER_SAMPLED_READ, STAGE_ALL_COMMANDS,
    STAGE_COLOR_ATTACHMENT_OUTPUT, STAGE_FRAGMENT_SHADER, STAGE_TOP_OF_PIPE,
};
use crate::composite::{
    check_composite_target, composite_target, drawable_of, empty_stats, no_stats, with_stats,
    CompositeReply, CompositeStats,
};
use crate::compositing::{clips_all, no_scissor_clips_all};
use crate::coverage::{paints_traps, traps_paint_every_primitive};
use crate::engine::{bump, bumped, Chore, EngineView, RenderEngine, Staging};
use crate::error::{DrawableId, RenderError, VkCode};
use crate::frame::saturated;
use crate::geometry::{
    clamp_rect, clamped, clip_rectangles, clipped_list, Extent, Rect, Rectangle16,
};
use crate::paint::{
    paint_abandoned, paint_engine, paint_group, paint_result, paint_store, Decision, Step, Upkeep,
    UpkeepView,
};
use crate::picture::{
    dst_has_alpha_for_pict_format, effective_repeat, force_opaque_format, needs_dst_readback,
    needs_full_dst, readback_op, resolution, resolve, resolve_force_opaque_pict_format,
    spec_dst_has_alpha, unbounded_op, Binding, CompositeAttrs, CompositeRect, PictFormat,
    PictTransform, Repeat, Resolution, ResolvedSource,
};
use crate::store::{Drawable, DrawableStore, Layout, StoreView};
use crate::submit::{GroupView, SubmitGroup};

verus! {

/// A request to paint trapezoids or triangles.
pub struct TrapRequest {
    pub op: u8,
    pub src: ResolvedSource,
    pub dst: DrawableId,
    pub kind: TrapPrimKind,
    pub count: u32,
    /// The box around the primitives, in pixels of the destination.
    pub bbox: Rect,
    pub clip: Option<Vec<Rectangle16>>,
    pub src_repeat: Repeat,
    pub src_transform: Option<PictTransform>,
    pub src_format: PictFormat,
    pub dst_format: PictFormat,
}

impl TrapRequest {
    /// Where the mask starts in the destination can be negated, where it has
    /// to be.
    pub open spec fn placeable(&self) -> bool {
        unbounded_op(self.op) ==> self.bbox.offset.x > i32::MIN && self.bbox.offset.y > i32::MIN
    }
}

/// The mask that primitives are rasterised into.
#[derive(Clone, Copy, Debug, PartialEq, Eq, Structural)]
pub struct MaskImage {
    pub image: u64,
    /// The view to render to.
    pub attachment_view: u64,
    pub extent: Extent,
    pub layout: Layout,
}

/// What painting primitives does next. A destination that is also the source
/// is not painted.
pub open spec fn trap_decision(s: EngineView, st: StoreView, g: GroupView, req: &TrapRequest) -> Decision<
    Drawable,
    CompositeStats,
> {
    match s.frame_chore() {
        Some(c) => Decision::Chore(c),
        None => if req.count == 0 || req.bbox.extent.spec_is_empty() {
            Decision::Done(Ok(no_stats()))
        } else {
            match s.batch_chore() {
                Some(c) => Decision::Chore(c),
                None => match s.render_asset(g) {
                    Err(e) => Decision::Done(Err(e)),
                    Ok(Some(asset)) => Decision::Chore(Chore::Build(asset)),
                    Ok(None) => match s.trap_asset(g) {
                        Err(e) => Decision::Done(Err(e)),
                        Ok(Some(asset)) => Decision::Chore(Chore::Build(asset)),
                        Ok(None) => match composite_target(st, req.dst, req.op) {
                            Err(e) => Decision::Done(Err(e)),
                            Ok(None) => Decision::Done(Ok(no_stats())),
                            Ok(Some(d)) => if req.src == ResolvedSource::Drawable(req.dst) {
                                Decision::Done(Ok(no_stats()))
                            } else {
                                Decision::Paint(d)
                            },
                        },
                    },
                },
            }
        },
    }
}

/// The rectangle that is composited: the whole destination if the operator
/// changes it where the mask is zero, else the box of the primitives.
pub open spec fn trap_rect(req: &TrapRequest, d: Drawable) -> Rect {
    if unbounded_op(req.op) {
        Rect::spec_full(d.extent)
    } else {
        req.bbox
    }
}

/// The quad that is composited. The mask lies at the box of the primitives.
pub open spec fn trap_quad(req: &TrapRequest, d: Drawable) -> CompositeRect {
    let r = trap_rect(req, d);
    CompositeRect {
        src_x: 0,
        src_y: 0,
        mask_x: if unbounded_op(req.op) {
            (-req.bbox.offset.x) as i32
        } else {
            0
        },
        mask_y: if unbounded_op(req.op) {
            (-req.bbox.offset.y) as i32
        } else {
            0
        },
        dst_x: r.offset.x,
        dst_y: r.offset.y,
        width: r.extent.width,
        height: r.extent.height,
    }
}

/// The scissors of the composite.
pub open spec fn trap_scissors(req: &TrapRequest, d: Drawable) -> Seq<Rect> {
    match req.clip {
        None => seq![trap_rect(req, d)],
        Some(list) => clipped_list(list@, d.extent),
    }
}

/// The attributes of the composite. Outside the box the mask is zero.
pub open spec fn trap_attrs(
    st: StoreView,
    req: &TrapRequest,
    d: Drawable,
    src: Binding,
    mask: MaskImage,
) -> CompositeAttrs {
    CompositeAttrs {
        src_extent: src.spec_extent(d.extent),
        mask_extent: mask.extent,
        src_repeat: effective_repeat(src, req.src_repeat),
        mask_repeat: Repeat::Off,
        src_force_opaque: force_opaque_format(st, req.src, req.src_format),
        mask_force_opaque: false,
        src_gradient: src.spec_gradient(),
        mask_gradient: None,
        src_transform: req.src_transform,
        mask_transform: None,
    }
}

/// What the barrier before rasterising waits for.
pub open spec fn mask_wait(layout: Layout) -> Scope {
    match layout {
        Layout::Undefined => spec_scope(STAGE_TOP_OF_PIPE, ACCESS_NONE),
        Layout::ShaderReadOnly => spec_scope(STAGE_FRAGMENT_SHADER, ACCESS_SHADER_SAMPLED_READ),
        _ => spec_scope(STAGE_ALL_COMMANDS, ACCESS_SHADER_SAMPLED_READ),
    }
}

pub open spec fn trap_pipeline(req: &TrapRequest, d: Drawable) -> PipelineKey {
    PipelineKey {
        op: req.op,
        format: d.format,
        dst_has_alpha: spec_dst_has_alpha(d.format, d.depth, req.dst_format),
        component_alpha: false,
    }
}

/// The commands that rasterise the primitives.
pub open spec fn mask_commands(req: &TrapRequest, mask: MaskImage, buffer: u64) -> Seq<Command> {
    seq![
        spec_barrier(
            mask.image,
            mask.layout,
            Layout::ColorAttachment,
            mask_wait(mask.layout),
            spec_scope(STAGE_COLOR_ATTACHMENT_OUTPUT, ACCESS_COLOR_ATTACHMENT_WRITE),
        ),
        Command::BeginMask {
            image: mask.image,
            view: mask.attachment_view,
            extent: mask.extent,
        },
        Command::TrapDraw {
            kind: req.kind,
            buffer,
            count: req.count,
            mask_extent: mask.extent,
            bbox: req.bbox,
        },
        Command::EndRendering { image: mask.image },
        spec_barrier(
            mask.image,
            Layout::ColorAttachment,
            Layout::ShaderReadOnly,
            spec_scope(STAGE_COLOR_ATTACHMENT_OUTPUT, ACCESS_COLOR_ATTACHMENT_WRITE),
            spec_scope(STAGE_FRAGMENT_SHADER, ACCESS_SHADER_SAMPLED_READ),
        ),
    ]
}

/// The commands that paint the primitives.
pub open spec fn trap_commands(
    st: StoreView,
    req: &TrapRequest,
    d: Drawable,
    src: Binding,
    mask: MaskImage,
    buffer: u64,
    descriptor: u64,
) -> Seq<Command> {
    optional(
        match src.spec_clear_color() {
            Some(solid) => Some(Command::ClearSolid { slot: Slot::Src, solid }),
            None => None,
        },
    ) + mask_commands(req, mask, buffer) + optional(
        if readback_op(req.op) {
            Some(
                Command::Snapshot {
                    of: SnapshotKind::Readback,
                    image: d.image,
                    layout: d.layout,
                    format: d.format,
                    extent: d.extent,
                },
            )
        } else {
            None
        },
    ) + seq![
        Command::OpenComposite {
            image: d.image,
            view: d.view,
            extent: d.extent,
            old: d.layout,
            pipeline: trap_pipeline(req, d),
        },
    ] + composite_draws(
        descriptor,
        d.extent,
        trap_attrs(st, req, d, src, mask),
        seq![trap_quad(req, d)],
        trap_scissors(req, d),
    ) + seq![Command::CloseComposite { image: d.image }]
}

/// How the source of the primitives is bound.
pub open spec fn trap_source(s: EngineView, st: StoreView, req: &TrapRequest) -> Resolution {
    resolution(st, s.gradients, req.src, false, req.dst, req.src_repeat, req.src_format)
}

/// The device's answers to painting primitives.
#[derive(Clone, Copy)]
pub struct TrapReply {
    /// The buffer that holds the primitives.
    pub staging: Result<Staging, VkCode>,
    /// The replaced mask image, where it had to grow.
    pub mask_grow: Result<Option<u64>, RenderError>,
    /// The replaced readback image, where one is used and had to grow.
    pub old_readback: Option<u64>,
    pub composite: CompositeReply,
}

/// The engine after it took over the mask and the readback image that
/// primitives replaced.
pub open spec fn trap_adopted(
    s: EngineView,
    st: StoreView,
    req: &TrapRequest,
    reply: TrapReply,
) -> EngineView {
    let t = s.adopting(reply.mask_grow->Ok_0);
    if readback_op(req.op) && trap_source(s, st, req) is Bound {
        t.adopting(reply.old_readback)
    } else {
        t
    }
}

/// The upkeep of painted primitives.
pub open spec fn trap_upkeep(
    s: EngineView,
    req: &TrapRequest,
    d: Drawable,
    staging: Staging,
) -> UpkeepView {
    UpkeepView {
        target: req.dst,
        touches: drawable_of(req.src) + seq![req.dst],
        damage: seq![clamped(trap_rect(req, d), d.extent)],
        staging: Some(staging),
        atlas_ticket: None,
        generation: Some(bumped(s.generation)),
    }
}

/// Whether a command buffer was recorded for primitives.
pub open spec fn trap_painted(
    s: EngineView,
    st: StoreView,
    req: &TrapRequest,
    d: Drawable,
    reply: TrapReply,
) -> bool {
    &&& reply.staging is Ok
    &&& reply.mask_grow is Ok
    &&& trap_source(s, st, req) is Bound
    &&& reply.composite matches CompositeReply::Described { descriptor: Ok(_), .. }
    &&& trap_scissors(req, d).len() > 0
}

/// The engine after painting primitives. Their buffer stays with the command
/// buffer, or may be freed if there is none.
pub open spec fn trap_engine(
    s: EngineView,
    st: StoreView,
    g: GroupView,
    req: &TrapRequest,
    d: Drawable,
    reply: TrapReply,
) -> EngineView {
    match reply.staging {
        Err(_) => s,
        Ok(staging) => match reply.mask_grow {
            Err(_) => paint_abandoned(s, Some(staging)),
            Ok(_) => {
                let adopted = trap_adopted(s, st, req, reply);
                let tagged = if trap_source(s, st, req) is Bound && reply.composite is Described {
                    EngineView { generation: bumped(adopted.generation), ..adopted }
                } else {
                    adopted
                };
                if trap_painted(s, st, req, d, reply) {
                    paint_engine(
                        tagged,
                        g,
                        trap_upkeep(adopted, req, d, staging),
                        reply.composite->paint,
                    )
                } else {
                    paint_abandoned(tagged, Some(staging))
                }
            },
        },
    }
}

/// The store after painting primitives.
pub open spec fn trap_store(
    s: EngineView,
    st: StoreView,
    g: GroupView,
    req: &TrapRequest,
    d: Drawable,
    reply: TrapReply,
) -> StoreView {
    if trap_painted(s, st, req, d, reply) {
        paint_store(
            st,
            g,
            trap_upkeep(trap_adopted(s, st, req, reply), req, d, reply.staging->Ok_0),
            reply.composite->paint,
        )
    } else {
        st
    }
}

/// The group after painting primitives.
pub open spec fn trap_group(
    s: EngineView,
    st: StoreView,
    g: GroupView,
    req: &TrapRequest,
    d: Drawable,
    reply: TrapReply,
) -> GroupView {
    if trap_painted(s, st, req, d, reply) {
        paint_group(g, reply.composite->paint)
    } else {
        g
    }
}

/// The stats of painted primitives.
pub open spec fn trap_stats(req: &TrapRequest, d: Drawable) -> CompositeStats {
    CompositeStats {
        used_dst_readback: readback_op(req.op),
        used_src_alias_scratch: false,
        recorded_draws: saturated(trap_scissors(req, d).len()),
        deferred_to_batch: false,
    }
}

/// The result of painting primitives.
pub open spec fn trap_result(
    s: EngineView,
    st: StoreView,
    g: GroupView,
    req: &TrapRequest,
    d: Drawable,
    reply: TrapReply,
) -> Result<CompositeStats, RenderError> {
    match reply.staging {
        Err(e) => Err(RenderError::Vk(e)),
        Ok(_) => match reply.mask_grow {
            Err(e) => Err(e),
            Ok(_) => match trap_source(s, st, req) {
                Resolution::Unknown(id) => Err(RenderError::UnknownDrawable(id)),
                Resolution::Nothing => Ok(no_stats()),
                Resolution::Bound(_) => match reply.composite {
                    CompositeReply::Skipped => Ok(no_stats()),
                    CompositeReply::Unavailable(e) => Err(e),
                    CompositeReply::Described { descriptor, paint } => match descriptor {
                        Err(e) => Err(e),
                        Ok(_) => if trap_scissors(req, d).len() == 0 {
                            Ok(no_stats())
                        } else {
                            with_stats(paint_result(g, paint), trap_stats(req, d))
                        },
                    },
                },
            },
        },
    }
}

fn rect_of_traps(req: &TrapRequest, d: &Drawable) -> (r: Rect)
    ensures
        r == trap_rect(req, *d),
{
    if needs_full_dst(req.op) {
        Rect::full(d.extent)
    } else {
        req.bbox
    }
}

fn quad_of_traps(req: &TrapRequest, d: &Drawable) -> (r: CompositeRect)
    requires
        req.placeable(),
    ensures
        r == trap_quad(req, *d),
{
    let rect = rect_of_traps(req, d);
    let (mask_x, mask_y): (i32, i32) = if needs_full_dst(req.op) {
        (-req.bbox.offset.x, -req.bbox.offset.y)
    } else {
        (0, 0)
    };
    CompositeRect {
        src_x: 0,
        src_y: 0,
        mask_x,
        mask_y,
        dst_x: rect.offset.x,
        dst_y: rect.offset.y,
        width: rect.extent.width,
        height: rect.extent.height,
    }
}

fn scissors_of_traps(req: &TrapRequest, d: &Drawable) -> (r: Vec<Rect>)
    ensures
        r@ == trap_scissors(req, *d),
{
    match &req.clip {
        None => {
            let mut out: Vec<Rect> = Vec::new();
            out.push(rect_of_traps(req, d));
            proof {
                assert(out@ =~= trap_scissors(req, *d));
            }
            out
        },
        Some(list) => clip_rectangles(list, d.extent),
    }
}

impl RenderEngine {
    /// What painting primitives does next.
    pub fn render_traps_or_tris_plan(
        &self,
        store: &DrawableStore,
        group: &SubmitGroup,
        req: &TrapRequest,
    ) -> (r: Decision<Drawable, CompositeStats>)
        ensures
            r == trap_decision(self@, store@, group@, req),
    {
        match self.close_open_frame_for_own_buffer() {
            Some(c) => {
                return Decision::Chore(c);
            },
            None => {},
        }
        if req.count == 0 || req.bbox.extent.is_empty() {
            return Decision::Done(Ok(empty_stats()));
        }
        match self.batch_chore() {
            Some(c) => {
                return Decision::Chore(c);
            },
            None => {},
        }
        match self.ensure_render_assets(group) {
            Err(e) => {
                return Decision::Done(Err(e));
            },
            Ok(Some(asset)) => {
                return Decision::Chore(Chore::Build(asset));
            },
            Ok(None) => {},
        }
        match self.ensure_trap_assets(group) {
            Err(e) => {
                return Decision::Done(Err(e));
            },
            Ok(Some(asset)) => {
                return Decision::Chore(Chore::Build(asset));
            },
            Ok(None) => {},
        }
        let d = match check_composite_target(store, req.dst, req.op) {
            Err(e) => {
                return Decision::Done(Err(e));
            },
            Ok(None) => {
                return Decision::Done(Ok(empty_stats()));
            },
            Ok(Some(d)) => d,
        };
        match req.src {
            ResolvedSource::Drawable(id) => {
                if id == req.dst {
                    return Decision::Done(Ok(empty_stats()));
                }
            },
            _ => {},
        }
        Decision::Paint(d)
    }

    /// How the source of the primitives is bound.
    pub fn trap_binding(&self, store: &DrawableStore, req: &TrapRequest) -> (r: Resolution)
        ensures
            r == trap_source(self@, store@, req),
    {
        resolve(
            store,
            &self.gradients,
            req.src,
            false,
            req.dst,
            req.src_repeat,
            req.src_format,
        )
    }

    /// The commands that paint primitives; none if nothing is visible.
    pub fn trap_run_commands(
        &self,
        store: &DrawableStore,
        req: &TrapRequest,
        d: &Drawable,
        src: Binding,
        mask: &MaskImage,
        buffer: u64,
        descriptor: u64,
    ) -> (r: Option<Vec<Command>>)
        requires
            req.placeable(),
        ensures
            if trap_scissors(req, *d).len() == 0 {
                r is None
            } else {
                r is Some && r->0@ == trap_commands(
                    store@,
                    req,
                    *d,
                    src,
                    *mask,
                    buffer,
                    descriptor,
                )
            },
            match r {
                None => clips_all(req.clip, d.extent),
                Some(v) => (store@.get(req.dst) == Some(*d) && req.src != ResolvedSource::Drawable(
                    req.dst,
                ) && trap_source(self@, store@, req) == Resolution::Bound(src)) ==> paints_traps(
                    v@,
                    store@,
                    self@.gradients,
                    req,
                    *d,
                    src,
                    *mask,
                    buffer,
                    descriptor,
                ),
            },
    {
        proof {
            if trap_scissors(req, *d).len() == 0 {
                no_scissor_clips_all(req.clip, d.extent);
            }
            if store@.get(req.dst) == Some(*d) && req.src != ResolvedSource::Drawable(req.dst)
                && trap_source(self@, store@, req) == Resolution::Bound(src) {
                traps_paint_every_primitive(
                    store@,
                    self@.gradients,
                    req,
                    *d,
                    src,
                    *mask,
                    buffer,
                    descriptor,
                );
            }
        }
        let scissors = scissors_of_traps(req, d);
        if scissors.len() == 0 {
            return None;
        }
        let mut out: Vec<Command> = Vec::new();
        match src.clear_color() {
            Some(solid) => {
                out.push(Command::ClearSolid { slot: Slot::Src, solid });
            },
            None => {},
        }
        let wait = match mask.layout {
            Layout::Undefined => scope(STAGE_TOP_OF_PIPE, ACCESS_NONE),
            Layout::ShaderReadOnly => scope(STAGE_FRAGMENT_SHADER, ACCESS_SHADER_SAMPLED_READ),
            _ => scope(STAGE_ALL_COMMANDS, ACCESS_SHADER_SAMPLED_READ),
        };
        out.push(
            barrier_to_layout(
                mask.image,
                mask.layout,
                Layout::ColorAttachment,
                wait,
                scope(STAGE_COLOR_ATTACHMENT_OUTPUT, ACCESS_COLOR_ATTACHMENT_WRITE),
            ),
        );
        out.push(
            Command::BeginMask {
                image: mask.image,
                view: mask.attachment_view,
                extent: mask.extent,
            },
        );
        out.push(
            Command::TrapDraw {
                kind: req.kind,
                buffer,
                count: req.count,
                mask_extent: mask.extent,
                bbox: req.bbox,
            },
        );
        out.push(Command::EndRendering { image: mask.image });
        out.push(
            barrier_to_layout(
                mask.image,
                Layout::ColorAttachment,
                Layout::ShaderReadOnly,
                scope(STAGE_COLOR_ATTACHMENT_OUTPUT, ACCESS_COLOR_ATTACHMENT_WRITE),
                scope(STAGE_FRAGMENT_SHADER, ACCESS_SHADER_SAMPLED_READ),
            ),
        );
        if needs_dst_readback(req.op) {
            out.push(
                Command::Snapshot {
                    of: SnapshotKind::Readback,
                    image: d.image,
                    layout: d.layout,
                    format: d.format,
                    extent: d.extent,
                },
            );
        }
        let pipeline = PipelineKey {
            op: req.op,
            format: d.format,
            dst_has_alpha: dst_has_alpha_for_pict_format(d.format, d.depth, req.dst_format),
            component_alpha: false,
        };
        out.push(
            Command::OpenComposite {
                image: d.image,
                view: d.view,
                extent: d.extent,
                old: d.layout,
                pipeline,
            },
        );
        let src_repeat = if src.synthetic() {
            Repeat::Pad
        } else {
            req.src_repeat
        };
        let attrs = CompositeAttrs {
            src_extent: src.extent(d.extent),
            mask_extent: mask.extent,
            src_repeat,
            mask_repeat: Repeat::Off,
            src_force_opaque: resolve_force_opaque_pict_format(store, &req.src, req.src_format),
            mask_force_opaque: false,
            src_gradient: src.gradient(),
            mask_gradient: None,
            src_transform: req.src_transform,
            mask_transform: None,
        };
        let mut quads: Vec<CompositeRect> = Vec::new();
        quads.push(quad_of_traps(req, d));
        proof {
            assert(quads@ =~= seq![trap_quad(req, *d)]);
        }
        push_composite_draws(&mut out, descriptor, d.extent, attrs, &quads, &scissors);
        out.push(Command::CloseComposite { image: d.image });
        proof {
            assert(out@ =~= trap_commands(store@, req, *d, src, *mask, buffer, descriptor));
        }
        Some(out)
    }

    /// Paints trapezoids or triangles, in one command buffer.
    pub fn render_traps_or_tris(
        &mut self,
        store: &mut DrawableStore,
        group: &mut SubmitGroup,
        req: &TrapRequest,
        reply: TrapReply,
    ) -> (r: Step<CompositeStats>)
        ensures
            match trap_decision(old(self)@, old(store)@, old(group)@, req) {
                Decision::Chore(c) => r == Step::<CompositeStats>::Chore(c) && final(self)@ == old(
                    self)@ && final(store)@ == old(store)@ && final(group)@ == old(group)@,
                Decision::Done(x) => r == Step::Done(x) && final(self)@ == old(self)@ && final(
                    store)@ == old(store)@ && final(group)@ == old(group)@,
                Decision::Paint(d) => {
                    &&& final(self)@ == trap_engine(
                        old(self)@,
                        old(store)@,
                        old(group)@,
                        req,
                        d,
                        reply,
                    )
                    &&& final(store)@ == trap_store(
                        old(self)@,
                        old(store)@,
                        old(group)@,
                        req,
                        d,
                        reply,
                    )
                    &&& final(group)@ == trap_group(
                        old(self)@,
                        old(store)@,
                        old(group)@,
                        req,
                        d,
                        reply,
                    )
                    &&& r == Step::Done(
                        trap_result(old(self)@, old(store)@, old(group)@, req, d, reply),
                    )
                },
            },
    {
        let ghost s = self@;
        let d = match self.render_traps_or_tris_plan(store, group, req) {
            Decision::Chore(c) => {
                return Step::Chore(c);
            },
            Decision::Done(x) => {
                return Step::Done(x);
            },
            Decision::Paint(d) => d,
        };
        let staging = match reply.staging {
            Ok(x) => x,
            Err(e) => {
                return Step::Done(Err(RenderError::Vk(e)));
            },
        };
        let source = self.trap_binding(store, req);
        match reply.mask_grow {
            Err(e) => {
                self.abandon(Some(staging));
                return Step::Done(Err(e));
            },
            Ok(old_mask) => {
                self.adopt_retired_resource_for_gpu_retirement(old_mask);
            },
        }
        match source {
            Resolution::Unknown(id) => {
                self.abandon(Some(staging));
                return Step::Done(Err(RenderError::UnknownDrawable(id)));
            },
            Resolution::Nothing => {
                self.abandon(Some(staging));
                return Step::Done(Ok(empty_stats()));
            },
            Resolution::Bound(_) => {},
        }
        if needs_dst_readback(req.op) {
            self.adopt_retired_resource_for_gpu_retirement(reply.old_readback);
        }
        let ghost adopted = self@;
        let (descriptor, paint) = match reply.composite {
            CompositeReply::Skipped => {
                self.abandon(Some(staging));
                return Step::Done(Ok(empty_stats()));
            },
            CompositeReply::Unavailable(e) => {
                self.abandon(Some(staging));
                return Step::Done(Err(e));
            },
            CompositeReply::Described { descriptor, paint } => (descriptor, paint),
        };
        self.acquire_generation = bump(self.acquire_generation);
        proof {
            assert(self@ =~= (EngineView { generation: bumped(adopted.generation), ..adopted }));
        }
        match descriptor {
            Err(e) => {
                self.abandon(Some(staging));
                return Step::Done(Err(e));
            },
            Ok(_) => {},
        }
        let scissors = scissors_of_traps(req, &d);
        let visible: usize = scissors.len();
        if visible == 0 {
            self.abandon(Some(staging));
            return Step::Done(Ok(empty_stats()));
        }
        let mut touches: Vec<DrawableId> = Vec::new();
        match req.src {
            ResolvedSource::Drawable(id) => {
                touches.push(id);
            },
            _ => {},
        }
        touches.push(req.dst);
        let mut damage: Vec<Rect> = Vec::new();
        damage.push(clamp_rect(rect_of_traps(req, &d), d.extent));
        let up = Upkeep {
            target: req.dst,
            touches,
            damage,
            staging: Some(staging),
            atlas_ticket: None,
            generation: Some(self.acquire_generation),
        };
        proof {
            assert(up@ =~= trap_upkeep(adopted, req, d, staging));
        }
        match self.commit_paint(store, group, up, paint) {
            Err(e) => Step::Done(Err(e)),
            Ok(_) => Step::Done(
                Ok(
                    CompositeStats {
                        used_dst_readback: needs_dst_readback(req.op),
                        used_src_alias_scratch: false,
                        recorded_draws: if visible <= 0xffff_ffff {
                            visible as u32
                        } else {
                            u32::MAX
                        },
                        deferred_to_batch: false,
                    },
                ),
            ),
        }
    }
}

} // verus!
