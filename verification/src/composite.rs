//! RENDER composites: what they read and where they paint, shared by every
//! way of recording them.

use vstd::prelude::*;

use crate::command::{
    composite_commands, count_draws, draw_count, record_render_composite, Command, CompositeSetup,
    PipelineKey,
};
use crate::compositing::{
    clips_all, composite_paints_plan, no_scissor_clips_all, paints, plan_is_what_was_asked, plans,
    takes_snapshots,
};
use crate::engine::{bump, bumped, EngineView, RenderEngine};
use crate::error::{DrawableId, RenderError};
use crate::geometry::{
    build_render_clip_scissors, clamp_rect, clamped, scissors_of, Extent, Offset, Rect,
};
use crate::paint::{
    paint_engine, paint_group, paint_result, paint_store, PaintReply, Upkeep, UpkeepView,
};
use crate::picture::{
    build_render_composite_attrs, dst_has_alpha_for_pict_format, is_known_op, known_op,
    needs_dst_readback, readback_op, resolution, resolve, spec_attrs, spec_dst_has_alpha, Binding,
    CompositeAttrs, CompositeRect, CompositeRequest, Resolution, ResolvedSource,
};
use crate::store::{Drawable, DrawableStore, Format, Layout, StoreView};
use crate::submit::{GroupView, SubmitGroup};

verus! {

/// What a composite did.
#[derive(Clone, Copy, Debug, PartialEq, Eq, Structural)]
pub struct CompositeStats {
    /// Whether the operator read the destination in the shader.
    pub used_dst_readback: bool,
    /// Whether the destination was also source or mask.
    pub used_src_alias_scratch: bool,
    /// The draws: quads times clip rectangles.
    pub recorded_draws: u32,
    /// Whether the composite joined an open batch.
    pub deferred_to_batch: bool,
}

/// The stats of a composite that painted nothing.
pub open spec fn no_stats() -> CompositeStats {
    CompositeStats {
        used_dst_readback: false,
        used_src_alias_scratch: false,
        recorded_draws: 0,
        deferred_to_batch: false,
    }
}

pub fn empty_stats() -> (r: CompositeStats)
    ensures
        r == no_stats(),
{
    CompositeStats {
        used_dst_readback: false,
        used_src_alias_scratch: false,
        recorded_draws: 0,
        deferred_to_batch: false,
    }
}

/// The destination of a composite; `None` if it cannot be painted in this way:
/// it is empty, its storage format is foreign, or the operator is unknown.
pub open spec fn composite_target(st: StoreView, dst: DrawableId, op: u8) -> Result<
    Option<Drawable>,
    RenderError,
> {
    match st.get(dst) {
        None => Err(RenderError::UnknownDrawable(dst)),
        Some(d) => if d.extent.spec_is_empty() || d.format is Other || !known_op(op) {
            Ok(None)
        } else {
            Ok(Some(d))
        },
    }
}

pub fn check_composite_target(store: &DrawableStore, dst: DrawableId, op: u8) -> (r: Result<
    Option<Drawable>,
    RenderError,
>)
    ensures
        r == composite_target(store@, dst, op),
{
    match store.get(dst) {
        None => Err(RenderError::UnknownDrawable(dst)),
        Some(d) => {
            if d.extent.is_empty() {
                return Ok(None);
            }
            match d.format {
                Format::Other(_) => {
                    return Ok(None);
                },
                _ => {},
            }
            if !is_known_op(op) {
                return Ok(None);
            }
            Ok(Some(d))
        },
    }
}

/// A composite whose pictures are bound.
#[derive(Clone, Copy, Debug, PartialEq, Eq, Structural)]
pub struct CompositePlan {
    pub dst: Drawable,
    pub src: Binding,
    pub mask: Binding,
    pub pipeline: PipelineKey,
    pub attrs: CompositeAttrs,
    /// Whether the destination is also source or mask, so that a snapshot of
    /// it is sampled in its place.
    pub alias: bool,
    /// Whether the operator reads a snapshot of the destination.
    pub readback: bool,
}

pub open spec fn pipeline_key(req: &CompositeRequest, d: Drawable) -> PipelineKey {
    PipelineKey {
        op: req.op,
        format: d.format,
        dst_has_alpha: spec_dst_has_alpha(d.format, d.depth, req.dst_format),
        component_alpha: req.component_alpha,
    }
}

pub fn make_pipeline_key(req: &CompositeRequest, d: &Drawable) -> (r: PipelineKey)
    ensures
        r == pipeline_key(req, *d),
{
    PipelineKey {
        op: req.op,
        format: d.format,
        dst_has_alpha: dst_has_alpha_for_pict_format(d.format, d.depth, req.dst_format),
        component_alpha: req.component_alpha,
    }
}

/// The plan of a composite whose pictures are bound.
pub open spec fn bound_plan(
    st: StoreView,
    req: &CompositeRequest,
    d: Drawable,
    src: Binding,
    mask: Binding,
) -> CompositePlan {
    CompositePlan {
        dst: d,
        src,
        mask,
        pipeline: pipeline_key(req, d),
        attrs: spec_attrs(st, req, src, mask, d.extent),
        alias: src is Alias || mask is Alias,
        readback: readback_op(req.op),
    }
}

pub fn make_bound_plan(
    store: &DrawableStore,
    req: &CompositeRequest,
    d: Drawable,
    src: Binding,
    mask: Binding,
) -> (r: CompositePlan)
    ensures
        r == bound_plan(store@, req, d, src, mask),
{
    let src_alias = match src {
        Binding::Alias => true,
        _ => false,
    };
    let mask_alias = match mask {
        Binding::Alias => true,
        _ => false,
    };
    CompositePlan {
        dst: d,
        src,
        mask,
        pipeline: make_pipeline_key(req, &d),
        attrs: build_render_composite_attrs(store, req, src, mask, d.extent),
        alias: src_alias || mask_alias,
        readback: needs_dst_readback(req.op),
    }
}

/// The resolution of a composite's source.
pub open spec fn src_resolution(s: EngineView, st: StoreView, req: &CompositeRequest) -> Resolution {
    resolution(st, s.gradients, req.src, false, req.dst, req.src_repeat, req.src_format)
}

/// The resolution of a composite's mask.
pub open spec fn mask_resolution(s: EngineView, st: StoreView, req: &CompositeRequest) -> Resolution {
    resolution(st, s.gradients, req.mask, true, req.dst, req.mask_repeat, req.mask_format)
}

/// The plan of a composite onto `d`; `None` if there is nothing to paint.
pub open spec fn composite_plan(
    s: EngineView,
    st: StoreView,
    req: &CompositeRequest,
    d: Drawable,
) -> Result<Option<CompositePlan>, RenderError> {
    match src_resolution(s, st, req) {
        Resolution::Unknown(id) => Err(RenderError::UnknownDrawable(id)),
        Resolution::Nothing => Ok(None),
        Resolution::Bound(src) => match mask_resolution(s, st, req) {
            Resolution::Unknown(id) => Err(RenderError::UnknownDrawable(id)),
            Resolution::Nothing => Ok(None),
            Resolution::Bound(mask) => Ok(Some(bound_plan(st, req, d, src, mask))),
        },
    }
}

impl RenderEngine {
    /// Binds the pictures of a composite onto `d`.
    pub fn plan_composite(&self, store: &DrawableStore, req: &CompositeRequest, d: Drawable) -> (r:
        Result<Option<CompositePlan>, RenderError>)
        ensures
            r == composite_plan(self@, store@, req, d),
            (r matches Ok(Some(p)) && store@.get(req.dst) == Some(d)) ==> plans(
                r->Ok_0->0,
                store@,
                self@.gradients,
                req,
                d,
            ),
    {
        let src = match resolve(
            store,
            &self.gradients,
            req.src,
            false,
            req.dst,
            req.src_repeat,
            req.src_format,
        ) {
            Resolution::Unknown(id) => {
                return Err(RenderError::UnknownDrawable(id));
            },
            Resolution::Nothing => {
                return Ok(None);
            },
            Resolution::Bound(b) => b,
        };
        let mask = match resolve(
            store,
            &self.gradients,
            req.mask,
            true,
            req.dst,
            req.mask_repeat,
            req.mask_format,
        ) {
            Resolution::Unknown(id) => {
                return Err(RenderError::UnknownDrawable(id));
            },
            Resolution::Nothing => {
                return Ok(None);
            },
            Resolution::Bound(b) => b,
        };
        proof {
            if store@.get(req.dst) == Some(d) {
                plan_is_what_was_asked(store@, self@.gradients, req, src, mask);
            }
        }
        Ok(Some(make_bound_plan(store, req, d, src, mask)))
    }
}

/// Everything that the commands of a planned composite depend on.
pub open spec fn plan_setup(p: CompositePlan, old_layout: Layout, descriptor: u64) -> CompositeSetup {
    CompositeSetup {
        image: p.dst.image,
        view: p.dst.view,
        extent: p.dst.extent,
        old_layout,
        pipeline: p.pipeline,
        attrs: p.attrs,
        descriptor,
        src_clear: p.src.spec_clear_color(),
        mask_clear: p.mask.spec_clear_color(),
        alias: p.alias,
        readback: p.readback,
    }
}

pub fn make_plan_setup(p: &CompositePlan, old_layout: Layout, descriptor: u64) -> (r:
    CompositeSetup)
    ensures
        r == plan_setup(*p, old_layout, descriptor),
{
    CompositeSetup {
        image: p.dst.image,
        view: p.dst.view,
        extent: p.dst.extent,
        old_layout,
        pipeline: p.pipeline,
        attrs: p.attrs,
        descriptor,
        src_clear: p.src.clear_color(),
        mask_clear: p.mask.clear_color(),
        alias: p.alias,
        readback: p.readback,
    }
}

/// The rectangle that a quad paints.
pub open spec fn quad_rect(q: CompositeRect) -> Rect {
    Rect {
        offset: Offset { x: q.dst_x, y: q.dst_y },
        extent: Extent { width: q.width, height: q.height },
    }
}

/// The damage of a composite: the part of each quad inside the destination.
pub open spec fn quad_damage(quads: Seq<CompositeRect>, extent: Extent) -> Seq<Rect> {
    quads.map_values(|q: CompositeRect| clamped(quad_rect(q), extent))
}

pub fn damage_of_quads(quads: &Vec<CompositeRect>, extent: Extent) -> (r: Vec<Rect>)
    ensures
        r@ == quad_damage(quads@, extent),
{
    let mut out: Vec<Rect> = Vec::new();
    let mut i: usize = 0;
    proof {
        assert(out@ =~= quad_damage(quads@.take(0), extent));
    }
    while i < quads.len()
        invariant
            i <= quads.len(),
            out@ == quad_damage(quads@.take(i as int), extent),
        decreases quads.len() - i,
    {
        let q = quads[i];
        let rect = Rect {
            offset: Offset { x: q.dst_x, y: q.dst_y },
            extent: Extent { width: q.width, height: q.height },
        };
        out.push(clamp_rect(rect, extent));
        i = i + 1;
        proof {
            assert(out@ =~= quad_damage(quads@.take(i as int), extent));
        }
    }
    proof {
        assert(quads@.take(i as int) =~= quads@);
    }
    out
}

/// The drawable behind a picture, if there is one.
pub open spec fn drawable_of(src: ResolvedSource) -> Seq<DrawableId> {
    match src {
        ResolvedSource::Drawable(id) => seq![id],
        _ => Seq::empty(),
    }
}

/// The drawables that a composite refers to: source, mask, destination.
pub open spec fn composite_touches(req: &CompositeRequest) -> Seq<DrawableId> {
    drawable_of(req.src) + drawable_of(req.mask) + seq![req.dst]
}

fn push_drawable(out: &mut Vec<DrawableId>, src: ResolvedSource)
    ensures
        final(out)@ == old(out)@ + drawable_of(src),
{
    let ghost start = out@;
    match src {
        ResolvedSource::Drawable(id) => {
            out.push(id);
        },
        _ => {},
    }
    proof {
        assert(out@ =~= start + drawable_of(src));
    }
}

pub fn touches_of(req: &CompositeRequest) -> (r: Vec<DrawableId>)
    ensures
        r@ == composite_touches(req),
{
    let mut out: Vec<DrawableId> = Vec::new();
    push_drawable(&mut out, req.src);
    push_drawable(&mut out, req.mask);
    out.push(req.dst);
    proof {
        assert(out@ =~= composite_touches(req));
    }
    out
}

/// The stats of a composite that was painted.
pub open spec fn plan_stats(p: CompositePlan, quads: nat, scissors: nat) -> CompositeStats {
    CompositeStats {
        used_dst_readback: p.readback,
        used_src_alias_scratch: p.alias,
        recorded_draws: draw_count(quads, scissors),
        deferred_to_batch: false,
    }
}

/// What comes of a composite whose command buffer was recorded.
pub open spec fn with_stats(r: Result<(), RenderError>, stats: CompositeStats) -> Result<
    CompositeStats,
    RenderError,
> {
    match r {
        Ok(_) => Ok(stats),
        Err(e) => Err(e),
    }
}

/// The device's answers to a composite with a command buffer of its own.
#[derive(Clone, Copy)]
pub enum CompositeReply {
    /// A snapshot view was missing; the composite is skipped.
    Skipped,
    /// A view, a snapshot image or a pipeline could not be had.
    Unavailable(RenderError),
    /// `descriptor` binds the pictures; it carries the tag that was taken.
    Described { descriptor: Result<u64, RenderError>, paint: PaintReply },
}

/// The upkeep of a composite with a command buffer of its own.
pub open spec fn own_upkeep(s: EngineView, req: &CompositeRequest, p: CompositePlan) -> UpkeepView {
    UpkeepView {
        target: req.dst,
        touches: composite_touches(req),
        damage: quad_damage(req.rects@, p.dst.extent),
        staging: None,
        atlas_ticket: None,
        generation: Some(bumped(s.generation)),
    }
}

/// The engine after a composite with a command buffer of its own. A tag is
/// taken for the descriptor even if nothing is visible.
pub open spec fn own_engine(
    s: EngineView,
    g: GroupView,
    req: &CompositeRequest,
    p: CompositePlan,
    reply: CompositeReply,
) -> EngineView {
    match reply {
        CompositeReply::Skipped => s,
        CompositeReply::Unavailable(_) => s,
        CompositeReply::Described { descriptor, paint } => {
            let tagged = EngineView { generation: bumped(s.generation), ..s };
            if descriptor is Err || scissors_of(req.clip, p.dst.extent).len() == 0 {
                tagged
            } else {
                paint_engine(tagged, g, own_upkeep(s, req, p), paint)
            }
        },
    }
}

/// The store after a composite with a command buffer of its own.
pub open spec fn own_store(
    s: EngineView,
    st: StoreView,
    g: GroupView,
    req: &CompositeRequest,
    p: CompositePlan,
    reply: CompositeReply,
) -> StoreView {
    match reply {
        CompositeReply::Described { descriptor: Ok(_), paint } => if scissors_of(
            req.clip,
            p.dst.extent,
        ).len() == 0 {
            st
        } else {
            paint_store(st, g, own_upkeep(s, req, p), paint)
        },
        _ => st,
    }
}

/// The group after a composite with a command buffer of its own.
pub open spec fn own_group(
    g: GroupView,
    req: &CompositeRequest,
    p: CompositePlan,
    reply: CompositeReply,
) -> GroupView {
    match reply {
        CompositeReply::Described { descriptor: Ok(_), paint } => if scissors_of(
            req.clip,
            p.dst.extent,
        ).len() == 0 {
            g
        } else {
            paint_group(g, paint)
        },
        _ => g,
    }
}

/// The result of a composite with a command buffer of its own.
pub open spec fn own_result(
    g: GroupView,
    req: &CompositeRequest,
    p: CompositePlan,
    reply: CompositeReply,
) -> Result<CompositeStats, RenderError> {
    match reply {
        CompositeReply::Skipped => Ok(no_stats()),
        CompositeReply::Unavailable(e) => Err(e),
        CompositeReply::Described { descriptor, paint } => match descriptor {
            Err(e) => Err(e),
            Ok(_) => {
                let scissors = scissors_of(req.clip, p.dst.extent);
                if scissors.len() == 0 {
                    Ok(no_stats())
                } else {
                    with_stats(
                        paint_result(g, paint),
                        plan_stats(p, req.rects@.len(), scissors.len()),
                    )
                }
            },
        },
    }
}

impl RenderEngine {
    /// The commands of a composite with a command buffer of its own; none if
    /// nothing is visible.
    pub fn own_composite_commands(
        &self,
        req: &CompositeRequest,
        plan: &CompositePlan,
        descriptor: u64,
    ) -> (r: Option<Vec<Command>>)
        ensures
            ({
                let scissors = scissors_of(req.clip, plan.dst.extent);
                if scissors.len() == 0 {
                    r is None
                } else {
                    r is Some && r->0@ == composite_commands(
                        plan_setup(*plan, plan.dst.layout, descriptor),
                        req.rects@,
                        scissors,
                    )
                }
            }),
            match r {
                None => clips_all(req.clip, plan.dst.extent),
                Some(v) => takes_snapshots(*plan) ==> paints(
                    v@,
                    *plan,
                    descriptor,
                    req.rects@,
                    req.clip,
                ),
            },
    {
        proof {
            if scissors_of(req.clip, plan.dst.extent).len() == 0 {
                no_scissor_clips_all(req.clip, plan.dst.extent);
            }
            if takes_snapshots(*plan) {
                composite_paints_plan(
                    *plan,
                    plan.dst.layout,
                    descriptor,
                    req.rects@,
                    req.clip,
                );
            }
        }
        let scissors = build_render_clip_scissors(&req.clip, plan.dst.extent);
        if scissors.len() == 0 {
            return None;
        }
        let setup = make_plan_setup(plan, plan.dst.layout, descriptor);
        let mut out: Vec<Command> = Vec::new();
        record_render_composite(&mut out, &setup, &req.rects, &scissors);
        proof {
            assert(out@ =~= composite_commands(setup, req.rects@, scissors@));
        }
        Some(out)
    }

    /// Keeps the books of a composite with a command buffer of its own.
    pub fn commit_own_composite(
        &mut self,
        store: &mut DrawableStore,
        group: &mut SubmitGroup,
        req: &CompositeRequest,
        plan: &CompositePlan,
        reply: CompositeReply,
    ) -> (r: Result<CompositeStats, RenderError>)
        ensures
            final(self)@ == own_engine(old(self)@, old(group)@, req, *plan, reply),
            final(store)@ == own_store(old(self)@, old(store)@, old(group)@, req, *plan, reply),
            final(group)@ == own_group(old(group)@, req, *plan, reply),
            r == own_result(old(group)@, req, *plan, reply),
    {
        let ghost s = self@;
        match reply {
            CompositeReply::Skipped => Ok(empty_stats()),
            CompositeReply::Unavailable(e) => Err(e),
            CompositeReply::Described { descriptor, paint } => {
                self.acquire_generation = bump(self.acquire_generation);
                proof {
                    assert(self@ =~= (EngineView { generation: bumped(s.generation), ..s }));
                }
                match descriptor {
                    Err(e) => {
                        return Err(e);
                    },
                    Ok(_) => {},
                }
                let scissors = build_render_clip_scissors(&req.clip, plan.dst.extent);
                if scissors.len() == 0 {
                    return Ok(empty_stats());
                }
                let up = Upkeep {
                    target: req.dst,
                    touches: touches_of(req),
                    damage: damage_of_quads(&req.rects, plan.dst.extent),
                    staging: None,
                    atlas_ticket: None,
                    generation: Some(self.acquire_generation),
                };
                proof {
                    assert(up@ =~= own_upkeep(s, req, *plan));
                }
                match self.commit_paint(store, group, up, paint) {
                    Err(e) => Err(e),
                    Ok(_) => Ok(
                        CompositeStats {
                            used_dst_readback: plan.readback,
                            used_src_alias_scratch: plan.alias,
                            recorded_draws: count_draws(req.rects.len(), scissors.len()),
                            deferred_to_batch: false,
                        },
                    ),
                }
            },
        }
    }
}

} // verus!
