//! Composites recorded into the open frame.

use vstd::prelude::*;

use crate::command::count_draws;
use crate::composite::{
    bound_plan, check_composite_target, composite_target, damage_of_quads, empty_stats,
    make_bound_plan, make_plan_setup, no_stats, plan_setup, plan_stats, quad_damage, CompositePlan,
    CompositeStats,
};
use crate::copy::usable_ticket;
use crate::engine::{Chore, CloseReason, EngineView, RenderEngine};
use crate::error::{DrawableId, RenderError, VkCode};
use crate::frame::{FrameView, OpView, RecordedOp, RecordedRenderComposite};
use crate::geometry::{build_render_clip_scissors, scissors_of};
use crate::paint::{Decision, Step};
use crate::picture::{
    bind_view, needs_dst_readback, readback_op, resolution, resolve, view_binding, Binding,
    CompositeRequest, PictFormat, Repeat, Resolution, ResolvedSource,
};
use crate::recorded::{composite_is_recorded, records_request};
use crate::store::{Drawable, DrawableStore, Layout, StoreView, Ticket};
use crate::submit::{GroupView, SubmitGroup};

verus! {

impl EngineView {
    /// The engine once its open frame refers to a drawable.
    pub open spec fn referring(self, st: StoreView, id: DrawableId) -> EngineView {
        EngineView {
            frame: Some(self.frame->0.referring(id, st.layout(id), st.ticket(id))),
            ..self
        }
    }

    /// The store once the open frame refers to a drawable.
    pub open spec fn referred_store(self, st: StoreView, id: DrawableId) -> StoreView {
        st.with_ticket(id, Some(self.frame->0.ticket))
    }
}

impl RenderEngine {
    /// Has the open frame refer to a drawable: its layout and ticket are kept
    /// for the case that the frame fails, and it carries the frame's ticket.
    pub fn refer_in_frame(&mut self, store: &mut DrawableStore, id: DrawableId)
        requires
            old(self).frame is Some,
        ensures
            final(self)@ == old(self)@.referring(old(store)@, id),
            final(store)@ == old(self)@.referred_store(old(store)@, id),
            final(self).frame is Some,
    {
        let ghost s = self@;
        let (layout, ticket) = match store.get(id) {
            Some(d) => (d.layout, d.last_render_ticket),
            None => (Layout::Undefined, None),
        };
        match &mut self.frame {
            None => {},
            Some(f) => {
                f.refer(id, layout, ticket);
                store.touch_render_fence(id, f.ticket);
            },
        }
        proof {
            assert(self@ =~= s.referring(old(store)@, id));
        }
    }
}

/// Whether the destination of a composite is also its source or its mask.
pub open spec fn aliased(req: &CompositeRequest) -> bool {
    req.src == ResolvedSource::Drawable(req.dst) || req.mask == ResolvedSource::Drawable(req.dst)
}

pub fn is_aliased(req: &CompositeRequest) -> (r: bool)
    ensures
        r == aliased(req),
{
    let src: bool = match req.src {
        ResolvedSource::Drawable(id) => id == req.dst,
        _ => false,
    };
    let mask: bool = match req.mask {
        ResolvedSource::Drawable(id) => id == req.dst,
        _ => false,
    };
    src || mask
}

/// Whether the snapshot images are large enough for the destination.
#[derive(Clone, Copy, Debug, PartialEq, Eq, Structural)]
pub struct SnapshotFits {
    pub alias: bool,
    pub readback: bool,
}

pub open spec fn grows_alias(req: &CompositeRequest, fits: SnapshotFits) -> bool {
    aliased(req) && !fits.alias
}

pub open spec fn grows_readback(req: &CompositeRequest, fits: SnapshotFits) -> bool {
    readback_op(req.op) && !fits.readback
}

/// What a composite into the open frame does next. A snapshot image is never
/// replaced while the open frame has operations, because these refer to it.
pub open spec fn deferred_decision(
    s: EngineView,
    st: StoreView,
    g: GroupView,
    req: &CompositeRequest,
    fits: SnapshotFits,
) -> Decision<Drawable, CompositeStats> {
    if req.rects@.len() == 0 {
        Decision::Done(Ok(no_stats()))
    } else {
        match s.batch_chore() {
            Some(c) => Decision::Chore(c),
            None => match s.render_asset(g) {
                Err(e) => Decision::Done(Err(e)),
                Ok(Some(asset)) => Decision::Chore(Chore::Build(asset)),
                Ok(None) => match composite_target(st, req.dst, req.op) {
                    Err(e) => Decision::Done(Err(e)),
                    Ok(None) => Decision::Done(Ok(no_stats())),
                    Ok(Some(d)) => if (grows_alias(req, fits) || grows_readback(req, fits)) && (
                    s.frame matches Some(f) && f.ops.len() > 0) {
                        Decision::Chore(Chore::CloseFrame(CloseReason::ScratchGrow))
                    } else {
                        Decision::Paint(d)
                    },
                },
            },
        }
    }
}

/// The device's answers to a composite into the open frame.
#[derive(Clone, Copy)]
pub struct DeferredReply {
    /// The replaced readback image, where it had to grow.
    pub readback_grow: Result<Option<u64>, RenderError>,
    /// The replaced alias image, where it had to grow.
    pub alias_grow: Result<Option<u64>, RenderError>,
    /// A new ticket, where one is wanted.
    pub fresh: Result<Ticket, VkCode>,
    /// Whether the alias image has a view, where it is used.
    pub alias_view: bool,
    /// Whether the readback image has a view, where it is used.
    pub readback_view: bool,
    /// Whether the source's view could be had, where it is a drawable.
    pub src_view: Result<(), VkCode>,
    /// Whether the mask's view could be had, where it is a drawable.
    pub mask_view: Result<(), VkCode>,
    /// The descriptor that binds the pictures, tagged with the frame's tag.
    pub descriptor: Result<u64, RenderError>,
}

/// The state after an operation, and its result.
pub ghost struct Outcome<R> {
    pub engine: EngineView,
    pub store: StoreView,
    pub group: GroupView,
    pub result: Result<R, RenderError>,
}

/// A picture of a deferred composite: another drawable is referred to by the
/// frame before anything can go wrong with it.
pub open spec fn deferred_picture(
    s: EngineView,
    st: StoreView,
    source: ResolvedSource,
    is_mask: bool,
    dst: DrawableId,
    repeat: Repeat,
    pict: PictFormat,
    view: Result<(), VkCode>,
) -> (EngineView, StoreView, Result<Option<Binding>, RenderError>) {
    match source {
        ResolvedSource::Drawable(id) => if id == dst {
            (s, st, Ok(Some(Binding::Alias)))
        } else {
            (
                s.referring(st, id),
                s.referred_store(st, id),
                match st.get(id) {
                    None => Err(RenderError::UnknownDrawable(id)),
                    Some(d) => match view {
                        Err(e) => Err(RenderError::Vk(e)),
                        Ok(_) => Ok(Some(view_binding(id, d, repeat, pict))),
                    },
                },
            )
        },
        _ => (
            s,
            st,
            match resolution(st, s.gradients, source, is_mask, dst, repeat, pict) {
                Resolution::Bound(b) => Ok(Some(b)),
                _ => Ok(None),
            },
        ),
    }
}

/// The frame once a composite is recorded: it leaves the destination to be
/// sampled.
pub open spec fn deferred_frame(
    f: FrameView,
    st: StoreView,
    req: &CompositeRequest,
    p: CompositePlan,
    descriptor: u64,
) -> FrameView {
    f.recorded(
        OpView::RenderComposite {
            dst_id: req.dst,
            setup: plan_setup(p, f.current_layout(req.dst, st.layout(req.dst)), descriptor),
            rects: req.rects@,
            scissors: scissors_of(req.clip, p.dst.extent),
        },
        req.dst,
        Layout::ShaderReadOnly,
    )
}

/// A composite into the open frame once the frame refers to its destination.
pub open spec fn deferred_painted(
    s: EngineView,
    st: StoreView,
    g: GroupView,
    req: &CompositeRequest,
    d: Drawable,
    reply: DeferredReply,
) -> Outcome<CompositeStats> {
    if (aliased(req) && !reply.alias_view) || (readback_op(req.op) && !reply.readback_view) {
        Outcome { engine: s, store: st, group: g, result: Ok(no_stats()) }
    } else {
        let (s1, st1, src) = deferred_picture(
            s,
            st,
            req.src,
            false,
            req.dst,
            req.src_repeat,
            req.src_format,
            reply.src_view,
        );
        match src {
            Err(e) => Outcome { engine: s1, store: st1, group: g, result: Err(e) },
            Ok(None) => Outcome { engine: s1, store: st1, group: g, result: Ok(no_stats()) },
            Ok(Some(src)) => {
                let (s2, st2, mask) = deferred_picture(
                    s1,
                    st1,
                    req.mask,
                    true,
                    req.dst,
                    req.mask_repeat,
                    req.mask_format,
                    reply.mask_view,
                );
                match mask {
                    Err(e) => Outcome { engine: s2, store: st2, group: g, result: Err(e) },
                    Ok(None) => Outcome {
                        engine: s2,
                        store: st2,
                        group: g,
                        result: Ok(no_stats()),
                    },
                    Ok(Some(mask)) => match reply.descriptor {
                        Err(e) => Outcome { engine: s2, store: st2, group: g, result: Err(e) },
                        Ok(descriptor) => {
                            let p = bound_plan(st2, req, d, src, mask);
                            Outcome {
                                engine: EngineView {
                                    frame: Some(
                                        deferred_frame(s2.frame->0, st2, req, p, descriptor),
                                    ),
                                    ..s2
                                },
                                store: st2.damaged(req.dst, quad_damage(req.rects@, d.extent)),
                                group: g,
                                result: Ok(
                                    plan_stats(
                                        p,
                                        req.rects@.len(),
                                        scissors_of(req.clip, d.extent).len(),
                                    ),
                                ),
                            }
                        },
                    },
                }
            },
        }
    }
}

/// A composite into the open frame: snapshot images are replaced before a
/// frame is opened, and what they replace is kept for the work that uses it.
pub open spec fn deferred_outcome(
    s: EngineView,
    st: StoreView,
    g: GroupView,
    req: &CompositeRequest,
    d: Drawable,
    fits: SnapshotFits,
    reply: DeferredReply,
) -> Outcome<CompositeStats> {
    if grows_readback(req, fits) && reply.readback_grow is Err {
        Outcome { engine: s, store: st, group: g, result: Err(reply.readback_grow->Err_0) }
    } else {
        let s1 = if grows_readback(req, fits) {
            s.adopting(reply.readback_grow->Ok_0)
        } else {
            s
        };
        if grows_alias(req, fits) && reply.alias_grow is Err {
            Outcome { engine: s1, store: st, group: g, result: Err(reply.alias_grow->Err_0) }
        } else {
            let s2 = if grows_alias(req, fits) {
                s1.adopting(reply.alias_grow->Ok_0)
            } else {
                s1
            };
            match usable_ticket(s2, g, reply.fresh) {
                Err(e) => Outcome { engine: s2, store: st, group: g, result: Err(e) },
                Ok(fresh) => {
                    let opened = s2.frame_opened(g, fresh);
                    deferred_painted(
                        opened.referring(st, req.dst),
                        opened.referred_store(st, req.dst),
                        s2.frame_group(g, fresh),
                        req,
                        d,
                        reply,
                    )
                },
            }
        }
    }
}

impl RenderEngine {
    /// What a composite into the open frame does next.
    pub fn render_composite_via_frame_builder_plan(
        &self,
        store: &DrawableStore,
        group: &SubmitGroup,
        req: &CompositeRequest,
        fits: SnapshotFits,
    ) -> (r: Decision<Drawable, CompositeStats>)
        ensures
            r == deferred_decision(self@, store@, group@, req, fits),
    {
        if req.rects.len() == 0 {
            return Decision::Done(Ok(empty_stats()));
        }
        match self.batch_chore() {
            Some(c) => {
                return Decision::Chore(c);
            },
            None => {},
        }
        match self.ensure_render_assets(group) {
            Err(e) => {
                return Decision::Done(Err(e));
            },
            Ok(Some(asset)) => {
                return Decision::Chore(Chore::Build(asset));
            },
            Ok(None) => {},
        }
        let d = match check_composite_target(store, req.dst, req.op) {
            Err(e) => {
                return Decision::Done(Err(e));
            },
            Ok(None) => {
                return Decision::Done(Ok(empty_stats()));
            },
            Ok(Some(d)) => d,
        };
        let grows: bool = (is_aliased(req) && !fits.alias) || (needs_dst_readback(req.op)
            && !fits.readback);
        if grows {
            match &self.frame {
                Some(f) => {
                    if f.ops.len() > 0 {
                        return Decision::Chore(Chore::CloseFrame(CloseReason::ScratchGrow));
                    }
                },
                None => {},
            }
        }
        Decision::Paint(d)
    }

    /// Has the open frame refer to a picture of a composite and binds it.
    fn resolve_in_frame(
        &mut self,
        store: &mut DrawableStore,
        source: ResolvedSource,
        is_mask: bool,
        dst: DrawableId,
        repeat: Repeat,
        pict: PictFormat,
        view: Result<(), VkCode>,
    ) -> (r: Result<Option<Binding>, RenderError>)
        requires
            old(self).frame is Some,
        ensures
            final(self).frame is Some,
            ({
                let (s1, st1, b) = deferred_picture(
                    old(self)@,
                    old(store)@,
                    source,
                    is_mask,
                    dst,
                    repeat,
                    pict,
                    view,
                );
                final(self)@ == s1 && final(store)@ == st1 && r == b
            }),
    {
        match source {
            ResolvedSource::Drawable(id) => {
                if id == dst {
                    return Ok(Some(Binding::Alias));
                }
                let found = store.get(id);
                self.refer_in_frame(store, id);
                match found {
                    None => Err(RenderError::UnknownDrawable(id)),
                    Some(d) => match view {
                        Err(e) => Err(RenderError::Vk(e)),
                        Ok(_) => Ok(Some(bind_view(id, d, repeat, pict))),
                    },
                }
            },
            _ => match resolve(store, &self.gradients, source, is_mask, dst, repeat, pict) {
                Resolution::Bound(b) => Ok(Some(b)),
                _ => Ok(None),
            },
        }
    }

    /// Records a composite into the open frame, opening one if needed.
    pub fn render_composite_via_frame_builder(
        &mut self,
        store: &mut DrawableStore,
        group: &mut SubmitGroup,
        req: CompositeRequest,
        fits: SnapshotFits,
        reply: DeferredReply,
    ) -> (r: Step<CompositeStats>)
        ensures
            match deferred_decision(old(self)@, old(store)@, old(group)@, &req, fits) {
                Decision::Chore(c) => r == Step::<CompositeStats>::Chore(c) && final(self)@ == old(
                    self)@ && final(store)@ == old(store)@ && final(group)@ == old(group)@,
                Decision::Done(x) => r == Step::Done(x) && final(self)@ == old(self)@ && final(
                    store)@ == old(store)@ && final(group)@ == old(group)@,
                Decision::Paint(d) => {
                    let o = deferred_outcome(
                        old(self)@,
                        old(store)@,
                        old(group)@,
                        &req,
                        d,
                        fits,
                        reply,
                    );
                    &&& final(self)@ == o.engine
                    &&& final(store)@ == o.store
                    &&& final(group)@ == o.group
                    &&& r == Step::Done(o.result)
                    &&& records_request(
                        old(self)@,
                        old(store)@,
                        old(group)@,
                        &req,
                        fits,
                        reply,
                        final(self)@,
                    )
                },
            },
    {
        let d = match self.render_composite_via_frame_builder_plan(store, group, &req, fits) {
            Decision::Chore(c) => {
                return Step::Chore(c);
            },
            Decision::Done(x) => {
                return Step::Done(x);
            },
            Decision::Paint(d) => d,
        };
        proof {
            composite_is_recorded(self@, store@, group@, &req, fits, reply);
        }
        let alias: bool = is_aliased(&req);
        let readback: bool = needs_dst_readback(req.op);
        if readback && !fits.readback {
            match reply.readback_grow {
                Err(e) => {
                    return Step::Done(Err(e));
                },
                Ok(old_image) => {
                    self.adopt_retired_resource_for_gpu_retirement(old_image);
                },
            }
        }
        if alias && !fits.alias {
            match reply.alias_grow {
                Err(e) => {
                    return Step::Done(Err(e));
                },
                Ok(old_image) => {
                    self.adopt_retired_resource_for_gpu_retirement(old_image);
                },
            }
        }
        let fresh: Ticket = match self.usable_ticket(group, reply.fresh) {
            Ok(t) => t,
            Err(e) => {
                return Step::Done(Err(e));
            },
        };
        self.open_frame(group, fresh);
        self.refer_in_frame(store, req.dst);
        if (alias && !reply.alias_view) || (readback && !reply.readback_view) {
            return Step::Done(Ok(empty_stats()));
        }
        let src = match self.resolve_in_frame(
            store,
            req.src,
            false,
            req.dst,
            req.src_repeat,
            req.src_format,
            reply.src_view,
        ) {
            Err(e) => {
                return Step::Done(Err(e));
            },
            Ok(None) => {
                return Step::Done(Ok(empty_stats()));
            },
            Ok(Some(b)) => b,
        };
        let mask = match self.resolve_in_frame(
            store,
            req.mask,
            true,
            req.dst,
            req.mask_repeat,
            req.mask_format,
            reply.mask_view,
        ) {
            Err(e) => {
                return Step::Done(Err(e));
            },
            Ok(None) => {
                return Step::Done(Ok(empty_stats()));
            },
            Ok(Some(b)) => b,
        };
        let descriptor: u64 = match reply.descriptor {
            Err(e) => {
                return Step::Done(Err(e));
            },
            Ok(x) => x,
        };
        let ghost s2 = self@;
        let plan = make_bound_plan(store, &req, d, src, mask);
        let old_layout = self.current_layout_for_drawable(store, req.dst);
        let setup = make_plan_setup(&plan, old_layout, descriptor);
        let damage = damage_of_quads(&req.rects, d.extent);
        let scissors = build_render_clip_scissors(&req.clip, d.extent);
        let stats = CompositeStats {
            used_dst_readback: plan.readback,
            used_src_alias_scratch: plan.alias,
            recorded_draws: count_draws(req.rects.len(), scissors.len()),
            deferred_to_batch: false,
        };
        let ghost goal = deferred_frame(s2.frame->0, store@, &req, plan, descriptor);
        let dst = req.dst;
        let op = RecordedOp::RenderComposite(
            RecordedRenderComposite { dst_id: dst, setup, rects: req.rects, clip: req.clip },
        );
        match &mut self.frame {
            None => {},
            Some(f) => {
                f.record(op, dst, Layout::ShaderReadOnly);
            },
        }
        proof {
            assert(self@ =~= (EngineView { frame: Some(goal), ..s2 }));
        }
        store.damage_all(dst, &damage);
        Step::Done(Ok(stats))
    }
}

} // verus!
