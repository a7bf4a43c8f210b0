//! Which way a composite or a text run is recorded.

use vstd::prelude::*;

use crate::batch::{
    append_engine, append_group, append_result, append_store, direct_decision,
    snapshots_replaced, DirectPlan, DirectReply,
};
use crate::command::Color;
use crate::composite::{own_engine, own_group, own_result, own_store, CompositeStats};
use crate::deferred::{deferred_decision, deferred_outcome, DeferredReply, SnapshotFits};
use crate::engine::{EngineView, RenderEngine};
use crate::error::DrawableId;
use crate::geometry::Rectangle16;
use crate::paint::{Decision, Step};
use crate::picture::{CompositeRect, CompositeRequest, PictFormat, Repeat, ResolvedSource};
use crate::store::{DrawableStore, StoreView};
use crate::submit::{GroupView, SubmitGroup};

verus! {

/// The state after an operation took a step, and the step.
pub ghost struct StepOutcome<R> {
    pub engine: EngineView,
    pub store: StoreView,
    pub group: GroupView,
    pub step: Step<R>,
}

/// A composite into the open frame.
pub open spec fn deferred_step(
    s: EngineView,
    st: StoreView,
    g: GroupView,
    req: &CompositeRequest,
    fits: SnapshotFits,
    reply: DeferredReply,
) -> StepOutcome<CompositeStats> {
    match deferred_decision(s, st, g, req, fits) {
        Decision::Chore(c) => StepOutcome { engine: s, store: st, group: g, step: Step::Chore(c) },
        Decision::Done(x) => StepOutcome { engine: s, store: st, group: g, step: Step::Done(x) },
        Decision::Paint(d) => {
            let o = deferred_outcome(s, st, g, req, d, fits, reply);
            StepOutcome {
                engine: o.engine,
                store: o.store,
                group: o.group,
                step: Step::Done(o.result),
            }
        },
    }
}

/// A composite outside a frame.
pub open spec fn direct_step(
    s: EngineView,
    st: StoreView,
    g: GroupView,
    req: &CompositeRequest,
    reply: DirectReply,
) -> StepOutcome<CompositeStats> {
    match direct_decision(s, st, g, req) {
        Decision::Chore(c) => StepOutcome { engine: s, store: st, group: g, step: Step::Chore(c) },
        Decision::Done(x) => StepOutcome { engine: s, store: st, group: g, step: Step::Done(x) },
        Decision::Paint(DirectPlan::Batch(p)) => StepOutcome {
            engine: append_engine(s, g, req, p, reply.batch),
            store: append_store(s, st, g, req, p, reply.batch),
            group: append_group(s, g, req, p, reply.batch),
            step: Step::Done(append_result(s, g, req, p, reply.batch)),
        },
        Decision::Paint(DirectPlan::Own(p)) => {
            let t = snapshots_replaced(s, p, reply);
            StepOutcome {
                engine: own_engine(t, g, req, p, reply.own),
                store: own_store(t, st, g, req, p, reply.own),
                group: own_group(g, req, p, reply.own),
                step: Step::Done(own_result(g, req, p, reply.own)),
            }
        },
    }
}

/// The device's answers to a composite; which of them matters depends on the
/// way it is recorded.
#[derive(Clone, Copy)]
pub struct RenderReply {
    pub direct: DirectReply,
    pub deferred: DeferredReply,
}

/// A composite, recorded into the open frame or outside it.
pub open spec fn render_step(
    s: EngineView,
    st: StoreView,
    g: GroupView,
    in_frame: bool,
    req: &CompositeRequest,
    fits: SnapshotFits,
    reply: RenderReply,
) -> StepOutcome<CompositeStats> {
    if in_frame {
        deferred_step(s, st, g, req, fits, reply.deferred)
    } else {
        direct_step(s, st, g, req, reply.direct)
    }
}

/// The composite that fills rectangles with one colour.
pub open spec fn fill_composite(
    op: u8,
    color: Color,
    dst: DrawableId,
    rects: Vec<CompositeRect>,
    clip: Option<Vec<Rectangle16>>,
) -> CompositeRequest {
    CompositeRequest {
        op,
        src: ResolvedSource::Solid(color),
        mask: ResolvedSource::Absent,
        dst,
        rects,
        clip,
        src_repeat: Repeat::Pad,
        mask_repeat: Repeat::Pad,
        src_transform: None,
        mask_transform: None,
        component_alpha: false,
        src_format: PictFormat::Unspecified,
        mask_format: PictFormat::Unspecified,
        dst_format: PictFormat::Unspecified,
    }
}

/// The composite that fills rectangles with one colour.
pub fn fill_request(
    op: u8,
    color: Color,
    dst: DrawableId,
    rects: Vec<CompositeRect>,
    clip: Option<Vec<Rectangle16>>,
) -> (r: CompositeRequest)
    ensures
        r == fill_composite(op, color, dst, rects, clip),
{
    CompositeRequest {
        op,
        src: ResolvedSource::Solid(color),
        mask: ResolvedSource::Absent,
        dst,
        rects,
        clip,
        src_repeat: Repeat::Pad,
        mask_repeat: Repeat::Pad,
        src_transform: None,
        mask_transform: None,
        component_alpha: false,
        src_format: PictFormat::Unspecified,
        mask_format: PictFormat::Unspecified,
        dst_format: PictFormat::Unspecified,
    }
}

impl RenderEngine {
    /// Records a composite, into the open frame or outside it.
    pub fn render_composite(
        &mut self,
        store: &mut DrawableStore,
        group: &mut SubmitGroup,
        in_frame: bool,
        req: CompositeRequest,
        fits: SnapshotFits,
        reply: RenderReply,
    ) -> (r: Step<CompositeStats>)
        ensures
            ({
                let o = render_step(
                    old(self)@,
                    old(store)@,
                    old(group)@,
                    in_frame,
                    &req,
                    fits,
                    reply,
                );
                &&& final(self)@ == o.engine
                &&& final(store)@ == o.store
                &&& final(group)@ == o.group
                &&& r == o.step
            }),
    {
        if in_frame {
            self.render_composite_via_frame_builder(store, group, req, fits, reply.deferred)
        } else {
            self.render_composite_direct(store, group, &req, reply.direct)
        }
    }

    /// Fills rectangles with one premultiplied colour under an operator.
    pub fn render_fill_rectangles(
        &mut self,
        store: &mut DrawableStore,
        group: &mut SubmitGroup,
        in_frame: bool,
        op: u8,
        color: Color,
        dst: DrawableId,
        rects: Vec<CompositeRect>,
        clip: Option<Vec<Rectangle16>>,
        fits: SnapshotFits,
        reply: RenderReply,
    ) -> (r: Step<CompositeStats>)
        ensures
            ({
                let o = render_step(
                    old(self)@,
                    old(store)@,
                    old(group)@,
                    in_frame,
                    &fill_composite(op, color, dst, rects, clip),
                    fits,
                    reply,
                );
                &&& final(self)@ == o.engine
                &&& final(store)@ == o.store
                &&& final(group)@ == o.group
                &&& r == o.step
            }),
    {
        let req = fill_request(op, color, dst, rects, clip);
        self.render_composite(store, group, in_frame, req, fits, reply)
    }

    /// Whether RENDER text is recorded into the open frame.
    pub fn composite_glyphs_in_frame(&self) -> (r: bool)
        ensures
            r == (self@.live && self@.frame_builder_enabled),
    {
        self.live && self.frame_builder_enabled
    }
}

} // verus!
