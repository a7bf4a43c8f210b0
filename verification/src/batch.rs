//! Composites onto one drawable, coalesced into one command buffer, and the
//! composites that cannot be.

use vstd::prelude::*;

use crate::command::{
    composite_draws, composite_open, count_draws, draw_count, push_composite_draws, Command,
};
use crate::composite::{
    check_composite_target, composite_plan, composite_target, damage_of_quads, empty_stats,
    make_plan_setup, no_stats, own_engine, own_group, own_result, own_store, plan_setup,
    quad_damage, CompositePlan, CompositeReply, CompositeStats,
};
use crate::compositing::{append_paints_plan, draws_only, joins, plans, takes_snapshots};
use crate::cow::BatchReply;
use crate::engine::{
    auto_flush_result, bump, bumped, group_auto_flushed, Chore, EngineView, RenderBatch,
    RenderBatchKey, RenderBatchView, RenderEngine, RenderFlushRecord, SubmittedOp, SubmittedView,
};
use crate::error::{DrawableId, RenderError, VkCode};
use crate::geometry::{build_render_clip_scissors, scissors_of};
use crate::paint::{Decision, Step};
use crate::picture::{
    is_known_op, known_op, needs_dst_readback, readback_op, CompositeRequest, ResolvedSource,
};
use crate::store::{DrawableStore, Layout, StoreView, Ticket};
use crate::submit::{GroupView, SubmitGroup};

verus! {

/// Whether a composite may share a command buffer with others: it reads other
/// drawables only, and its operator does not read the destination.
pub open spec fn batchable(req: &CompositeRequest) -> bool {
    &&& req.src matches ResolvedSource::Drawable(id) && id != req.dst
    &&& (req.mask is Absent || (req.mask matches ResolvedSource::Drawable(id) && id != req.dst))
    &&& known_op(req.op)
    &&& !readback_op(req.op)
    &&& req.rects@.len() > 0
}

pub fn is_batchable(req: &CompositeRequest) -> (r: bool)
    ensures
        r == batchable(req),
{
    let src_ok: bool = match req.src {
        ResolvedSource::Drawable(id) => id != req.dst,
        _ => false,
    };
    let mask_ok: bool = match req.mask {
        ResolvedSource::Drawable(id) => id != req.dst,
        ResolvedSource::Absent => true,
        _ => false,
    };
    src_ok && mask_ok && is_known_op(req.op) && !needs_dst_readback(req.op) && req.rects.len() > 0
}

/// What a composite has in common with the batch that it joins.
pub open spec fn batch_key(req: &CompositeRequest) -> RenderBatchKey {
    RenderBatchKey {
        dst: req.dst,
        op: req.op,
        dst_format: req.dst_format,
        component_alpha: req.component_alpha,
    }
}

fn make_batch_key(req: &CompositeRequest) -> (r: RenderBatchKey)
    ensures
        r == batch_key(req),
{
    RenderBatchKey {
        dst: req.dst,
        op: req.op,
        dst_format: req.dst_format,
        component_alpha: req.component_alpha,
    }
}

/// The stats of a composite that joined a batch.
pub open spec fn deferred_stats(draws: u32) -> CompositeStats {
    CompositeStats { recorded_draws: draws, deferred_to_batch: true, ..no_stats() }
}

fn make_deferred_stats(draws: u32) -> (r: CompositeStats)
    ensures
        r == deferred_stats(draws),
{
    CompositeStats { recorded_draws: draws, deferred_to_batch: true, ..empty_stats() }
}

/// What a composite does next if it can join a batch; `None` if it cannot. A
/// batch of another kind is flushed first.
pub open spec fn batch_decision(
    s: EngineView,
    st: StoreView,
    g: GroupView,
    req: &CompositeRequest,
) -> Option<Decision<CompositePlan, CompositeStats>> {
    if !batchable(req) {
        None
    } else if s.render matches Some(b) && b.key != batch_key(req) {
        Some(Decision::Chore(Chore::FlushRender))
    } else {
        match s.render_asset(g) {
            Err(e) => Some(Decision::Done(Err(e))),
            Ok(Some(asset)) => Some(Decision::Chore(Chore::Build(asset))),
            Ok(None) => match composite_target(st, req.dst, req.op) {
                Err(e) => Some(Decision::Done(Err(e))),
                Ok(None) => None,
                Ok(Some(d)) => match composite_plan(s, st, req, d) {
                    Err(e) => Some(Decision::Done(Err(e))),
                    Ok(None) => None,
                    Ok(Some(p)) => Some(Decision::Paint(p)),
                },
            },
        }
    }
}

/// The device's answers to a composite that joins a batch.
#[derive(Clone, Copy)]
pub enum BatchAppendReply {
    /// A view or a pipeline could not be had.
    Unavailable(RenderError),
    /// `descriptor` binds the pictures; it carries the tag that was taken.
    /// `begin` matters only for a new batch. Neither matters for a composite
    /// that is clipped away.
    Described { descriptor: Result<u64, RenderError>, begin: BatchReply },
}

/// Whether the clip of a composite leaves nothing to draw.
pub open spec fn clipped_away(req: &CompositeRequest, p: CompositePlan) -> bool {
    scissors_of(req.clip, p.dst.extent).len() == 0
}

pub fn is_clipped_away(req: &CompositeRequest, plan: &CompositePlan) -> (r: bool)
    ensures
        r == clipped_away(req, *plan),
{
    build_render_clip_scissors(&req.clip, plan.dst.extent).len() == 0
}

/// A list of drawables with one more, each once.
pub open spec fn with_id(list: Seq<DrawableId>, id: DrawableId) -> Seq<DrawableId> {
    if list.contains(id) {
        list
    } else {
        list.push(id)
    }
}

/// The drawables of a batch once it samples the pictures of a composite.
pub open spec fn batch_touched(list: Seq<DrawableId>, req: &CompositeRequest) -> Seq<DrawableId> {
    let with_src = match req.src {
        ResolvedSource::Drawable(id) => with_id(list, id),
        _ => list,
    };
    match req.mask {
        ResolvedSource::Drawable(id) => with_id(with_src, id),
        _ => with_src,
    }
}

/// The store once the pictures of a composite carry a batch's ticket.
pub open spec fn sampled_store(st: StoreView, req: &CompositeRequest, ticket: Ticket) -> StoreView {
    let with_src = match req.src {
        ResolvedSource::Drawable(id) => st.with_ticket(id, Some(ticket)),
        _ => st,
    };
    match req.mask {
        ResolvedSource::Drawable(id) => with_src.with_ticket(id, Some(ticket)),
        _ => with_src,
    }
}

pub open spec fn added(a: u32, b: u32) -> u32 {
    if a + b <= u32::MAX {
        (a + b) as u32
    } else {
        u32::MAX
    }
}

/// The batch after a composite joined it.
pub open spec fn batch_extended(
    b: RenderBatchView,
    req: &CompositeRequest,
    p: CompositePlan,
) -> RenderBatchView {
    RenderBatchView {
        dst_damage: b.dst_damage + quad_damage(req.rects@, p.dst.extent),
        touched: batch_touched(b.touched, req),
        any_mask: b.any_mask || req.mask is Drawable,
        accumulated_draws: added(
            b.accumulated_draws,
            draw_count(req.rects@.len(), scissors_of(req.clip, p.dst.extent).len()),
        ),
        coalesced_count: added(b.coalesced_count, 1),
        ..b
    }
}

/// A batch that holds one composite.
pub open spec fn batch_started(
    cb: u64,
    ticket: Ticket,
    req: &CompositeRequest,
    p: CompositePlan,
) -> RenderBatchView {
    RenderBatchView {
        cb,
        ticket,
        key: batch_key(req),
        dst_damage: quad_damage(req.rects@, p.dst.extent),
        touched: batch_touched(Seq::empty(), req),
        any_mask: req.mask is Drawable,
        accumulated_draws: draw_count(
            req.rects@.len(),
            scissors_of(req.clip, p.dst.extent).len(),
        ),
        coalesced_count: 1,
    }
}

/// The engine after a composite joined a batch. A tag is taken for its
/// descriptor. A composite that is clipped away changes nothing.
pub open spec fn append_engine(
    s: EngineView,
    g: GroupView,
    req: &CompositeRequest,
    p: CompositePlan,
    reply: BatchAppendReply,
) -> EngineView {
    match reply {
        BatchAppendReply::Unavailable(_) => s,
        BatchAppendReply::Described { descriptor, begin } => {
            let tagged = EngineView { generation: bumped(s.generation), ..s };
            if clipped_away(req, p) {
                s
            } else if descriptor is Err {
                tagged
            } else {
                match s.render {
                    Some(b) => EngineView {
                        render: Some(batch_extended(b, req, p)),
                        ..tagged
                    },
                    None => match begin {
                        BatchReply::Failed(_) => tagged,
                        BatchReply::Begun { cb, fresh } => EngineView {
                            render: Some(batch_started(cb, g.ticket_or(fresh), req, p)),
                            ..tagged
                        },
                    },
                }
            }
        },
    }
}

/// The store after a composite joined a batch: everything that the command
/// buffer refers to carries the batch's ticket, and a new batch leaves its
/// destination attached.
pub open spec fn append_store(
    s: EngineView,
    st: StoreView,
    g: GroupView,
    req: &CompositeRequest,
    p: CompositePlan,
    reply: BatchAppendReply,
) -> StoreView {
    match reply {
        BatchAppendReply::Described { descriptor: Ok(_), begin } => if clipped_away(req, p) {
            st
        } else {
            match s.render {
                Some(b) => sampled_store(st, req, b.ticket),
                None => match begin {
                    BatchReply::Failed(_) => st,
                    BatchReply::Begun { fresh, .. } => sampled_store(
                        st.with_layout(req.dst, Layout::ColorAttachment).with_ticket(
                            req.dst,
                            Some(g.ticket_or(fresh)),
                        ),
                        req,
                        g.ticket_or(fresh),
                    ),
                },
            }
        },
        _ => st,
    }
}

/// The group after a composite joined a batch.
pub open spec fn append_group(
    s: EngineView,
    g: GroupView,
    req: &CompositeRequest,
    p: CompositePlan,
    reply: BatchAppendReply,
) -> GroupView {
    match reply {
        BatchAppendReply::Described { descriptor: Ok(_), begin: BatchReply::Begun { fresh, .. } } =>
            if s.render is None && !clipped_away(req, p) {
                g.opened(fresh)
            } else {
                g
            },
        _ => g,
    }
}

/// The result of a composite that joined a batch: all draws of the batch so
/// far.
pub open spec fn append_result(
    s: EngineView,
    g: GroupView,
    req: &CompositeRequest,
    p: CompositePlan,
    reply: BatchAppendReply,
) -> Result<CompositeStats, RenderError> {
    match reply {
        BatchAppendReply::Unavailable(e) => Err(e),
        BatchAppendReply::Described { descriptor, begin } => if clipped_away(req, p) {
            Ok(deferred_stats(0))
        } else {
            match descriptor {
                Err(e) => Err(e),
                Ok(_) => match s.render {
                    Some(b) => Ok(deferred_stats(batch_extended(b, req, p).accumulated_draws)),
                    None => match begin {
                        BatchReply::Failed(e) => Err(e),
                        BatchReply::Begun { cb, fresh } => Ok(
                            deferred_stats(
                                batch_started(cb, g.ticket_or(fresh), req, p).accumulated_draws,
                            ),
                        ),
                    },
                },
            }
        },
    }
}

/// The commands that a composite adds to a batch's command buffer.
pub open spec fn append_commands(
    open: bool,
    p: CompositePlan,
    descriptor: u64,
    req: &CompositeRequest,
) -> Seq<Command> {
    let setup = plan_setup(p, p.dst.layout, descriptor);
    let draws = composite_draws(
        descriptor,
        p.dst.extent,
        p.attrs,
        req.rects@,
        scissors_of(req.clip, p.dst.extent),
    );
    if open {
        draws
    } else {
        seq![composite_open(setup)] + draws
    }
}

fn push_id(list: &mut Vec<DrawableId>, id: DrawableId)
    ensures
        final(list)@ == with_id(old(list)@, id),
{
    let mut i: usize = 0;
    while i < list.len()
        invariant
            i <= list.len(),
            list@ == old(list)@,
            forall|j: int| 0 <= j < i ==> list@[j] != id,
        decreases list.len() - i,
    {
        if list[i] == id {
            return;
        }
        i = i + 1;
    }
    list.push(id);
}

fn push_touched(list: &mut Vec<DrawableId>, req: &CompositeRequest)
    ensures
        final(list)@ == batch_touched(old(list)@, req),
{
    match req.src {
        ResolvedSource::Drawable(id) => {
            push_id(list, id);
        },
        _ => {},
    }
    match req.mask {
        ResolvedSource::Drawable(id) => {
            push_id(list, id);
        },
        _ => {},
    }
}

fn touch_sampled(store: &mut DrawableStore, req: &CompositeRequest, ticket: Ticket)
    ensures
        final(store)@ == sampled_store(old(store)@, req, ticket),
{
    match req.src {
        ResolvedSource::Drawable(id) => {
            store.touch_render_fence(id, ticket);
        },
        _ => {},
    }
    match req.mask {
        ResolvedSource::Drawable(id) => {
            store.touch_render_fence(id, ticket);
        },
        _ => {},
    }
}

fn saturating_sum(a: u32, b: u32) -> (r: u32)
    ensures
        r == added(a, b),
{
    if a <= u32::MAX - b {
        a + b
    } else {
        u32::MAX
    }
}

impl RenderEngine {
    /// What a composite does next if it can join a batch.
    pub fn try_append_render_batch_plan(
        &self,
        store: &DrawableStore,
        group: &SubmitGroup,
        req: &CompositeRequest,
    ) -> (r: Option<Decision<CompositePlan, CompositeStats>>)
        ensures
            r == batch_decision(self@, store@, group@, req),
            r matches Some(Decision::Paint(p)) ==> draws_only(p) && plans(
                p,
                store@,
                self@.gradients,
                req,
                store@.get(req.dst)->0,
            ),
    {
        if !is_batchable(req) {
            return None;
        }
        match &self.render_batch {
            Some(b) => {
                if b.key != make_batch_key(req) {
                    return Some(Decision::Chore(Chore::FlushRender));
                }
            },
            None => {},
        }
        match self.ensure_render_assets(group) {
            Err(e) => {
                return Some(Decision::Done(Err(e)));
            },
            Ok(Some(asset)) => {
                return Some(Decision::Chore(Chore::Build(asset)));
            },
            Ok(None) => {},
        }
        let d = match check_composite_target(store, req.dst, req.op) {
            Err(e) => {
                return Some(Decision::Done(Err(e)));
            },
            Ok(None) => {
                return None;
            },
            Ok(Some(d)) => d,
        };
        match self.plan_composite(store, req, d) {
            Err(e) => Some(Decision::Done(Err(e))),
            Ok(None) => None,
            Ok(Some(p)) => Some(Decision::Paint(p)),
        }
    }

    /// The commands that a composite adds to the batch.
    pub fn batch_append_commands(
        &self,
        req: &CompositeRequest,
        plan: &CompositePlan,
        descriptor: u64,
    ) -> (r: Vec<Command>)
        ensures
            r@ == append_commands(self@.render is Some, *plan, descriptor, req),
            takes_snapshots(*plan) && draws_only(*plan) ==> joins(
                r@,
                self@.render is Some,
                *plan,
                descriptor,
                req.rects@,
                req.clip,
            ),
    {
        let scissors = build_render_clip_scissors(&req.clip, plan.dst.extent);
        let setup = make_plan_setup(plan, plan.dst.layout, descriptor);
        let mut out: Vec<Command> = Vec::new();
        if self.render_batch.is_none() {
            out.push(
                Command::OpenComposite {
                    image: setup.image,
                    view: setup.view,
                    extent: setup.extent,
                    old: setup.old_layout,
                    pipeline: setup.pipeline,
                },
            );
        }
        push_composite_draws(
            &mut out,
            descriptor,
            plan.dst.extent,
            plan.attrs,
            &req.rects,
            &scissors,
        );
        proof {
            assert(out@ =~= append_commands(self@.render is Some, *plan, descriptor, req));
            if takes_snapshots(*plan) && draws_only(*plan) {
                append_paints_plan(self@.render is Some, *plan, descriptor, req);
            }
        }
        out
    }

    /// Has a composite join the open batch, or starts a batch with it; `None`
    /// if it cannot be batched.
    pub fn try_append_render_batch(
        &mut self,
        store: &mut DrawableStore,
        group: &mut SubmitGroup,
        req: &CompositeRequest,
        reply: BatchAppendReply,
    ) -> (r: Option<Step<CompositeStats>>)
        ensures
            match batch_decision(old(self)@, old(store)@, old(group)@, req) {
                None => r is None && final(self)@ == old(self)@ && final(store)@ == old(store)@
                    && final(group)@ == old(group)@,
                Some(Decision::Chore(c)) => r == Some(Step::<CompositeStats>::Chore(c)) && final(
                    self)@ == old(self)@ && final(store)@ == old(store)@ && final(group)@ == old(
                    group)@,
                Some(Decision::Done(x)) => r == Some(Step::Done(x)) && final(self)@ == old(self)@
                    && final(store)@ == old(store)@ && final(group)@ == old(group)@,
                Some(Decision::Paint(p)) => {
                    &&& final(self)@ == append_engine(old(self)@, old(group)@, req, p, reply)
                    &&& final(store)@ == append_store(
                        old(self)@,
                        old(store)@,
                        old(group)@,
                        req,
                        p,
                        reply,
                    )
                    &&& final(group)@ == append_group(old(self)@, old(group)@, req, p, reply)
                    &&& r == Some(
                        Step::Done(append_result(old(self)@, old(group)@, req, p, reply)),
                    )
                },
            },
    {
        match self.try_append_render_batch_plan(store, group, req) {
            None => None,
            Some(Decision::Chore(c)) => Some(Step::Chore(c)),
            Some(Decision::Done(x)) => Some(Step::Done(x)),
            Some(Decision::Paint(plan)) => Some(
                Step::Done(self.commit_batch_append(store, group, req, &plan, reply)),
            ),
        }
    }

    /// Keeps the books of a composite that joins a batch.
    fn commit_batch_append(
        &mut self,
        store: &mut DrawableStore,
        group: &mut SubmitGroup,
        req: &CompositeRequest,
        plan: &CompositePlan,
        reply: BatchAppendReply,
    ) -> (r: Result<CompositeStats, RenderError>)
        ensures
            final(self)@ == append_engine(old(self)@, old(group)@, req, *plan, reply),
            final(store)@ == append_store(old(self)@, old(store)@, old(group)@, req, *plan, reply),
            final(group)@ == append_group(old(self)@, old(group)@, req, *plan, reply),
            r == append_result(old(self)@, old(group)@, req, *plan, reply),
    {
        let ghost s = self@;
        let (descriptor, begin) = match reply {
            BatchAppendReply::Unavailable(e) => {
                return Err(e);
            },
            BatchAppendReply::Described { descriptor, begin } => (descriptor, begin),
        };
        let scissors = build_render_clip_scissors(&req.clip, plan.dst.extent);
        if scissors.len() == 0 {
            return Ok(make_deferred_stats(0));
        }
        self.acquire_generation = bump(self.acquire_generation);
        proof {
            assert(self@ =~= (EngineView { generation: bumped(s.generation), ..s }));
        }
        let ghost tagged = self@;
        match descriptor {
            Err(e) => {
                return Err(e);
            },
            Ok(_) => {},
        }
        let draws: u32 = count_draws(req.rects.len(), scissors.len());
        let mut damage = damage_of_quads(&req.rects, plan.dst.extent);
        let masked: bool = match req.mask {
            ResolvedSource::Drawable(_) => true,
            _ => false,
        };
        match &mut self.render_batch {
            Some(b) => {
                let ghost before = b@;
                b.dst_damage.append(&mut damage);
                push_touched(&mut b.touched, req);
                b.any_mask = b.any_mask || masked;
                b.accumulated_draws = saturating_sum(b.accumulated_draws, draws);
                b.coalesced_count = saturating_sum(b.coalesced_count, 1);
                touch_sampled(store, req, b.ticket);
                let total: u32 = b.accumulated_draws;
                proof {
                    assert(b@ =~= batch_extended(before, req, *plan));
                }
                proof {
                    assert(self@ =~= (EngineView {
                        render: Some(batch_extended(before, req, *plan)),
                        ..tagged
                    }));
                }
                Ok(make_deferred_stats(total))
            },
            None => {
                match begin {
                    BatchReply::Failed(e) => Err(e),
                    BatchReply::Begun { cb, fresh } => {
                        let ticket = group.ticket_or_open(fresh);
                        store.set_layout(req.dst, Layout::ColorAttachment);
                        store.touch_render_fence(req.dst, ticket);
                        touch_sampled(store, req, ticket);
                        let mut touched: Vec<DrawableId> = Vec::new();
                        proof {
                            assert(touched@ =~= Seq::empty());
                        }
                        push_touched(&mut touched, req);
                        let batch = RenderBatch {
                            cb,
                            ticket,
                            key: make_batch_key(req),
                            dst_damage: damage,
                            touched,
                            any_mask: masked,
                            accumulated_draws: draws,
                            coalesced_count: 1,
                        };
                        proof {
                            assert(batch@ =~= batch_started(cb, ticket, req, *plan));
                        }
                        self.render_batch = Some(batch);
                        proof {
                            assert(self@ =~= (EngineView {
                                render: Some(batch_started(cb, ticket, req, *plan)),
                                ..tagged
                            }));
                        }
                        Ok(make_deferred_stats(draws))
                    },
                }
            },
        }
    }
}

/// The device's answers to the end of a batch.
#[derive(Clone, Copy)]
pub struct RenderFlushReply {
    pub end: Result<(), VkCode>,
    /// The queue's answer, if the group was full and submitted.
    pub submit: Result<(), VkCode>,
}

/// The parked form of an ended batch.
pub open spec fn batch_parked(s: EngineView, b: RenderBatchView) -> SubmittedView {
    SubmittedView {
        cb: b.cb,
        ticket: b.ticket,
        staging: None,
        scratch: Seq::empty(),
        atlas_ticket: None,
        generation: bumped(s.generation),
        retired: Seq::empty(),
    }
}

/// The engine once an ended batch is parked.
pub open spec fn batch_recorded(s: EngineView, b: RenderBatchView) -> EngineView {
    EngineView {
        render: None,
        generation: bumped(s.generation),
        parked: s.parked.push(batch_parked(s, b)),
        render_records: s.render_records.push(
            RenderFlushRecord {
                dst: b.key.dst,
                op: b.key.op,
                has_mask: b.any_mask,
                coalesced_count: b.coalesced_count,
            },
        ),
        ..s
    }
}

/// Whether ending a batch comes to a parked command buffer.
pub open spec fn batch_ends(
    st: StoreView,
    g: GroupView,
    b: RenderBatchView,
    reply: RenderFlushReply,
) -> bool {
    !g.renderer_failed && st.has(b.key.dst) && reply.end is Ok
}

/// The engine after the open batch was flushed.
pub open spec fn render_flush_engine(
    s: EngineView,
    st: StoreView,
    g: GroupView,
    reply: RenderFlushReply,
) -> EngineView {
    match s.render {
        None => s,
        Some(b) => if batch_ends(st, g, b, reply) {
            batch_recorded(s, b).auto_flushed(g.appended(b.cb), reply.submit)
        } else {
            EngineView { render: None, ..s }
        },
    }
}

/// The store after the open batch was flushed.
pub open spec fn render_flush_store(
    s: EngineView,
    st: StoreView,
    g: GroupView,
    reply: RenderFlushReply,
) -> StoreView {
    match s.render {
        None => st,
        Some(b) => if g.renderer_failed {
            st
        } else {
            let laid = st.with_layout(b.key.dst, Layout::ShaderReadOnly);
            if batch_ends(st, g, b, reply) {
                laid.with_ticket(b.key.dst, Some(b.ticket)).touched(b.touched, b.ticket).damaged(
                    b.key.dst,
                    b.dst_damage,
                )
            } else {
                laid
            }
        },
    }
}

/// The group after the open batch was flushed.
pub open spec fn render_flush_group(
    s: EngineView,
    st: StoreView,
    g: GroupView,
    reply: RenderFlushReply,
) -> GroupView {
    match s.render {
        Some(b) => if batch_ends(st, g, b, reply) {
            group_auto_flushed(g.appended(b.cb), reply.submit)
        } else {
            g
        },
        None => g,
    }
}

/// The result of flushing the open batch: how many composites it held, if
/// there was one and the renderer still works.
pub open spec fn render_flush_result(
    s: EngineView,
    st: StoreView,
    g: GroupView,
    reply: RenderFlushReply,
) -> Result<Option<u32>, RenderError> {
    match s.render {
        None => Ok(None),
        Some(b) => if g.renderer_failed {
            Ok(None)
        } else if !st.has(b.key.dst) {
            Err(RenderError::UnknownDrawable(b.key.dst))
        } else {
            match reply.end {
                Err(e) => Err(RenderError::Vk(e)),
                Ok(_) => match auto_flush_result(g.appended(b.cb), reply.submit) {
                    Err(e) => Err(e),
                    Ok(_) => Ok(Some(b.coalesced_count)),
                },
            }
        },
    }
}

impl RenderEngine {
    /// The command that ends the open batch, with its command buffer; `None`
    /// if there is no batch, the renderer has failed, or the destination is
    /// gone.
    pub fn flush_render_batch_plan(&self, store: &DrawableStore, group: &SubmitGroup) -> (r: Option<
        (u64, Command),
    >)
        ensures
            r == match self@.render {
                None => None,
                Some(b) => if group@.renderer_failed {
                    None
                } else {
                    match store@.get(b.key.dst) {
                        None => None,
                        Some(d) => Some((b.cb, Command::CloseComposite { image: d.image })),
                    }
                },
            },
    {
        match &self.render_batch {
            None => None,
            Some(b) => {
                if group.renderer_failed {
                    return None;
                }
                match store.get(b.key.dst) {
                    None => None,
                    Some(d) => Some((b.cb, Command::CloseComposite { image: d.image })),
                }
            },
        }
    }

    /// Ends the open batch and moves it to the group. Its destination is left
    /// to be sampled, its drawables carry its ticket, and its damage is done.
    pub fn flush_render_batch(
        &mut self,
        store: &mut DrawableStore,
        group: &mut SubmitGroup,
        reply: RenderFlushReply,
    ) -> (r: Result<Option<u32>, RenderError>)
        ensures
            final(self)@ == render_flush_engine(old(self)@, old(store)@, old(group)@, reply),
            final(store)@ == render_flush_store(old(self)@, old(store)@, old(group)@, reply),
            final(group)@ == render_flush_group(old(self)@, old(store)@, old(group)@, reply),
            r == render_flush_result(old(self)@, old(store)@, old(group)@, reply),
    {
        let ghost s = self@;
        let ghost st = store@;
        let batch = match self.render_batch.take() {
            None => {
                return Ok(None);
            },
            Some(b) => b,
        };
        let ghost b = batch@;
        proof {
            assert(self@ =~= (EngineView { render: None, ..s }));
        }
        if group.renderer_failed {
            return Ok(None);
        }
        if store.get(batch.key.dst).is_none() {
            return Err(RenderError::UnknownDrawable(batch.key.dst));
        }
        store.set_layout(batch.key.dst, Layout::ShaderReadOnly);
        match reply.end {
            Err(e) => {
                return Err(RenderError::Vk(e));
            },
            Ok(_) => {},
        }
        group.append(batch.cb);
        store.touch_render_fence(batch.key.dst, batch.ticket);
        store.touch_all(&batch.touched, batch.ticket);
        store.damage_all(batch.key.dst, &batch.dst_damage);
        self.acquire_generation = bump(self.acquire_generation);
        let op = SubmittedOp {
            cb: batch.cb,
            ticket: batch.ticket,
            staging: None,
            scratch: Vec::new(),
            atlas_ticket: None,
            generation: self.acquire_generation,
            retired: Vec::new(),
        };
        self.pending_group_ops.push(op);
        self.render_flush_records.push(
            RenderFlushRecord {
                dst: batch.key.dst,
                op: batch.key.op,
                has_mask: batch.any_mask,
                coalesced_count: batch.coalesced_count,
            },
        );
        proof {
            assert(op@ =~= batch_parked(s, b));
            assert(self@.parked =~= s.parked.push(op@));
            assert(self@ =~= batch_recorded(s, b));
        }
        match self.maybe_auto_flush_submit_group(group, reply.submit) {
            Err(e) => Err(e),
            Ok(_) => Ok(Some(batch.coalesced_count)),
        }
    }
}

/// How a composite outside a frame is recorded.
#[derive(Clone, Copy, Debug, PartialEq, Eq, Structural)]
pub enum DirectPlan {
    /// It joins a batch.
    Batch(CompositePlan),
    /// It has a command buffer of its own.
    Own(CompositePlan),
}

/// What a composite outside a frame does next.
pub open spec fn direct_decision(
    s: EngineView,
    st: StoreView,
    g: GroupView,
    req: &CompositeRequest,
) -> Decision<DirectPlan, CompositeStats> {
    match s.frame_chore() {
        Some(c) => Decision::Chore(c),
        None => if req.rects@.len() == 0 {
            Decision::Done(Ok(no_stats()))
        } else if s.cow is Some {
            Decision::Chore(Chore::FlushCow)
        } else {
            match batch_decision(s, st, g, req) {
                Some(Decision::Chore(c)) => Decision::Chore(c),
                Some(Decision::Done(x)) => Decision::Done(x),
                Some(Decision::Paint(p)) => Decision::Paint(DirectPlan::Batch(p)),
                None => if s.render is Some {
                    Decision::Chore(Chore::FlushRender)
                } else {
                    match s.render_asset(g) {
                        Err(e) => Decision::Done(Err(e)),
                        Ok(Some(asset)) => Decision::Chore(Chore::Build(asset)),
                        Ok(None) => match composite_target(st, req.dst, req.op) {
                            Err(e) => Decision::Done(Err(e)),
                            Ok(None) => Decision::Done(Ok(no_stats())),
                            Ok(Some(d)) => match composite_plan(s, st, req, d) {
                                Err(e) => Decision::Done(Err(e)),
                                Ok(None) => Decision::Done(Ok(no_stats())),
                                Ok(Some(p)) => Decision::Paint(DirectPlan::Own(p)),
                            },
                        },
                    }
                },
            }
        },
    }
}

/// The device's answers to a composite outside a frame; which of them matters
/// depends on the plan.
#[derive(Clone, Copy)]
pub struct DirectReply {
    pub batch: BatchAppendReply,
    /// The replaced alias image, where one is used and had to grow.
    pub old_alias: Option<u64>,
    /// The replaced readback image, where one is used and had to grow.
    pub old_readback: Option<u64>,
    pub own: CompositeReply,
}

/// The engine after it took over the snapshot images that a composite with a
/// command buffer of its own replaced.
pub open spec fn snapshots_replaced(
    s: EngineView,
    p: CompositePlan,
    reply: DirectReply,
) -> EngineView {
    let t = if p.alias {
        s.adopting(reply.old_alias)
    } else {
        s
    };
    if p.readback {
        t.adopting(reply.old_readback)
    } else {
        t
    }
}

impl RenderEngine {
    /// What a composite outside a frame does next.
    pub fn render_composite_direct_plan(
        &self,
        store: &DrawableStore,
        group: &SubmitGroup,
        req: &CompositeRequest,
    ) -> (r: Decision<DirectPlan, CompositeStats>)
        ensures
            r == direct_decision(self@, store@, group@, req),
            r matches Decision::Paint(DirectPlan::Batch(p)) ==> draws_only(p) && plans(
                p,
                store@,
                self@.gradients,
                req,
                store@.get(req.dst)->0,
            ),
            r matches Decision::Paint(DirectPlan::Own(p)) ==> plans(
                p,
                store@,
                self@.gradients,
                req,
                store@.get(req.dst)->0,
            ),
    {
        match self.close_open_frame_for_own_buffer() {
            Some(c) => {
                return Decision::Chore(c);
            },
            None => {},
        }
        if req.rects.len() == 0 {
            return Decision::Done(Ok(empty_stats()));
        }
        if self.cow_batch.is_some() {
            return Decision::Chore(Chore::FlushCow);
        }
        match self.try_append_render_batch_plan(store, group, req) {
            Some(Decision::Chore(c)) => {
                return Decision::Chore(c);
            },
            Some(Decision::Done(x)) => {
                return Decision::Done(x);
            },
            Some(Decision::Paint(p)) => {
                return Decision::Paint(DirectPlan::Batch(p));
            },
            None => {},
        }
        if self.render_batch.is_some() {
            return Decision::Chore(Chore::FlushRender);
        }
        match self.ensure_render_assets(group) {
            Err(e) => {
                return Decision::Done(Err(e));
            },
            Ok(Some(asset)) => {
                return Decision::Chore(Chore::Build(asset));
            },
            Ok(None) => {},
        }
        let d = match check_composite_target(store, req.dst, req.op) {
            Err(e) => {
                return Decision::Done(Err(e));
            },
            Ok(None) => {
                return Decision::Done(Ok(empty_stats()));
            },
            Ok(Some(d)) => d,
        };
        match self.plan_composite(store, req, d) {
            Err(e) => Decision::Done(Err(e)),
            Ok(None) => Decision::Done(Ok(empty_stats())),
            Ok(Some(p)) => Decision::Paint(DirectPlan::Own(p)),
        }
    }

    /// Records a composite outside a frame: in a batch if it can, else in a
    /// command buffer of its own.
    pub fn render_composite_direct(
        &mut self,
        store: &mut DrawableStore,
        group: &mut SubmitGroup,
        req: &CompositeRequest,
        reply: DirectReply,
    ) -> (r: Step<CompositeStats>)
        ensures
            match direct_decision(old(self)@, old(store)@, old(group)@, req) {
                Decision::Chore(c) => r == Step::<CompositeStats>::Chore(c) && final(self)@ == old(
                    self)@ && final(store)@ == old(store)@ && final(group)@ == old(group)@,
                Decision::Done(x) => r == Step::Done(x) && final(self)@ == old(self)@ && final(
                    store)@ == old(store)@ && final(group)@ == old(group)@,
                Decision::Paint(DirectPlan::Batch(p)) => {
                    &&& final(self)@ == append_engine(
                        old(self)@,
                        old(group)@,
                        req,
                        p,
                        reply.batch,
                    )
                    &&& final(store)@ == append_store(
                        old(self)@,
                        old(store)@,
                        old(group)@,
                        req,
                        p,
                        reply.batch,
                    )
                    &&& final(group)@ == append_group(
                        old(self)@,
                        old(group)@,
                        req,
                        p,
                        reply.batch,
                    )
                    &&& r == Step::Done(
                        append_result(old(self)@, old(group)@, req, p, reply.batch),
                    )
                },
                Decision::Paint(DirectPlan::Own(p)) => {
                    let s = snapshots_replaced(old(self)@, p, reply);
                    &&& final(self)@ == own_engine(s, old(group)@, req, p, reply.own)
                    &&& final(store)@ == own_store(
                        s,
                        old(store)@,
                        old(group)@,
                        req,
                        p,
                        reply.own,
                    )
                    &&& final(group)@ == own_group(old(group)@, req, p, reply.own)
                    &&& r == Step::Done(own_result(old(group)@, req, p, reply.own))
                },
            },
    {
        match self.render_composite_direct_plan(store, group, req) {
            Decision::Chore(c) => Step::Chore(c),
            Decision::Done(x) => Step::Done(x),
            Decision::Paint(DirectPlan::Batch(p)) => Step::Done(
                self.commit_batch_append(store, group, req, &p, reply.batch),
            ),
            Decision::Paint(DirectPlan::Own(p)) => {
                if p.alias {
                    self.adopt_retired_resource_for_gpu_retirement(reply.old_alias);
                }
                if p.readback {
                    self.adopt_retired_resource_for_gpu_retirement(reply.old_readback);
                }
                Step::Done(self.commit_own_composite(store, group, req, &p, reply.own))
            },
        }
    }
}

} // verus!
