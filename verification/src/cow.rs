//! Copies to the overlay window, coalesced into one command buffer.

use vstd::prelude::*;

use crate::command::{
    barrier_to_layout, cmd_to_transfer_dst, cmd_to_transfer_src, image_copy, scope, spec_barrier,
    spec_scope, to_transfer_dst, to_transfer_src, Command, ACCESS_SHADER_SAMPLED_READ,
    ACCESS_TRANSFER_READ, ACCESS_TRANSFER_WRITE, STAGE_COPY, STAGE_FRAGMENT_SHADER,
};
use crate::copy::{copy_between, resolve_copy, CopyGeometry};
use crate::engine::{
    auto_flush_result, bump, bumped, group_auto_flushed, Chore, CowBatch, CowBatchView, EngineView,
    PresentBatch, PresentBatchView, PresentBatchWait, PresentEntry, RenderEngine, SubmittedOp,
    SubmittedView,
};
use crate::error::{DrawableId, RenderError, VkCode};
use crate::geometry::{Offset, Rect};
use crate::paint::{Decision, Step};
use crate::pixels::{copies, cow_copies};
use crate::store::{Drawable, DrawableStore, Layout, StoreView, Ticket};
use crate::submit::{FlushReason, GroupView, SubmitGroup};

verus! {

/// What a copy to the overlay window does next.
pub open spec fn cow_decision(
    s: EngineView,
    st: StoreView,
    g: GroupView,
    cow: DrawableId,
    src: DrawableId,
    src_rect: Rect,
    pos: Offset,
) -> Decision<CopyGeometry, ()> {
    match s.frame_chore() {
        Some(c) => Decision::Chore(c),
        None => if src_rect.extent.spec_is_empty() {
            Decision::Done(Ok(()))
        } else if s.render is Some {
            Decision::Chore(Chore::FlushRender)
        } else if !s.live {
            Decision::Done(Err(RenderError::NoVk))
        } else if g.renderer_failed {
            Decision::Done(Err(RenderError::RendererFailed))
        } else if src == cow {
            Decision::Done(Err(RenderError::UnsupportedDepth(0)))
        } else {
            match copy_between(st, src, cow, src_rect, pos) {
                Err(e) => Decision::Done(Err(e)),
                Ok(None) => Decision::Done(Ok(())),
                Ok(Some(c)) => if s.cow matches Some(b) && b.dst != cow {
                    Decision::Chore(Chore::FlushCow)
                } else {
                    Decision::Paint(c)
                },
            }
        },
    }
}

/// The copy itself.
pub open spec fn cow_copy(c: CopyGeometry) -> Command {
    image_copy(c.src.image, c.dst.image, c.src_rect.offset, c.dst_rect)
}

/// The commands that a copy adds to the batch's command buffer: the barriers
/// of the drawables that the batch meets for the first time, then the copy.
pub open spec fn cow_commands(batch: Option<CowBatchView>, src: DrawableId, c: CopyGeometry) -> Seq<
    Command,
> {
    match batch {
        None => seq![
            to_transfer_dst(c.dst.image, c.dst.layout),
            to_transfer_src(c.src.image, c.src.layout),
            cow_copy(c),
        ],
        Some(b) => if b.srcs.contains(src) {
            seq![cow_copy(c)]
        } else {
            seq![to_transfer_src(c.src.image, c.src.layout), cow_copy(c)]
        },
    }
}

/// A command buffer that was begun for a batch, or why there is none.
#[derive(Clone, Copy)]
pub enum BatchReply {
    Failed(RenderError),
    /// `fresh` is a new ticket for the case that the group has none.
    Begun { cb: u64, fresh: Ticket },
}

/// The commands of a copy, and whether they start a command buffer.
pub struct CowPlan {
    pub commands: Vec<Command>,
    /// The open command buffer that the commands go to; without one a command
    /// buffer has to be begun.
    pub cb: Option<u64>,
}

/// The batch after a copy was added to it.
pub open spec fn cow_extended(b: CowBatchView, src: DrawableId, rect: Rect) -> CowBatchView {
    CowBatchView {
        srcs: if b.srcs.contains(src) {
            b.srcs
        } else {
            b.srcs.push(src)
        },
        dst_damage: b.dst_damage.push(rect),
        coalesced_count: if b.coalesced_count < u32::MAX {
            (b.coalesced_count + 1) as u32
        } else {
            u32::MAX
        },
        ..b
    }
}

/// A batch that holds one copy.
pub open spec fn cow_started(
    cb: u64,
    ticket: Ticket,
    dst: DrawableId,
    src: DrawableId,
    rect: Rect,
) -> CowBatchView {
    CowBatchView {
        cb,
        ticket,
        dst,
        srcs: seq![src],
        dst_damage: seq![rect],
        coalesced_count: 1,
        present_completions: Seq::empty(),
    }
}

fn contains_id(list: &Vec<DrawableId>, id: DrawableId) -> (r: bool)
    ensures
        r == list@.contains(id),
{
    let mut i: usize = 0;
    while i < list.len()
        invariant
            i <= list.len(),
            forall|j: int| 0 <= j < i ==> list@[j] != id,
        decreases list.len() - i,
    {
        if list[i] == id {
            return true;
        }
        i = i + 1;
    }
    false
}

impl RenderEngine {
    fn cow_decide(
        &self,
        store: &DrawableStore,
        group: &SubmitGroup,
        cow: DrawableId,
        src: DrawableId,
        src_rect: Rect,
        dst_pos: Offset,
    ) -> (r: Decision<CopyGeometry, ()>)
        ensures
            r == cow_decision(self@, store@, group@, cow, src, src_rect, dst_pos),
    {
        match self.close_open_frame_for_own_buffer() {
            Some(c) => {
                return Decision::Chore(c);
            },
            None => {},
        }
        if src_rect.extent.is_empty() {
            return Decision::Done(Ok(()));
        }
        if self.render_batch.is_some() {
            return Decision::Chore(Chore::FlushRender);
        }
        if !self.live {
            return Decision::Done(Err(RenderError::NoVk));
        }
        if group.renderer_failed {
            return Decision::Done(Err(RenderError::RendererFailed));
        }
        if src == cow {
            return Decision::Done(Err(RenderError::UnsupportedDepth(0)));
        }
        match resolve_copy(store, src, cow, src_rect, dst_pos) {
            Err(e) => Decision::Done(Err(e)),
            Ok(None) => Decision::Done(Ok(())),
            Ok(Some(c)) => {
                match &self.cow_batch {
                    Some(b) => {
                        if b.dst != cow {
                            return Decision::Chore(Chore::FlushCow);
                        }
                    },
                    None => {},
                }
                Decision::Paint(c)
            },
        }
    }

    /// What a copy to the overlay window does next.
    pub fn cow_copy_area_plan(
        &self,
        store: &DrawableStore,
        group: &SubmitGroup,
        cow: DrawableId,
        src: DrawableId,
        src_rect: Rect,
        dst_pos: Offset,
    ) -> (r: Decision<CowPlan, ()>)
        ensures
            match cow_decision(self@, store@, group@, cow, src, src_rect, dst_pos) {
                Decision::Chore(c) => r == Decision::<CowPlan, ()>::Chore(c),
                Decision::Done(x) => r == Decision::<CowPlan, ()>::Done(x),
                Decision::Paint(c) => r matches Decision::Paint(p) && p.commands@ == cow_commands(
                    self@.cow,
                    src,
                    c,
                ) && p.cb == match self@.cow {
                    Some(b) => Some(b.cb),
                    None => None,
                } && (store@.get(src)->0.image != store@.get(cow)->0.image ==> copies(
                    p.commands@,
                    store@.get(src)->0,
                    store@.get(cow)->0,
                    src_rect,
                    dst_pos,
                    None,
                )),
            },
    {
        let c = match self.cow_decide(store, group, cow, src, src_rect, dst_pos) {
            Decision::Chore(c) => {
                return Decision::Chore(c);
            },
            Decision::Done(x) => {
                return Decision::Done(x);
            },
            Decision::Paint(c) => c,
        };
        let copy = Command::CopyImage {
            src: c.src.image,
            dst: c.dst.image,
            from: c.src_rect.offset,
            to: c.dst_rect.offset,
            extent: c.dst_rect.extent,
        };
        let mut commands: Vec<Command> = Vec::new();
        let cb: Option<u64> = match &self.cow_batch {
            None => {
                commands.push(cmd_to_transfer_dst(c.dst.image, c.dst.layout));
                commands.push(cmd_to_transfer_src(c.src.image, c.src.layout));
                None
            },
            Some(b) => {
                if !contains_id(&b.srcs, src) {
                    commands.push(cmd_to_transfer_src(c.src.image, c.src.layout));
                }
                Some(b.cb)
            },
        };
        commands.push(copy);
        proof {
            assert(commands@ =~= cow_commands(self@.cow, src, c));
            if store@.get(src)->0.image != store@.get(cow)->0.image {
                cow_copies(
                    self@.cow,
                    src,
                    store@.get(src)->0,
                    store@.get(cow)->0,
                    src_rect,
                    dst_pos,
                );
            }
        }
        Decision::Paint(CowPlan { commands, cb })
    }

    /// Adds a copy to the open batch, or starts a batch with it. Every
    /// drawable that the command buffer refers to carries the batch's ticket
    /// from then on. `reply` matters only for a new batch.
    pub fn cow_copy_area(
        &mut self,
        store: &mut DrawableStore,
        group: &mut SubmitGroup,
        cow: DrawableId,
        src: DrawableId,
        src_rect: Rect,
        dst_pos: Offset,
        reply: BatchReply,
    ) -> (r: Step<()>)
        ensures
            match cow_decision(
                old(self)@,
                old(store)@,
                old(group)@,
                cow,
                src,
                src_rect,
                dst_pos,
            ) {
                Decision::Chore(c) => r == Step::<()>::Chore(c) && final(self)@ == old(self)@
                    && final(store)@ == old(store)@ && final(group)@ == old(group)@,
                Decision::Done(x) => r == Step::Done(x) && final(self)@ == old(self)@
                    && final(store)@ == old(store)@ && final(group)@ == old(group)@,
                Decision::Paint(c) => match old(self)@.cow {
                    Some(b) => {
                        &&& r == Step::<()>::Done(Ok(()))
                        &&& final(self)@ == (EngineView {
                            cow: Some(cow_extended(b, src, c.dst_rect)),
                            ..old(self)@
                        })
                        &&& final(store)@ == if b.srcs.contains(src) {
                            old(store)@
                        } else {
                            old(store)@.with_layout(src, Layout::TransferSrc).with_ticket(
                                src,
                                Some(b.ticket),
                            )
                        }
                        &&& final(group)@ == old(group)@
                    },
                    None => match reply {
                        BatchReply::Failed(e) => r == Step::<()>::Done(Err(e)) && final(self)@
                            == old(self)@ && final(store)@ == old(store)@ && final(group)@ == old(
                            group)@,
                        BatchReply::Begun { cb, fresh } => {
                            let ticket = old(group)@.ticket_or(fresh);
                            &&& r == Step::<()>::Done(Ok(()))
                            &&& final(self)@ == (EngineView {
                                cow: Some(cow_started(cb, ticket, cow, src, c.dst_rect)),
                                ..old(self)@
                            })
                            &&& final(store)@ == old(store)@.with_layout(
                                cow,
                                Layout::TransferDst,
                            ).with_layout(src, Layout::TransferSrc).with_ticket(
                                cow,
                                Some(ticket),
                            ).with_ticket(src, Some(ticket))
                            &&& final(group)@ == old(group)@.opened(fresh)
                        },
                    },
                },
            },
    {
        let ghost s = self@;
        let c = match self.cow_decide(store, group, cow, src, src_rect, dst_pos) {
            Decision::Chore(c) => {
                return Step::Chore(c);
            },
            Decision::Done(x) => {
                return Step::Done(x);
            },
            Decision::Paint(c) => c,
        };
        match &mut self.cow_batch {
            Some(b) => {
                let ghost before = b@;
                if !contains_id(&b.srcs, src) {
                    store.set_layout(src, Layout::TransferSrc);
                    b.srcs.push(src);
                    store.touch_render_fence(src, b.ticket);
                }
                b.dst_damage.push(c.dst_rect);
                if b.coalesced_count < u32::MAX {
                    b.coalesced_count = b.coalesced_count + 1;
                }
                proof {
                    assert(b@ =~= cow_extended(before, src, c.dst_rect));
                }
            },
            None => {
                match reply {
                    BatchReply::Failed(e) => {
                        return Step::Done(Err(e));
                    },
                    BatchReply::Begun { cb, fresh } => {
                        let ticket = group.ticket_or_open(fresh);
                        store.set_layout(cow, Layout::TransferDst);
                        store.set_layout(src, Layout::TransferSrc);
                        store.touch_render_fence(cow, ticket);
                        store.touch_render_fence(src, ticket);
                        let mut srcs: Vec<DrawableId> = Vec::new();
                        srcs.push(src);
                        let mut dst_damage: Vec<Rect> = Vec::new();
                        dst_damage.push(c.dst_rect);
                        let batch = CowBatch {
                            cb,
                            ticket,
                            dst: cow,
                            srcs,
                            dst_damage,
                            coalesced_count: 1,
                            present_completions: Vec::new(),
                        };
                        proof {
                            assert(batch@ =~= cow_started(cb, ticket, cow, src, c.dst_rect));
                        }
                        self.cow_batch = Some(batch);
                    },
                }
            },
        }
        proof {
            assert(self@ =~= (EngineView { cow: self@.cow, ..s }));
        }
        Step::Done(Ok(()))
    }

    /// Has a client told once the open batch completes. The client is handed
    /// back if no batch for that drawable is open.
    pub fn attach_cow_present_completion(&mut self, cow: DrawableId, entry: PresentEntry) -> (r:
        Result<(), PresentEntry>)
        ensures
            match old(self)@.cow {
                Some(b) => if old(self)@.live && b.dst == cow {
                    r is Ok && final(self)@ == (EngineView {
                        cow: Some(
                            CowBatchView {
                                present_completions: b.present_completions.push(entry),
                                ..b
                            },
                        ),
                        ..old(self)@
                    })
                } else {
                    r == Err::<(), PresentEntry>(entry) && final(self)@ == old(self)@
                },
                None => r == Err::<(), PresentEntry>(entry) && final(self)@ == old(self)@,
            },
    {
        let ghost s = self@;
        if !self.live {
            return Err(entry);
        }
        match &mut self.cow_batch {
            Some(b) => {
                let ghost before = b@;
                if b.dst != cow {
                    return Err(entry);
                }
                b.present_completions.push(entry);
                proof {
                    assert(b@ =~= (CowBatchView {
                        present_completions: before.present_completions.push(entry),
                        ..before
                    }));
                }
            },
            None => {
                return Err(entry);
            },
        }
        proof {
            assert(self@ =~= (EngineView { cow: self@.cow, ..s }));
        }
        Ok(())
    }
}

/// How many drawables at the front of a list exist.
pub open spec fn present_prefix(st: StoreView, ids: Seq<DrawableId>) -> nat
    decreases ids.len(),
{
    if ids.len() == 0 || !st.has(ids[0]) {
        0
    } else {
        1 + present_prefix(st, ids.skip(1))
    }
}

/// The store and the outcome of the barriers that end a batch: every source,
/// then the destination, is left to be sampled, up to the first drawable that
/// is gone.
pub open spec fn cow_exit(st: StoreView, b: CowBatchView) -> (StoreView, Result<(), RenderError>) {
    let n = present_prefix(st, b.srcs);
    if n < b.srcs.len() {
        (
            st.laid_out(b.srcs.take(n as int), Layout::ShaderReadOnly),
            Err(RenderError::UnknownDrawable(b.srcs[n as int])),
        )
    } else {
        let laid = st.laid_out(b.srcs, Layout::ShaderReadOnly);
        if st.has(b.dst) {
            (laid.with_layout(b.dst, Layout::ShaderReadOnly), Ok(()))
        } else {
            (laid, Err(RenderError::UnknownDrawable(b.dst)))
        }
    }
}

/// The barrier that leaves a drawable copied from to be sampled.
pub open spec fn cow_src_exit(d: Drawable) -> Command {
    spec_barrier(
        d.image,
        d.layout,
        Layout::ShaderReadOnly,
        spec_scope(STAGE_COPY, ACCESS_TRANSFER_READ),
        spec_scope(STAGE_FRAGMENT_SHADER, ACCESS_SHADER_SAMPLED_READ),
    )
}

/// The barrier that leaves the overlay window to be sampled.
pub open spec fn cow_dst_exit(d: Drawable) -> Command {
    spec_barrier(
        d.image,
        d.layout,
        Layout::ShaderReadOnly,
        spec_scope(STAGE_COPY, ACCESS_TRANSFER_WRITE),
        spec_scope(STAGE_FRAGMENT_SHADER, ACCESS_SHADER_SAMPLED_READ),
    )
}

/// The commands that end a batch whose drawables all exist.
pub open spec fn cow_exit_commands(st: StoreView, b: CowBatchView) -> Seq<Command> {
    b.srcs.map_values(|id: DrawableId| cow_src_exit(st.get(id)->0)).push(
        cow_dst_exit(st.get(b.dst)->0),
    )
}

/// What the end of a batch needs from the device.
pub struct CowFlushPlan {
    pub cb: u64,
    pub commands: Vec<Command>,
    /// Whether the command buffer signals a semaphore when it completes.
    pub wants_signal: bool,
}

/// The device's answers to the end of a batch.
#[derive(Clone, Copy)]
pub struct CowFlushReply {
    /// A semaphore to signal, where one is wanted.
    pub signal: Result<u64, VkCode>,
    pub end: Result<(), VkCode>,
    /// The queue's answer, if the group was submitted.
    pub submit: Result<(), VkCode>,
    /// The file descriptor of the signalled semaphore, where one is wanted and
    /// the group was submitted.
    pub export: Result<Option<i32>, VkCode>,
}

/// The parked form of an ended batch.
pub open spec fn cow_parked(s: EngineView, b: CowBatchView) -> SubmittedView {
    SubmittedView {
        cb: b.cb,
        ticket: b.ticket,
        staging: None,
        scratch: Seq::empty(),
        atlas_ticket: None,
        generation: bumped(s.generation),
        retired: Seq::empty(),
    }
}

/// The engine once an ended batch is parked.
pub open spec fn cow_recorded(s: EngineView, b: CowBatchView) -> EngineView {
    EngineView {
        cow: None,
        generation: bumped(s.generation),
        parked: s.parked.push(cow_parked(s, b)),
        cow_records: s.cow_records.push(b.coalesced_count),
        ..s
    }
}

/// How waiting for a submitted batch goes.
pub open spec fn present_wait(export: Result<Option<i32>, VkCode>) -> PresentBatchWait {
    match export {
        Ok(Some(fd)) => PresentBatchWait::Fd(fd),
        Ok(None) => PresentBatchWait::Ready,
        Err(_) => PresentBatchWait::Poll,
    }
}

/// The engine, the group and the result after a batch with waiting clients
/// was parked: the group is submitted at once, and the clients are told when
/// the newest submission completes, or right away if it was refused.
pub open spec fn cow_signalled(
    s: EngineView,
    g: GroupView,
    b: CowBatchView,
    signal: u64,
    reply: CowFlushReply,
) -> EngineView {
    let flushed = s.flushed(g, FlushReason::PresentCompletionSignal, reply.submit);
    EngineView {
        presents: flushed.presents.push(
            match g.flush_result(reply.submit) {
                Ok(_) => PresentBatchView {
                    wait: present_wait(reply.export),
                    ticket: if flushed.submitted.len() > 0 {
                        Some(flushed.submitted.last().ticket)
                    } else {
                        None
                    },
                    signal: Some(signal),
                    events: b.present_completions,
                },
                Err(_) => PresentBatchView {
                    wait: PresentBatchWait::Ready,
                    ticket: None,
                    signal: None,
                    events: b.present_completions,
                },
            },
        ),
        ..flushed
    }
}

/// The engine after the open batch was flushed.
pub open spec fn cow_flush_engine(
    s: EngineView,
    st: StoreView,
    g: GroupView,
    reply: CowFlushReply,
) -> EngineView {
    match s.cow {
        None => s,
        Some(b) => {
            let taken = EngineView { cow: None, ..s };
            if g.renderer_failed || cow_exit(st, b).1 is Err {
                taken
            } else if b.present_completions.len() > 0 {
                if reply.signal is Err || reply.end is Err {
                    taken
                } else {
                    cow_signalled(
                        cow_recorded(s, b),
                        g.appended(b.cb),
                        b,
                        reply.signal->Ok_0,
                        reply,
                    )
                }
            } else if reply.end is Err {
                taken
            } else {
                cow_recorded(s, b).auto_flushed(g.appended(b.cb), reply.submit)
            }
        },
    }
}

/// The store after the open batch was flushed.
pub open spec fn cow_flush_store(
    s: EngineView,
    st: StoreView,
    g: GroupView,
    reply: CowFlushReply,
) -> StoreView {
    match s.cow {
        None => st,
        Some(b) => if g.renderer_failed {
            st
        } else {
            let exit = cow_exit(st, b);
            if exit.1 is Err || (b.present_completions.len() > 0 && reply.signal is Err)
                || reply.end is Err {
                exit.0
            } else {
                exit.0.with_ticket(b.dst, Some(b.ticket)).touched(b.srcs, b.ticket).damaged(
                    b.dst,
                    b.dst_damage,
                )
            }
        },
    }
}

/// The group after the open batch was flushed.
pub open spec fn cow_flush_group(
    s: EngineView,
    st: StoreView,
    g: GroupView,
    reply: CowFlushReply,
) -> GroupView {
    match s.cow {
        None => g,
        Some(b) => if g.renderer_failed || cow_exit(st, b).1 is Err || (
        b.present_completions.len() > 0 && reply.signal is Err) || reply.end is Err {
            g
        } else if b.present_completions.len() > 0 {
            g.appended(b.cb).flushed(reply.submit)
        } else {
            group_auto_flushed(g.appended(b.cb), reply.submit)
        },
    }
}

/// The result of flushing the open batch: how many copies it held, if there
/// was one and the renderer still works.
pub open spec fn cow_flush_result(
    s: EngineView,
    st: StoreView,
    g: GroupView,
    reply: CowFlushReply,
) -> Result<Option<u32>, RenderError> {
    match s.cow {
        None => Ok(None),
        Some(b) => if g.renderer_failed {
            Ok(None)
        } else {
            match cow_exit(st, b).1 {
                Err(e) => Err(e),
                Ok(_) => if b.present_completions.len() > 0 && reply.signal is Err {
                    Err(RenderError::Vk(reply.signal->Err_0))
                } else {
                    match reply.end {
                        Err(e) => Err(RenderError::Vk(e)),
                        Ok(_) => {
                            let flushed = if b.present_completions.len() > 0 {
                                match g.appended(b.cb).flush_result(reply.submit) {
                                    Ok(u) => Ok(u),
                                    Err(e) => Err(RenderError::Vk(e)),
                                }
                            } else {
                                auto_flush_result(g.appended(b.cb), reply.submit)
                            };
                            match flushed {
                                Ok(_) => Ok(Some(b.coalesced_count)),
                                Err(e) => Err(e),
                            }
                        },
                    }
                },
            }
        },
    }
}

impl RenderEngine {
    /// The commands that end the open batch; `None` if there is no batch, the
    /// renderer has failed, or a drawable of the batch is gone.
    pub fn flush_cow_batch_plan(&self, store: &DrawableStore, group: &SubmitGroup) -> (r: Option<
        CowFlushPlan,
    >)
        ensures
            match self@.cow {
                None => r is None,
                Some(b) => if group@.renderer_failed || cow_exit(store@, b).1 is Err {
                    r is None
                } else {
                    r matches Some(p) && p.cb == b.cb && p.commands@ == cow_exit_commands(
                        store@,
                        b,
                    ) && p.wants_signal == (b.present_completions.len() > 0)
                },
            },
    {
        match &self.cow_batch {
            None => None,
            Some(b) => {
                if group.renderer_failed {
                    return None;
                }
                let mut commands: Vec<Command> = Vec::new();
                let ghost all = b@.srcs.map_values(
                    |id: DrawableId| cow_src_exit(store@.get(id)->0),
                );
                let mut i: usize = 0;
                while i < b.srcs.len()
                    invariant
                        i <= b.srcs.len(),
                        self@.cow == Some(b@),
                        all == b@.srcs.map_values(
                            |id: DrawableId| cow_src_exit(store@.get(id)->0),
                        ),
                        commands@ == all.take(i as int),
                        forall|j: int| 0 <= j < i ==> store@.has(b@.srcs[j]),
                    decreases b.srcs.len() - i,
                {
                    match store.get(b.srcs[i]) {
                        None => {
                            proof {
                                present_prefix_is(store@, b@.srcs, i as int);
                            }
                            return None;
                        },
                        Some(d) => {
                            commands.push(
                                barrier_to_layout(
                                    d.image,
                                    d.layout,
                                    Layout::ShaderReadOnly,
                                    scope(STAGE_COPY, ACCESS_TRANSFER_READ),
                                    scope(STAGE_FRAGMENT_SHADER, ACCESS_SHADER_SAMPLED_READ),
                                ),
                            );
                        },
                    }
                    i = i + 1;
                    proof {
                        assert(commands@ =~= all.take(i as int));
                    }
                }
                proof {
                    present_prefix_is(store@, b@.srcs, i as int);
                }
                match store.get(b.dst) {
                    None => None,
                    Some(d) => {
                        commands.push(
                            barrier_to_layout(
                                d.image,
                                d.layout,
                                Layout::ShaderReadOnly,
                                scope(STAGE_COPY, ACCESS_TRANSFER_WRITE),
                                scope(STAGE_FRAGMENT_SHADER, ACCESS_SHADER_SAMPLED_READ),
                            ),
                        );
                        proof {
                            assert(commands@ =~= cow_exit_commands(store@, b@));
                        }
                        Some(
                            CowFlushPlan {
                                cb: b.cb,
                                commands,
                                wants_signal: b.present_completions.len() > 0,
                            },
                        )
                    },
                }
            },
        }
    }

    /// Ends the open batch and moves it to the group. Its drawables are left
    /// to be sampled and carry its ticket, and its damage is done. A batch
    /// with waiting clients is submitted at once.
    pub fn flush_cow_batch(
        &mut self,
        store: &mut DrawableStore,
        group: &mut SubmitGroup,
        reply: CowFlushReply,
    ) -> (r: Result<Option<u32>, RenderError>)
        ensures
            final(self)@ == cow_flush_engine(old(self)@, old(store)@, old(group)@, reply),
            final(store)@ == cow_flush_store(old(self)@, old(store)@, old(group)@, reply),
            final(group)@ == cow_flush_group(old(self)@, old(store)@, old(group)@, reply),
            r == cow_flush_result(old(self)@, old(store)@, old(group)@, reply),
    {
        let ghost s = self@;
        let ghost st = store@;
        let ghost g = group@;
        let batch = match self.cow_batch.take() {
            None => {
                return Ok(None);
            },
            Some(b) => b,
        };
        let ghost b = batch@;
        proof {
            assert(self@ =~= (EngineView { cow: None, ..s }));
        }
        if group.renderer_failed {
            return Ok(None);
        }
        let mut i: usize = 0;
        proof {
            assert(b.srcs.take(0) =~= Seq::empty());
        }
        while i < batch.srcs.len()
            invariant
                i <= batch.srcs.len(),
                b == batch@,
                s == old(self)@,
                st == old(store)@,
                g == old(group)@,
                s.cow == Some(b),
                !g.renderer_failed,
                self@ == (EngineView { cow: None, ..s }),
                group@ == g,
                store@ == st.laid_out(b.srcs.take(i as int), Layout::ShaderReadOnly),
                forall|j: int| 0 <= j < i ==> st.has(b.srcs[j]),
            decreases batch.srcs.len() - i,
        {
            let src = batch.srcs[i];
            proof {
                laid_out_keeps_drawables(st, b.srcs.take(i as int), Layout::ShaderReadOnly);
                assert(store@.has(src) == st.has(src));
            }
            if store.get(src).is_none() {
                proof {
                    present_prefix_is(st, b.srcs, i as int);
                }
                return Err(RenderError::UnknownDrawable(src));
            }
            store.set_layout(src, Layout::ShaderReadOnly);
            proof {
                assert(b.srcs.take(i + 1).drop_last() =~= b.srcs.take(i as int));
            }
            i = i + 1;
        }
        proof {
            assert(b.srcs.take(i as int) =~= b.srcs);
            present_prefix_is(st, b.srcs, i as int);
            laid_out_keeps_drawables(st, b.srcs, Layout::ShaderReadOnly);
            assert(store@.has(b.dst) == st.has(b.dst));
        }
        if store.get(batch.dst).is_none() {
            return Err(RenderError::UnknownDrawable(batch.dst));
        }
        store.set_layout(batch.dst, Layout::ShaderReadOnly);
        let waiting: bool = batch.present_completions.len() > 0;
        let mut signal: u64 = 0;
        if waiting {
            match reply.signal {
                Ok(x) => {
                    signal = x;
                },
                Err(e) => {
                    return Err(RenderError::Vk(e));
                },
            }
        }
        match reply.end {
            Err(e) => {
                return Err(RenderError::Vk(e));
            },
            Ok(_) => {},
        }
        group.append(batch.cb);
        store.touch_render_fence(batch.dst, batch.ticket);
        store.touch_all(&batch.srcs, batch.ticket);
        store.damage_all(batch.dst, &batch.dst_damage);
        self.acquire_generation = bump(self.acquire_generation);
        let op = SubmittedOp {
            cb: batch.cb,
            ticket: batch.ticket,
            staging: None,
            scratch: Vec::new(),
            atlas_ticket: None,
            generation: self.acquire_generation,
            retired: Vec::new(),
        };
        self.pending_group_ops.push(op);
        self.cow_flush_records.push(batch.coalesced_count);
        proof {
            assert(op@ =~= cow_parked(s, b));
            assert(self@.parked =~= s.parked.push(op@));
            assert(self@ =~= cow_recorded(s, b));
        }
        if !waiting {
            match self.maybe_auto_flush_submit_group(group, reply.submit) {
                Err(e) => Err(e),
                Ok(_) => Ok(Some(batch.coalesced_count)),
            }
        } else {
            match self.flush_submit_group(
                group,
                FlushReason::PresentCompletionSignal,
                reply.submit,
            ) {
                Ok(_) => {
                    let ghost flushed = self@;
                    let wait = match reply.export {
                        Ok(Some(fd)) => PresentBatchWait::Fd(fd),
                        Ok(None) => PresentBatchWait::Ready,
                        Err(_) => PresentBatchWait::Poll,
                    };
                    let n: usize = self.submitted.len();
                    let ticket: Option<Ticket> = if n > 0 {
                        Some(self.submitted[n - 1].ticket)
                    } else {
                        None
                    };
                    let present = PresentBatch {
                        wait,
                        ticket,
                        signal: Some(signal),
                        events: batch.present_completions,
                    };
                    self.pending_present_batches.push(present);
                    proof {
                        assert(self@.presents =~= flushed.presents.push(present@));
                        assert(self@ =~= cow_signalled(
                            cow_recorded(s, b),
                            g.appended(b.cb),
                            b,
                            signal,
                            reply,
                        ));
                    }
                    Ok(Some(batch.coalesced_count))
                },
                Err(e) => {
                    let ghost flushed = self@;
                    let present = PresentBatch {
                        wait: PresentBatchWait::Ready,
                        ticket: None,
                        signal: None,
                        events: batch.present_completions,
                    };
                    self.pending_present_batches.push(present);
                    proof {
                        assert(self@.presents =~= flushed.presents.push(present@));
                        assert(self@ =~= cow_signalled(
                            cow_recorded(s, b),
                            g.appended(b.cb),
                            b,
                            signal,
                            reply,
                        ));
                    }
                    Err(RenderError::Vk(e))
                },
            }
        }
    }
}

proof fn present_prefix_is(st: StoreView, ids: Seq<DrawableId>, n: int)
    requires
        0 <= n <= ids.len(),
        forall|j: int| 0 <= j < n ==> st.has(#[trigger] ids[j]),
        n < ids.len() ==> !st.has(ids[n]),
    ensures
        present_prefix(st, ids) == n,
    decreases n,
{
    if n > 0 {
        let rest = ids.skip(1);
        assert forall|j: int| 0 <= j < n - 1 implies st.has(#[trigger] rest[j]) by {
            assert(st.has(ids[j + 1]));
        }
        present_prefix_is(st, rest, n - 1);
        assert(st.has(ids[0]));
    }
}

/// Leaving drawables in a layout keeps which drawables exist.
pub proof fn laid_out_keeps_drawables(st: StoreView, ids: Seq<DrawableId>, layout: Layout)
    ensures
        forall|id: DrawableId| #[trigger] st.laid_out(ids, layout).has(id) == st.has(id),
    decreases ids.len(),
{
    if ids.len() > 0 {
        laid_out_keeps_drawables(st, ids.drop_last(), layout);
        let before = st.laid_out(ids.drop_last(), layout);
        assert forall|id: DrawableId| #[trigger] st.laid_out(ids, layout).has(id) == st.has(id) by {
            assert(before.has(id) == st.has(id));
        }
    }
}

} // verus!
