//! What callers read of the engine, and the records that they drain.

use vstd::prelude::*;

use crate::command::ScratchImage;
use crate::engine::{
    bump, bumped, submitted_views, Asset, Chore, CloseReason, EngineView, FrameCloseEvent,
    PresentBatch, Release, RenderEngine, RenderFlushRecord, SubmittedOp, SubmittedView,
    present_views,
};
use crate::error::{VkCode, VK_ERROR_INITIALIZATION_FAILED};
use crate::frame::{FrameView, OpView, OpenFrame, RecordedOp};
use crate::store::{Layout, Ticket};
use crate::submit::FlushOutcome;

verus! {

/// The bytes of the staging buffers of a list.
pub open spec fn staging_bytes(ops: Seq<SubmittedView>) -> int
    decreases ops.len(),
{
    if ops.len() == 0 {
        0
    } else {
        staging_bytes(ops.drop_last()) + match ops.last().staging {
            Some(x) => x.size as int,
            None => 0,
        }
    }
}

/// The bytes of a list of scratch images.
pub open spec fn image_bytes(list: Seq<ScratchImage>) -> int
    decreases list.len(),
{
    if list.len() == 0 {
        0
    } else {
        image_bytes(list.drop_last()) + list.last().size_bytes
    }
}

/// The bytes of the scratch images of a list.
pub open spec fn scratch_bytes(ops: Seq<SubmittedView>) -> int
    decreases ops.len(),
{
    if ops.len() == 0 {
        0
    } else {
        scratch_bytes(ops.drop_last()) + image_bytes(ops.last().scratch)
    }
}

/// A number as far as a counter holds it.
pub open spec fn capped(n: int) -> u64 {
    if n <= u64::MAX {
        n as u64
    } else {
        u64::MAX
    }
}

fn sum_staging(ops: &Vec<SubmittedOp>) -> (r: u64)
    ensures
        r == capped(staging_bytes(submitted_views(ops@))),
        staging_bytes(submitted_views(ops@)) >= 0,
{
    let ghost all = submitted_views(ops@);
    let mut total: u64 = 0;
    let mut i: usize = 0;
    proof {
        assert(all.take(0) =~= Seq::empty());
    }
    while i < ops.len()
        invariant
            i <= ops.len(),
            all == submitted_views(ops@),
            staging_bytes(all.take(i as int)) >= 0,
            total == capped(staging_bytes(all.take(i as int))),
        decreases ops.len() - i,
    {
        proof {
            assert(all.take(i + 1).drop_last() =~= all.take(i as int));
            assert(all.take(i + 1).last() == ops@[i as int]@);
        }
        match ops[i].staging {
            Some(x) => {
                total = total.saturating_add(x.size);
            },
            None => {},
        }
        i = i + 1;
    }
    proof {
        assert(all.take(i as int) =~= all);
    }
    total
}

fn sum_images(list: &Vec<ScratchImage>) -> (r: u64)
    ensures
        r == capped(image_bytes(list@)),
        image_bytes(list@) >= 0,
{
    let mut total: u64 = 0;
    let mut i: usize = 0;
    proof {
        assert(list@.take(0) =~= Seq::empty());
    }
    while i < list.len()
        invariant
            i <= list.len(),
            image_bytes(list@.take(i as int)) >= 0,
            total == capped(image_bytes(list@.take(i as int))),
        decreases list.len() - i,
    {
        proof {
            assert(list@.take(i + 1).drop_last() =~= list@.take(i as int));
        }
        total = total.saturating_add(list[i].size_bytes);
        i = i + 1;
    }
    proof {
        assert(list@.take(i as int) =~= list@);
    }
    total
}

fn sum_scratch(ops: &Vec<SubmittedOp>) -> (r: u64)
    ensures
        r == capped(scratch_bytes(submitted_views(ops@))),
        scratch_bytes(submitted_views(ops@)) >= 0,
{
    let ghost all = submitted_views(ops@);
    let mut total: u64 = 0;
    let mut i: usize = 0;
    proof {
        assert(all.take(0) =~= Seq::empty());
    }
    while i < ops.len()
        invariant
            i <= ops.len(),
            all == submitted_views(ops@),
            scratch_bytes(all.take(i as int)) >= 0,
            total == capped(scratch_bytes(all.take(i as int))),
        decreases ops.len() - i,
    {
        proof {
            assert(all.take(i + 1).drop_last() =~= all.take(i as int));
            assert(all.take(i + 1).last() == ops@[i as int]@);
        }
        total = total.saturating_add(sum_images(&ops[i].scratch));
        i = i + 1;
    }
    proof {
        assert(all.take(i as int) =~= all);
    }
    total
}

/// The layouts in which the composites of a list find their destinations.
pub open spec fn old_layouts(ops: Seq<OpView>) -> Seq<Layout>
    decreases ops.len(),
{
    if ops.len() == 0 {
        Seq::empty()
    } else {
        let head = old_layouts(ops.drop_last());
        match ops.last() {
            OpView::RenderComposite { setup, .. } => head.push(setup.old_layout),
            _ => head,
        }
    }
}

fn peek_old_layouts(f: &OpenFrame) -> (r: Vec<Layout>)
    ensures
        r@ == old_layouts(f@.ops),
{
    let mut out: Vec<Layout> = Vec::new();
    let ghost ops = f@.ops;
    let mut i: usize = 0;
    proof {
        assert(out@ =~= Seq::empty());
        assert(ops.take(0) =~= Seq::empty());
    }
    while i < f.ops.len()
        invariant
            i <= f.ops.len(),
            ops == crate::frame::op_views(f.ops@),
            out@ == old_layouts(ops.take(i as int)),
        decreases f.ops.len() - i,
    {
        proof {
            assert(ops.take(i + 1).drop_last() =~= ops.take(i as int));
            assert(ops.take(i + 1).last() == f.ops@[i as int]@);
        }
        match &f.ops[i] {
            RecordedOp::RenderComposite(c) => {
                out.push(c.setup.old_layout);
            },
            _ => {},
        }
        i = i + 1;
    }
    proof {
        assert(ops.take(i as int) =~= ops);
    }
    out
}

impl RenderEngine {
    /// How many command buffers were submitted and have not retired.
    pub fn pending_count(&self) -> (r: usize)
        ensures
            r == self@.submitted.len(),
    {
        self.submitted.len()
    }

    /// How many command buffers are parked.
    pub fn pending_group_ops_count_for_tests(&self) -> (r: usize)
        ensures
            r == self@.parked.len(),
    {
        self.pending_group_ops.len()
    }

    /// How many scratch images the newest command buffer owns: the newest
    /// parked one, else the newest submitted one.
    pub fn most_recent_submitted_op_scratch_len_for_tests(&self) -> (r: usize)
        ensures
            r == if self@.parked.len() > 0 {
                self@.parked.last().scratch.len()
            } else if self@.submitted.len() > 0 {
                self@.submitted.last().scratch.len()
            } else {
                0
            },
    {
        let parked: usize = self.pending_group_ops.len();
        if parked > 0 {
            return self.pending_group_ops[parked - 1].scratch.len();
        }
        let submitted: usize = self.submitted.len();
        if submitted > 0 {
            return self.submitted[submitted - 1].scratch.len();
        }
        0
    }

    /// Chooses whether RENDER text is recorded into frames. No frame may be
    /// open.
    pub fn set_frame_builder_enabled(&mut self, enabled: bool)
        requires
            old(self)@.live ==> old(self)@.frame is None,
        ensures
            final(self)@ == if old(self)@.live {
                EngineView { frame_builder_enabled: enabled, ..old(self)@ }
            } else {
                old(self)@
            },
    {
        if self.live {
            self.frame_builder_enabled = enabled;
        }
        proof {
            assert(self@ =~= if old(self)@.live {
                EngineView { frame_builder_enabled: enabled, ..old(self)@ }
            } else {
                old(self)@
            });
        }
    }

    /// Whether a frame is open.
    pub fn frame_builder_is_open(&self) -> (r: bool)
        ensures
            r == (self@.frame is Some),
    {
        self.frame.is_some()
    }

    /// How many frames were closed.
    pub fn frame_builder_lifetime_closes(&self) -> (r: u64)
        ensures
            r == self@.lifetime_closes,
    {
        self.lifetime_closes
    }

    /// How many frames were opened.
    pub fn frame_builder_lifetime_opens(&self) -> (r: u64)
        ensures
            r == self@.lifetime_opens,
    {
        self.lifetime_opens
    }

    /// The layouts in which the composites of the open frame find their
    /// destinations, in order.
    pub fn frame_builder_peek_render_composite_dst_old_layouts(&self) -> (r: Vec<Layout>)
        ensures
            r@ == match self@.frame {
                Some(f) => old_layouts(f.ops),
                None => Seq::empty(),
            },
    {
        match &self.frame {
            Some(f) => peek_old_layouts(f),
            None => {
                let none: Vec<Layout> = Vec::new();
                proof {
                    assert(none@ =~= Seq::empty());
                }
                none
            },
        }
    }

    /// How many frames were submitted, modulo the width of the counter.
    pub fn engine_frame_seq(&self) -> (r: u64)
        ensures
            r == self@.frame_seq,
    {
        self.frame_seq
    }

    /// The parked command buffers, in group order.
    pub fn pending_group_ops_cbs_for_tests(&self) -> (r: Vec<u64>)
        ensures
            r@ == self@.parked.map_values(|op: SubmittedView| op.cb),
    {
        let mut out: Vec<u64> = Vec::new();
        let mut i: usize = 0;
        let ghost goal = self@.parked.map_values(|op: SubmittedView| op.cb);
        while i < self.pending_group_ops.len()
            invariant
                i <= self.pending_group_ops.len(),
                goal == self@.parked.map_values(|op: SubmittedView| op.cb),
                out@ == goal.take(i as int),
            decreases self.pending_group_ops.len() - i,
        {
            out.push(self.pending_group_ops[i].cb);
            i = i + 1;
            proof {
                assert(out@ =~= goal.take(i as int));
            }
        }
        proof {
            assert(goal.take(i as int) =~= goal);
        }
        out
    }

    /// Whether a batch is open.
    pub fn has_pending_batches_for_tests(&self) -> (r: bool)
        ensures
            r == (self@.cow is Some || self@.render is Some),
    {
        self.cow_batch.is_some() || self.render_batch.is_some()
    }

    /// Sets the newest descriptor tag.
    pub fn set_acquire_generation_for_tests(&mut self, value: u64)
        ensures
            final(self)@ == if old(self)@.live {
                EngineView { generation: value, ..old(self)@ }
            } else {
                old(self)@
            },
    {
        if self.live {
            self.acquire_generation = value;
        }
        proof {
            assert(self@ =~= if old(self)@.live {
                EngineView { generation: value, ..old(self)@ }
            } else {
                old(self)@
            });
        }
    }

    /// The tag of the open frame.
    pub fn open_frame_generation(&self) -> (r: Option<u64>)
        ensures
            r == match self@.frame {
                Some(f) => Some(f.generation),
                None => None,
            },
    {
        match &self.frame {
            Some(f) => Some(f.generation),
            None => None,
        }
    }

    /// Opens a frame under a ticket. No frame may be open.
    pub fn open_frame_for_paint_for_tests(&mut self, ticket: Ticket)
        requires
            old(self)@.live ==> old(self)@.frame is None,
        ensures
            final(self)@ == if old(self)@.live {
                EngineView {
                    generation: bumped(old(self)@.generation),
                    lifetime_opens: bumped(old(self)@.lifetime_opens),
                    frame: Some(FrameView::fresh(ticket, bumped(old(self)@.generation))),
                    ..old(self)@
                }
            } else {
                old(self)@
            },
    {
        let ghost s = self@;
        if !self.live {
            return;
        }
        self.acquire_generation = bump(self.acquire_generation);
        self.lifetime_opens = bump(self.lifetime_opens);
        self.frame = Some(OpenFrame::new(ticket, self.acquire_generation));
        proof {
            assert(self@ =~= (EngineView {
                generation: bumped(s.generation),
                lifetime_opens: bumped(s.lifetime_opens),
                frame: Some(FrameView::fresh(ticket, bumped(s.generation))),
                ..s
            }));
        }
    }

    /// The tag for a descriptor: the open frame's, else a new one.
    pub fn acquire_descriptor_set_for_frame_or_op(&mut self) -> (r: Result<u64, VkCode>)
        ensures
            if !old(self)@.live {
                r == Err::<u64, VkCode>(VK_ERROR_INITIALIZATION_FAILED) && final(self)@ == old(
                    self)@
            } else {
                match old(self)@.frame {
                    Some(f) => r == Ok::<u64, VkCode>(f.generation) && final(self)@ == old(self)@,
                    None => r == Ok::<u64, VkCode>(bumped(old(self)@.generation)) && final(self)@
                        == (EngineView {
                        generation: bumped(old(self)@.generation),
                        ..old(self)@
                    }),
                }
            },
    {
        let ghost s = self@;
        if !self.live {
            return Err(VK_ERROR_INITIALIZATION_FAILED);
        }
        match &self.frame {
            Some(f) => {
                return Ok(f.generation);
            },
            None => {},
        }
        self.acquire_generation = bump(self.acquire_generation);
        proof {
            assert(self@ =~= (EngineView { generation: bumped(s.generation), ..s }));
        }
        Ok(self.acquire_generation)
    }

    /// Whether the open frame has been open for too long.
    pub fn close_open_frame_if_timed_out(&self, open_for_ms: u64, timeout_ms: u64) -> (r: Option<
        Chore,
    >)
        ensures
            r == if self@.frame is Some && open_for_ms >= timeout_ms {
                Some(Chore::CloseFrame(CloseReason::Timeout))
            } else {
                None
            },
    {
        if self.frame.is_some() && open_for_ms >= timeout_ms {
            Some(Chore::CloseFrame(CloseReason::Timeout))
        } else {
            None
        }
    }

    /// What has to happen before the engine can be drained for good.
    pub fn shutdown_chore(&self) -> (r: Option<Chore>)
        ensures
            r == if self@.frame is Some {
                Some(Chore::CloseFrame(CloseReason::Shutdown))
            } else {
                None
            },
    {
        if self.frame.is_some() {
            Some(Chore::CloseFrame(CloseReason::Shutdown))
        } else {
            None
        }
    }

    /// Whether the composite pipelines were built.
    pub fn render_pipelines_built(&self) -> (r: bool)
        ensures
            r == self@.has(Asset::RenderPipelines),
    {
        self.has_asset(Asset::RenderPipelines)
    }

    /// The bytes of all staging buffers and of all scratch images that parked
    /// or submitted command buffers own.
    pub fn active_resource_bytes(&self) -> (r: (u64, u64))
        ensures
            r.0 == capped(staging_bytes(self@.submitted) + staging_bytes(self@.parked)),
            r.1 == capped(scratch_bytes(self@.submitted) + scratch_bytes(self@.parked)),
    {
        (
            sum_staging(&self.submitted).saturating_add(sum_staging(&self.pending_group_ops)),
            sum_scratch(&self.submitted).saturating_add(sum_scratch(&self.pending_group_ops)),
        )
    }

    /// Takes the records of flushed overlay batches.
    pub fn drain_cow_flush_records(&mut self) -> (r: Vec<u32>)
        ensures
            r@ == old(self)@.cow_records,
            final(self)@ == (EngineView { cow_records: Seq::empty(), ..old(self)@ }),
    {
        let mut out: Vec<u32> = Vec::new();
        core::mem::swap(&mut out, &mut self.cow_flush_records);
        proof {
            assert(self@.cow_records =~= Seq::empty());
            assert(self@ =~= (EngineView { cow_records: Seq::empty(), ..old(self)@ }));
        }
        out
    }

    /// Takes the records of flushed composite batches.
    pub fn drain_render_flush_records(&mut self) -> (r: Vec<RenderFlushRecord>)
        ensures
            r@ == old(self)@.render_records,
            final(self)@ == (EngineView { render_records: Seq::empty(), ..old(self)@ }),
    {
        let mut out: Vec<RenderFlushRecord> = Vec::new();
        core::mem::swap(&mut out, &mut self.render_flush_records);
        proof {
            assert(self@.render_records =~= Seq::empty());
            assert(self@ =~= (EngineView { render_records: Seq::empty(), ..old(self)@ }));
        }
        out
    }

    /// Takes the clients to be told of completed overlay copies.
    pub fn drain_present_batches(&mut self) -> (r: Vec<PresentBatch>)
        ensures
            present_views(r@) == old(self)@.presents,
            final(self)@ == (EngineView { presents: Seq::empty(), ..old(self)@ }),
    {
        let mut out: Vec<PresentBatch> = Vec::new();
        core::mem::swap(&mut out, &mut self.pending_present_batches);
        proof {
            assert(self@.presents =~= Seq::empty());
            assert(self@ =~= (EngineView { presents: Seq::empty(), ..old(self)@ }));
        }
        out
    }

    /// Takes the records of group submissions.
    pub fn drain_flush_outcomes(&mut self) -> (r: Vec<FlushOutcome>)
        ensures
            r@ == old(self)@.outcomes,
            final(self)@ == (EngineView { outcomes: Seq::empty(), ..old(self)@ }),
    {
        let mut out: Vec<FlushOutcome> = Vec::new();
        core::mem::swap(&mut out, &mut self.pending_flush_outcomes);
        proof {
            assert(self@.outcomes =~= Seq::empty());
            assert(self@ =~= (EngineView { outcomes: Seq::empty(), ..old(self)@ }));
        }
        out
    }

    /// Takes the records of closed frames.
    pub fn drain_frame_close_events(&mut self) -> (r: Vec<FrameCloseEvent>)
        ensures
            r@ == old(self)@.close_events,
            final(self)@ == (EngineView { close_events: Seq::empty(), ..old(self)@ }),
    {
        let mut out: Vec<FrameCloseEvent> = Vec::new();
        core::mem::swap(&mut out, &mut self.pending_frame_close_events);
        proof {
            assert(self@.close_events =~= Seq::empty());
            assert(self@ =~= (EngineView { close_events: Seq::empty(), ..old(self)@ }));
        }
        out
    }

    /// Takes what the device may free, in order.
    pub fn drain_released(&mut self) -> (r: Vec<Release>)
        ensures
            r@ == old(self)@.released,
            final(self)@ == (EngineView { released: Seq::empty(), ..old(self)@ }),
    {
        let mut out: Vec<Release> = Vec::new();
        core::mem::swap(&mut out, &mut self.released);
        proof {
            assert(self@.released =~= Seq::empty());
            assert(self@ =~= (EngineView { released: Seq::empty(), ..old(self)@ }));
        }
        out
    }
}

} // verus!
