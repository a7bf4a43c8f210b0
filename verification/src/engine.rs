//! The engine's state: work that is recorded, parked, submitted or retired,
//! and the steps between them.

use vstd::prelude::*;

use crate::command::ScratchImage;
use crate::error::{DrawableId, RenderError, VkCode, VK_ERROR_INITIALIZATION_FAILED};
use crate::frame::{FrameView, GlyphInsert, OpenFrame};
use crate::geometry::Rect;
use crate::picture::{Gradient, PictFormat, SamplerConfig, SwizzleClass};
use crate::store::{Format, Layout, Ticket};
use crate::submit::{FlushOutcome, FlushReason, GroupView, SubmitGroup};

verus! {

/// A host visible buffer that a command buffer reads or writes.
#[derive(Clone, Copy, Debug, PartialEq, Eq, Structural)]
pub struct Staging {
    pub buffer: u64,
    pub size: u64,
}

/// A recorded command buffer and everything that has to outlive it.
pub struct SubmittedOp {
    pub cb: u64,
    pub ticket: Ticket,
    pub staging: Option<Staging>,
    pub scratch: Vec<ScratchImage>,
    /// The ticket of the glyph upload that the command buffer depends on.
    pub atlas_ticket: Option<Ticket>,
    /// No descriptor of the command buffer has a later tag.
    pub generation: u64,
    /// Retired objects that are released with the command buffer.
    pub retired: Vec<u64>,
}

#[verifier::ext_equal]
pub ghost struct SubmittedView {
    pub cb: u64,
    pub ticket: Ticket,
    pub staging: Option<Staging>,
    pub scratch: Seq<ScratchImage>,
    pub atlas_ticket: Option<Ticket>,
    pub generation: u64,
    pub retired: Seq<u64>,
}

impl View for SubmittedOp {
    type V = SubmittedView;

    open spec fn view(&self) -> SubmittedView {
        SubmittedView {
            cb: self.cb,
            ticket: self.ticket,
            staging: self.staging,
            scratch: self.scratch@,
            atlas_ticket: self.atlas_ticket,
            generation: self.generation,
            retired: self.retired@,
        }
    }
}

/// The command buffers of a list, as values.
pub open spec fn submitted_views(ops: Seq<SubmittedOp>) -> Seq<SubmittedView> {
    ops.map_values(|o: SubmittedOp| o@)
}

/// What a submitted frame keeps alive.
pub struct FrameRecord {
    pub ticket: Ticket,
    pub pins: Vec<u64>,
    pub retired: Vec<u64>,
    pub frame_seq: u64,
}

#[verifier::ext_equal]
pub ghost struct FrameRecordView {
    pub ticket: Ticket,
    pub pins: Seq<u64>,
    pub retired: Seq<u64>,
    pub frame_seq: u64,
}

impl View for FrameRecord {
    type V = FrameRecordView;

    open spec fn view(&self) -> FrameRecordView {
        FrameRecordView {
            ticket: self.ticket,
            pins: self.pins@,
            retired: self.retired@,
            frame_seq: self.frame_seq,
        }
    }
}

pub open spec fn frame_record_views(list: Seq<FrameRecord>) -> Seq<FrameRecordView> {
    list.map_values(|f: FrameRecord| f@)
}

/// A client that waits for a copy to the overlay window to complete.
#[derive(Clone, Copy, Debug, PartialEq, Eq, Structural)]
pub struct PresentEntry {
    pub client: u64,
    pub serial: u32,
}

/// A run of copies to the overlay window in one command buffer.
pub struct CowBatch {
    pub cb: u64,
    pub ticket: Ticket,
    pub dst: DrawableId,
    /// The drawables copied from, each once, the first copied first.
    pub srcs: Vec<DrawableId>,
    pub dst_damage: Vec<Rect>,
    pub coalesced_count: u32,
    pub present_completions: Vec<PresentEntry>,
}

#[verifier::ext_equal]
pub ghost struct CowBatchView {
    pub cb: u64,
    pub ticket: Ticket,
    pub dst: DrawableId,
    pub srcs: Seq<DrawableId>,
    pub dst_damage: Seq<Rect>,
    pub coalesced_count: u32,
    pub present_completions: Seq<PresentEntry>,
}

impl View for CowBatch {
    type V = CowBatchView;

    open spec fn view(&self) -> CowBatchView {
        CowBatchView {
            cb: self.cb,
            ticket: self.ticket,
            dst: self.dst,
            srcs: self.srcs@,
            dst_damage: self.dst_damage@,
            coalesced_count: self.coalesced_count,
            present_completions: self.present_completions@,
        }
    }
}

/// What the composites of one batch have in common.
#[derive(Clone, Copy, Debug, PartialEq, Eq, Structural)]
pub struct RenderBatchKey {
    pub dst: DrawableId,
    pub op: u8,
    pub dst_format: PictFormat,
    pub component_alpha: bool,
}

/// A run of composites onto one drawable in one command buffer.
pub struct RenderBatch {
    pub cb: u64,
    pub ticket: Ticket,
    pub key: RenderBatchKey,
    pub dst_damage: Vec<Rect>,
    /// The drawables sampled, each once, the first sampled first.
    pub touched: Vec<DrawableId>,
    pub any_mask: bool,
    pub accumulated_draws: u32,
    pub coalesced_count: u32,
}

#[verifier::ext_equal]
pub ghost struct RenderBatchView {
    pub cb: u64,
    pub ticket: Ticket,
    pub key: RenderBatchKey,
    pub dst_damage: Seq<Rect>,
    pub touched: Seq<DrawableId>,
    pub any_mask: bool,
    pub accumulated_draws: u32,
    pub coalesced_count: u32,
}

impl View for RenderBatch {
    type V = RenderBatchView;

    open spec fn view(&self) -> RenderBatchView {
        RenderBatchView {
            cb: self.cb,
            ticket: self.ticket,
            key: self.key,
            dst_damage: self.dst_damage@,
            touched: self.touched@,
            any_mask: self.any_mask,
            accumulated_draws: self.accumulated_draws,
            coalesced_count: self.coalesced_count,
        }
    }
}

/// What one flush of a composite batch held.
#[derive(Clone, Copy, Debug, PartialEq, Eq, Structural)]
pub struct RenderFlushRecord {
    pub dst: DrawableId,
    pub op: u8,
    pub has_mask: bool,
    pub coalesced_count: u32,
}

/// How completion of a present batch is waited for.
#[derive(Clone, Copy, Debug, PartialEq, Eq, Structural)]
pub enum PresentBatchWait {
    /// Wait on this file descriptor.
    Fd(i32),
    /// Nothing to wait for.
    Ready,
    /// Poll the ticket.
    Poll,
}

/// Clients to be told once a batch of overlay copies completes.
pub struct PresentBatch {
    pub wait: PresentBatchWait,
    pub ticket: Option<Ticket>,
    pub signal: Option<u64>,
    pub events: Vec<PresentEntry>,
}

#[verifier::ext_equal]
pub ghost struct PresentBatchView {
    pub wait: PresentBatchWait,
    pub ticket: Option<Ticket>,
    pub signal: Option<u64>,
    pub events: Seq<PresentEntry>,
}

impl View for PresentBatch {
    type V = PresentBatchView;

    open spec fn view(&self) -> PresentBatchView {
        PresentBatchView {
            wait: self.wait,
            ticket: self.ticket,
            signal: self.signal,
            events: self.events@,
        }
    }
}

pub open spec fn present_views(list: Seq<PresentBatch>) -> Seq<PresentBatchView> {
    list.map_values(|p: PresentBatch| p@)
}

/// Why a frame is closed.
#[derive(Clone, Copy, Debug, PartialEq, Eq, Structural)]
pub enum CloseReason {
    OwnBufferPaintOp,
    SyncWait,
    Timeout,
    PinCeiling,
    ScratchGrow,
    SceneCompose,
    Shutdown,
}

/// What one close of a frame did.
#[derive(Clone, Copy, Debug, PartialEq, Eq, Structural)]
pub struct FrameCloseEvent {
    pub reason: CloseReason,
    pub ops_in_frame: usize,
    pub glyph_uploads_in_frame: u32,
    pub renders_in_frame: u32,
    pub pin_count: usize,
    pub aborted: bool,
}

/// How many close events wait at most.
pub const MAX_CLOSE_EVENTS: usize = 1024;

/// A cached view of a drawable's storage image.
#[derive(Clone, Copy, Debug, PartialEq, Eq, Structural)]
pub struct ViewEntry {
    pub id: DrawableId,
    pub sampler: SamplerConfig,
    pub swizzle: SwizzleClass,
    pub view: u64,
}

/// The glyph atlas, as far as painting reads it.
pub struct Atlas {
    pub entries: Vec<GlyphInsert>,
    pub layout: Layout,
    pub last_render_ticket: Option<Ticket>,
    pub last_upload_ticket: Option<Ticket>,
}

#[verifier::ext_equal]
pub ghost struct AtlasView {
    pub entries: Seq<GlyphInsert>,
    pub layout: Layout,
    pub last_render_ticket: Option<Ticket>,
    pub last_upload_ticket: Option<Ticket>,
}

impl View for Atlas {
    type V = AtlasView;

    open spec fn view(&self) -> AtlasView {
        AtlasView {
            entries: self.entries@,
            layout: self.layout,
            last_render_ticket: self.last_render_ticket,
            last_upload_ticket: self.last_upload_ticket,
        }
    }
}

/// The paint engine. An engine without a device is a stub: it has no state
/// and declines every operation.
pub struct RenderEngine {
    pub live: bool,
    /// Submitted command buffers, the oldest first.
    pub submitted: Vec<SubmittedOp>,
    /// Command buffers in the open submit group, in group order.
    pub pending_group_ops: Vec<SubmittedOp>,
    /// What submitted frames keep alive, the oldest first.
    pub pending_frames: Vec<FrameRecord>,
    pub frame: Option<OpenFrame>,
    pub lifetime_opens: u64,
    pub lifetime_closes: u64,
    pub frame_seq: u64,
    pub frame_builder_enabled: bool,
    pub cow_batch: Option<CowBatch>,
    pub render_batch: Option<RenderBatch>,
    pub cow_flush_records: Vec<u32>,
    pub render_flush_records: Vec<RenderFlushRecord>,
    pub pending_present_batches: Vec<PresentBatch>,
    pub pending_flush_outcomes: Vec<FlushOutcome>,
    pub pending_frame_close_events: Vec<FrameCloseEvent>,
    /// The newest descriptor tag.
    pub acquire_generation: u64,
    pub views: Vec<ViewEntry>,
    pub gradients: Vec<Gradient>,
    pub atlas: Atlas,
    /// The device objects that were built.
    pub assets: Vec<Asset>,
    /// What the device may free, in order.
    pub released: Vec<Release>,
}

#[verifier::ext_equal]
pub ghost struct EngineView {
    pub live: bool,
    pub submitted: Seq<SubmittedView>,
    pub parked: Seq<SubmittedView>,
    pub frames: Seq<FrameRecordView>,
    pub frame: Option<FrameView>,
    pub lifetime_opens: u64,
    pub lifetime_closes: u64,
    pub frame_seq: u64,
    pub frame_builder_enabled: bool,
    pub cow: Option<CowBatchView>,
    pub render: Option<RenderBatchView>,
    pub cow_records: Seq<u32>,
    pub render_records: Seq<RenderFlushRecord>,
    pub presents: Seq<PresentBatchView>,
    pub outcomes: Seq<FlushOutcome>,
    pub close_events: Seq<FrameCloseEvent>,
    pub generation: u64,
    pub views: Seq<ViewEntry>,
    pub gradients: Seq<Gradient>,
    pub atlas: AtlasView,
    pub assets: Seq<Asset>,
    pub released: Seq<Release>,
}

impl View for RenderEngine {
    type V = EngineView;

    open spec fn view(&self) -> EngineView {
        EngineView {
            live: self.live,
            submitted: submitted_views(self.submitted@),
            parked: submitted_views(self.pending_group_ops@),
            frames: frame_record_views(self.pending_frames@),
            frame: match self.frame {
                Some(f) => Some(f@),
                None => None,
            },
            lifetime_opens: self.lifetime_opens,
            lifetime_closes: self.lifetime_closes,
            frame_seq: self.frame_seq,
            frame_builder_enabled: self.frame_builder_enabled,
            cow: match self.cow_batch {
                Some(b) => Some(b@),
                None => None,
            },
            render: match self.render_batch {
                Some(b) => Some(b@),
                None => None,
            },
            cow_records: self.cow_flush_records@,
            render_records: self.render_flush_records@,
            presents: present_views(self.pending_present_batches@),
            outcomes: self.pending_flush_outcomes@,
            close_events: self.pending_frame_close_events@,
            generation: self.acquire_generation,
            views: self.views@,
            gradients: self.gradients@,
            atlas: self.atlas@,
            assets: self.assets@,
            released: self.released@,
        }
    }
}

/// A counter advanced by one; it stays at its largest value.
pub open spec fn bumped(n: u64) -> u64 {
    if n < u64::MAX {
        (n + 1) as u64
    } else {
        u64::MAX
    }
}

pub fn bump(n: u64) -> (r: u64)
    ensures
        r == bumped(n),
{
    if n < u64::MAX {
        n + 1
    } else {
        n
    }
}

/// Something that the device may free.
#[derive(Clone, Copy, Debug, PartialEq, Eq, Structural)]
pub enum Release {
    CommandBuffer(u64),
    Staging(u64),
    Scratch(u64),
    /// A retired object.
    Object(u64),
    /// Every descriptor whose tag is not later.
    Descriptors(u64),
}

/// The staging buffer of a command buffer.
pub open spec fn staging_release(staging: Option<Staging>) -> Seq<Release> {
    match staging {
        Some(x) => seq![Release::Staging(x.buffer)],
        None => Seq::empty(),
    }
}

pub open spec fn scratch_releases(list: Seq<ScratchImage>) -> Seq<Release> {
    list.map_values(|x: ScratchImage| Release::Scratch(x.image))
}

pub open spec fn object_releases(list: Seq<u64>) -> Seq<Release> {
    list.map_values(|x: u64| Release::Object(x))
}

pub open spec fn staging_releases(list: Seq<u64>) -> Seq<Release> {
    list.map_values(|x: u64| Release::Staging(x))
}

/// What a command buffer that is never submitted holds.
pub open spec fn op_contents(op: SubmittedView) -> Seq<Release> {
    staging_release(op.staging) + scratch_releases(op.scratch) + object_releases(op.retired)
}

/// What command buffers that are never submitted hold.
pub open spec fn all_contents(ops: Seq<SubmittedView>) -> Seq<Release>
    decreases ops.len(),
{
    if ops.len() == 0 {
        Seq::empty()
    } else {
        all_contents(ops.drop_last()) + op_contents(ops.last())
    }
}

pub fn release_staging(staging: Option<Staging>, out: &mut Vec<Release>)
    ensures
        final(out)@ == old(out)@ + staging_release(staging),
{
    let ghost start = out@;
    match staging {
        Some(x) => {
            out.push(Release::Staging(x.buffer));
        },
        None => {},
    }
    proof {
        assert(out@ =~= start + staging_release(staging));
    }
}

pub fn release_scratches(list: &Vec<ScratchImage>, out: &mut Vec<Release>)
    ensures
        final(out)@ == old(out)@ + scratch_releases(list@),
{
    let ghost start = out@;
    let mut i: usize = 0;
    proof {
        assert(out@ =~= start + scratch_releases(list@.take(0)));
    }
    while i < list.len()
        invariant
            i <= list.len(),
            out@ == start + scratch_releases(list@.take(i as int)),
        decreases list.len() - i,
    {
        out.push(Release::Scratch(list[i].image));
        i = i + 1;
        proof {
            assert(out@ =~= start + scratch_releases(list@.take(i as int)));
        }
    }
    proof {
        assert(list@.take(i as int) =~= list@);
    }
}

pub fn release_objects(list: &Vec<u64>, out: &mut Vec<Release>)
    ensures
        final(out)@ == old(out)@ + object_releases(list@),
{
    let ghost start = out@;
    let mut i: usize = 0;
    proof {
        assert(out@ =~= start + object_releases(list@.take(0)));
    }
    while i < list.len()
        invariant
            i <= list.len(),
            out@ == start + object_releases(list@.take(i as int)),
        decreases list.len() - i,
    {
        out.push(Release::Object(list[i]));
        i = i + 1;
        proof {
            assert(out@ =~= start + object_releases(list@.take(i as int)));
        }
    }
    proof {
        assert(list@.take(i as int) =~= list@);
    }
}

pub fn release_pins(list: &Vec<u64>, out: &mut Vec<Release>)
    ensures
        final(out)@ == old(out)@ + staging_releases(list@),
{
    let ghost start = out@;
    let mut i: usize = 0;
    proof {
        assert(out@ =~= start + staging_releases(list@.take(0)));
    }
    while i < list.len()
        invariant
            i <= list.len(),
            out@ == start + staging_releases(list@.take(i as int)),
        decreases list.len() - i,
    {
        out.push(Release::Staging(list[i]));
        i = i + 1;
        proof {
            assert(out@ =~= start + staging_releases(list@.take(i as int)));
        }
    }
    proof {
        assert(list@.take(i as int) =~= list@);
    }
}

pub fn release_all(ops: &Vec<SubmittedOp>, out: &mut Vec<Release>)
    ensures
        final(out)@ == old(out)@ + all_contents(submitted_views(ops@)),
{
    let ghost start = out@;
    let ghost all = submitted_views(ops@);
    let mut i: usize = 0;
    proof {
        assert(all.take(0) =~= Seq::empty());
        assert(out@ =~= start + all_contents(all.take(0)));
    }
    while i < ops.len()
        invariant
            i <= ops.len(),
            all == submitted_views(ops@),
            out@ == start + all_contents(all.take(i as int)),
        decreases ops.len() - i,
    {
        release_staging(ops[i].staging, out);
        release_scratches(&ops[i].scratch, out);
        release_objects(&ops[i].retired, out);
        proof {
            assert(all.take(i + 1).drop_last() =~= all.take(i as int));
            assert(all.take(i + 1).last() == ops@[i as int]@);
            assert(out@ =~= start + all_contents(all.take(i + 1)));
        }
        i = i + 1;
    }
    proof {
        assert(all.take(i as int) =~= all);
    }
}

/// A device object that is built when it is first needed.
#[derive(Clone, Copy, Debug, PartialEq, Eq, Structural)]
pub enum Asset {
    RenderPipelines,
    SolidSrc,
    SolidMask,
    WhiteMask,
    DstReadback,
    SrcAliasReadback,
    TrapPipeline,
    MaskScratch,
    GlyphAtlas,
    TextPipeline,
    /// The raster operation pipelines of one storage format.
    LogicFill(Format),
}

/// What has to happen before an operation can go on.
#[derive(Clone, Copy, Debug, PartialEq, Eq, Structural)]
pub enum Chore {
    /// Submit the open batch of overlay copies to the group.
    FlushCow,
    /// Submit the open batch of composites to the group.
    FlushRender,
    CloseFrame(CloseReason),
    FlushGroup(FlushReason),
    Build(Asset),
}

impl EngineView {
    pub open spec fn initial(live: bool, frame_builder_enabled: bool) -> EngineView {
        EngineView {
            live,
            submitted: Seq::empty(),
            parked: Seq::empty(),
            frames: Seq::empty(),
            frame: None,
            lifetime_opens: 0,
            lifetime_closes: 0,
            frame_seq: 0,
            frame_builder_enabled,
            cow: None,
            render: None,
            cow_records: Seq::empty(),
            render_records: Seq::empty(),
            presents: Seq::empty(),
            outcomes: Seq::empty(),
            close_events: Seq::empty(),
            generation: 0,
            views: Seq::empty(),
            gradients: Seq::empty(),
            atlas: AtlasView {
                entries: Seq::empty(),
                layout: Layout::Undefined,
                last_render_ticket: None,
                last_upload_ticket: None,
            },
            assets: Seq::empty(),
            released: Seq::empty(),
        }
    }

    /// The engine after the open group was flushed: parked command buffers
    /// count as submitted, in order, or are dropped if the submission failed.
    pub open spec fn flushed(
        self,
        g: GroupView,
        reason: FlushReason,
        reply: Result<(), VkCode>,
    ) -> EngineView {
        if !self.live {
            self
        } else {
            EngineView {
                submitted: if g.flush_result(reply) is Ok {
                    self.submitted + self.parked
                } else {
                    self.submitted
                },
                parked: Seq::empty(),
                released: if g.flush_result(reply) is Ok {
                    self.released
                } else {
                    self.released + all_contents(self.parked)
                },
                outcomes: match g.flush_outcome(reason, reply) {
                    Some(o) => self.outcomes.push(o),
                    None => self.outcomes,
                },
                ..self
            }
        }
    }

    /// The engine after a flush that happens only if the group is full.
    pub open spec fn auto_flushed(self, g: GroupView, reply: Result<(), VkCode>) -> EngineView {
        if g.full() {
            self.flushed(g, FlushReason::MaxSize, reply)
        } else {
            self
        }
    }

    /// The engine with one more parked command buffer.
    pub open spec fn parking(self, op: SubmittedView) -> EngineView {
        EngineView { parked: self.parked.push(op), ..self }
    }

    /// The first piece of open batched work, the overlay copies before the
    /// composites.
    pub open spec fn batch_chore(self) -> Option<Chore> {
        if self.cow is Some {
            Some(Chore::FlushCow)
        } else if self.render is Some {
            Some(Chore::FlushRender)
        } else {
            None
        }
    }

    /// What has to happen before an operation may record a command buffer of
    /// its own while a frame may be open: the frame has to be closed, after
    /// the batches.
    pub open spec fn frame_chore(self) -> Option<Chore> {
        if self.frame is None {
            None
        } else {
            match self.batch_chore() {
                Some(c) => Some(c),
                None => Some(Chore::CloseFrame(CloseReason::OwnBufferPaintOp)),
            }
        }
    }
}

impl EngineView {
    /// What has to happen next before an operation may record a command
    /// buffer of its own and read what earlier operations painted.
    pub open spec fn own_buffer_chore(self) -> Option<Chore> {
        match self.frame_chore() {
            Some(c) => Some(c),
            None => self.batch_chore(),
        }
    }
}

/// The group after a flush that happens only if the group is full.
pub open spec fn group_auto_flushed(g: GroupView, reply: Result<(), VkCode>) -> GroupView {
    if g.full() {
        g.flushed(reply)
    } else {
        g
    }
}

/// The result of a flush that happens only if the group is full.
pub open spec fn auto_flush_result(g: GroupView, reply: Result<(), VkCode>) -> Result<
    (),
    RenderError,
> {
    if g.full() {
        match g.flush_result(reply) {
            Ok(u) => Ok(u),
            Err(e) => Err(RenderError::Vk(e)),
        }
    } else {
        Ok(())
    }
}

impl RenderEngine {
    /// An engine with a device.
    pub fn new(frame_builder_enabled: bool) -> (r: RenderEngine)
        ensures
            r@ == EngineView::initial(true, frame_builder_enabled),
    {
        RenderEngine::empty(true, frame_builder_enabled)
    }

    /// An engine without a device.
    pub fn stub() -> (r: RenderEngine)
        ensures
            r@ == EngineView::initial(false, false),
    {
        RenderEngine::empty(false, false)
    }

    fn empty(live: bool, frame_builder_enabled: bool) -> (r: RenderEngine)
        ensures
            r@ == EngineView::initial(live, frame_builder_enabled),
    {
        let r = RenderEngine {
            live,
            submitted: Vec::new(),
            pending_group_ops: Vec::new(),
            pending_frames: Vec::new(),
            frame: None,
            lifetime_opens: 0,
            lifetime_closes: 0,
            frame_seq: 0,
            frame_builder_enabled,
            cow_batch: None,
            render_batch: None,
            cow_flush_records: Vec::new(),
            render_flush_records: Vec::new(),
            pending_present_batches: Vec::new(),
            pending_flush_outcomes: Vec::new(),
            pending_frame_close_events: Vec::new(),
            acquire_generation: 0,
            views: Vec::new(),
            gradients: Vec::new(),
            atlas: Atlas {
                entries: Vec::new(),
                layout: Layout::Undefined,
                last_render_ticket: None,
                last_upload_ticket: None,
            },
            assets: Vec::new(),
            released: Vec::new(),
        };
        proof {
            assert(r@.atlas =~= EngineView::initial(live, frame_builder_enabled).atlas);
            assert(r@ =~= EngineView::initial(live, frame_builder_enabled));
        }
        r
    }

    /// Whether the engine has a device.
    pub fn is_live(&self) -> (r: bool)
        ensures
            r == self@.live,
    {
        self.live
    }

    /// Takes note of a submission of the open group: parked command buffers
    /// become submitted ones, or are dropped together if the queue refused.
    pub fn flush_submit_group(
        &mut self,
        group: &mut SubmitGroup,
        reason: FlushReason,
        reply: Result<(), VkCode>,
    ) -> (r: Result<(), VkCode>)
        ensures
            final(self)@ == old(self)@.flushed(old(group)@, reason, reply),
            final(group)@ == old(group)@.flushed(reply),
            r == old(group)@.flush_result(reply),
    {
        let flushed = group.flush(reason, reply);
        if !self.live {
            return flushed.0;
        }
        match flushed.1 {
            Some(o) => {
                self.pending_flush_outcomes.push(o);
            },
            None => {},
        }
        match flushed.0 {
            Ok(u) => {
                let ghost s = self.submitted@;
                let ghost p = self.pending_group_ops@;
                self.submitted.append(&mut self.pending_group_ops);
                proof {
                    assert(submitted_views(s + p) =~= submitted_views(s) + submitted_views(p));
                    assert(self@.parked =~= Seq::empty());
                    assert(self@ =~= old(self)@.flushed(old(group)@, reason, reply));
                }
                Ok(u)
            },
            Err(e) => {
                release_all(&self.pending_group_ops, &mut self.released);
                self.pending_group_ops.clear();
                proof {
                    assert(self@.parked =~= Seq::empty());
                    assert(self@ =~= old(self)@.flushed(old(group)@, reason, reply));
                }
                Err(e)
            },
        }
    }

    /// Takes note of a submission of the open group if the group is full.
    pub fn maybe_auto_flush_submit_group(
        &mut self,
        group: &mut SubmitGroup,
        reply: Result<(), VkCode>,
    ) -> (r: Result<(), RenderError>)
        ensures
            final(self)@ == old(self)@.auto_flushed(old(group)@, reply),
            final(group)@ == group_auto_flushed(old(group)@, reply),
            r == auto_flush_result(old(group)@, reply),
    {
        if group.is_full() {
            match self.flush_submit_group(group, FlushReason::MaxSize, reply) {
                Ok(u) => Ok(u),
                Err(e) => Err(RenderError::Vk(e)),
            }
        } else {
            Ok(())
        }
    }

    /// Which batched work has to be flushed next.
    pub fn batch_chore(&self) -> (r: Option<Chore>)
        ensures
            r == self@.batch_chore(),
    {
        if self.cow_batch.is_some() {
            Some(Chore::FlushCow)
        } else if self.render_batch.is_some() {
            Some(Chore::FlushRender)
        } else {
            None
        }
    }

    /// What has to happen next before an operation may record a command
    /// buffer of its own.
    pub fn close_open_frame_for_own_buffer(&self) -> (r: Option<Chore>)
        ensures
            r == self@.frame_chore(),
    {
        if self.frame.is_none() {
            return None;
        }
        match self.batch_chore() {
            Some(c) => Some(c),
            None => Some(Chore::CloseFrame(CloseReason::OwnBufferPaintOp)),
        }
    }

    /// What has to happen next before an operation may record a command
    /// buffer of its own and read what earlier operations painted.
    pub fn own_buffer_chore(&self) -> (r: Option<Chore>)
        ensures
            r == self@.own_buffer_chore(),
    {
        match self.close_open_frame_for_own_buffer() {
            Some(c) => Some(c),
            None => self.batch_chore(),
        }
    }
}

impl EngineView {
    /// Whether a device object was built.
    pub open spec fn has(self, asset: Asset) -> bool {
        self.assets.contains(asset)
    }

    /// Whether text can be drawn.
    pub open spec fn text_ready(self) -> bool {
        self.has(Asset::GlyphAtlas) && self.has(Asset::TextPipeline)
    }

    /// The next object that composites need, or why it cannot be built. The
    /// one pixel images are cleared once, which takes a command pool.
    pub open spec fn render_asset(self, g: GroupView) -> Result<Option<Asset>, RenderError> {
        if !self.live {
            Err(RenderError::NoVk)
        } else if g.renderer_failed {
            Err(RenderError::RendererFailed)
        } else if !self.has(Asset::RenderPipelines) {
            Ok(Some(Asset::RenderPipelines))
        } else if !g.has_pool {
            Err(RenderError::Vk(VK_ERROR_INITIALIZATION_FAILED))
        } else if !self.has(Asset::SolidSrc) {
            Ok(Some(Asset::SolidSrc))
        } else if !self.has(Asset::SolidMask) {
            Ok(Some(Asset::SolidMask))
        } else if !self.has(Asset::WhiteMask) {
            Ok(Some(Asset::WhiteMask))
        } else if !self.has(Asset::DstReadback) {
            Ok(Some(Asset::DstReadback))
        } else if !self.has(Asset::SrcAliasReadback) {
            Ok(Some(Asset::SrcAliasReadback))
        } else {
            Ok(None)
        }
    }

    /// The next object that trapezoids and triangles need, or why it cannot
    /// be built.
    pub open spec fn trap_asset(self, g: GroupView) -> Result<Option<Asset>, RenderError> {
        if !self.live {
            Err(RenderError::NoVk)
        } else if g.renderer_failed {
            Err(RenderError::RendererFailed)
        } else if !self.has(Asset::TrapPipeline) {
            Ok(Some(Asset::TrapPipeline))
        } else if !self.has(Asset::MaskScratch) {
            Ok(Some(Asset::MaskScratch))
        } else {
            Ok(None)
        }
    }

    /// The next object that raster operation fills need, or why it cannot be
    /// built.
    pub open spec fn logic_fill_asset(self, g: GroupView, format: Format) -> Result<
        Option<Asset>,
        RenderError,
    > {
        if !self.live {
            Err(RenderError::NoVk)
        } else if g.renderer_failed {
            Err(RenderError::RendererFailed)
        } else if !self.has(Asset::LogicFill(format)) {
            Ok(Some(Asset::LogicFill(format)))
        } else {
            Ok(None)
        }
    }

    /// The next object that text needs.
    pub open spec fn text_asset(self) -> Option<Asset> {
        if !self.has(Asset::GlyphAtlas) {
            Some(Asset::GlyphAtlas)
        } else if !self.has(Asset::TextPipeline) {
            Some(Asset::TextPipeline)
        } else {
            None
        }
    }
}

impl RenderEngine {
    /// Whether a device object was built.
    pub fn has_asset(&self, asset: Asset) -> (r: bool)
        ensures
            r == self@.has(asset),
    {
        let mut i: usize = 0;
        while i < self.assets.len()
            invariant
                i <= self.assets.len(),
                forall|j: int| 0 <= j < i ==> self.assets@[j] != asset,
            decreases self.assets.len() - i,
        {
            if self.assets[i] == asset {
                return true;
            }
            i = i + 1;
        }
        false
    }

    /// Takes note that a device object was built.
    pub fn asset_built(&mut self, asset: Asset)
        ensures
            final(self)@ == (EngineView { assets: old(self)@.assets.push(asset), ..old(self)@ }),
    {
        self.assets.push(asset);
        proof {
            assert(self@ =~= (EngineView { assets: old(self)@.assets.push(asset), ..old(self)@ }));
        }
    }

    /// The next object that composites need, or why it cannot be built.
    pub fn ensure_render_assets(&self, group: &SubmitGroup) -> (r: Result<
        Option<Asset>,
        RenderError,
    >)
        ensures
            r == self@.render_asset(group@),
    {
        if !self.live {
            return Err(RenderError::NoVk);
        }
        if group.renderer_failed {
            return Err(RenderError::RendererFailed);
        }
        if !self.has_asset(Asset::RenderPipelines) {
            return Ok(Some(Asset::RenderPipelines));
        }
        if !group.has_pool {
            return Err(RenderError::Vk(VK_ERROR_INITIALIZATION_FAILED));
        }
        if !self.has_asset(Asset::SolidSrc) {
            return Ok(Some(Asset::SolidSrc));
        }
        if !self.has_asset(Asset::SolidMask) {
            return Ok(Some(Asset::SolidMask));
        }
        if !self.has_asset(Asset::WhiteMask) {
            return Ok(Some(Asset::WhiteMask));
        }
        if !self.has_asset(Asset::DstReadback) {
            return Ok(Some(Asset::DstReadback));
        }
        if !self.has_asset(Asset::SrcAliasReadback) {
            return Ok(Some(Asset::SrcAliasReadback));
        }
        Ok(None)
    }

    /// The next object that trapezoids and triangles need, or why it cannot
    /// be built.
    pub fn ensure_trap_assets(&self, group: &SubmitGroup) -> (r: Result<
        Option<Asset>,
        RenderError,
    >)
        ensures
            r == self@.trap_asset(group@),
    {
        if !self.live {
            return Err(RenderError::NoVk);
        }
        if group.renderer_failed {
            return Err(RenderError::RendererFailed);
        }
        if !self.has_asset(Asset::TrapPipeline) {
            return Ok(Some(Asset::TrapPipeline));
        }
        if !self.has_asset(Asset::MaskScratch) {
            return Ok(Some(Asset::MaskScratch));
        }
        Ok(None)
    }

    /// The next object that raster operation fills need, or why it cannot be
    /// built.
    pub fn ensure_logic_fill_cache(&self, group: &SubmitGroup, format: Format) -> (r: Result<
        Option<Asset>,
        RenderError,
    >)
        ensures
            r == self@.logic_fill_asset(group@, format),
    {
        if !self.live {
            return Err(RenderError::NoVk);
        }
        if group.renderer_failed {
            return Err(RenderError::RendererFailed);
        }
        if !self.has_asset(Asset::LogicFill(format)) {
            return Ok(Some(Asset::LogicFill(format)));
        }
        Ok(None)
    }

    /// The next object that text needs.
    pub fn ensure_text_assets(&self) -> (r: Option<Asset>)
        ensures
            r == self@.text_asset(),
    {
        if !self.has_asset(Asset::GlyphAtlas) {
            return Some(Asset::GlyphAtlas);
        }
        if !self.has_asset(Asset::TextPipeline) {
            return Some(Asset::TextPipeline);
        }
        None
    }
}

} // verus!
