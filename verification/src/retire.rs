//! Who keeps a GPU object alive until the device is done with it, and when
//! it is freed.

use vstd::prelude::*;

use crate::engine::{
    all_contents, frame_record_views, object_releases, release_all, release_objects, release_pins,
    release_scratches, release_staging, scratch_releases, staging_release, staging_releases,
    submitted_views, EngineView, FrameRecord, FrameRecordView, Release, RenderEngine, SubmittedOp,
    SubmittedView, ViewEntry,
};
use crate::error::{DrawableId, RenderError, VkCode, VK_ERROR_OUT_OF_DEVICE_MEMORY};
use crate::frame::FrameView;
use crate::picture::{find_gradient, lookup_gradient, Gradient, SamplerConfig, SwizzleClass};
use crate::store::Ticket;
use crate::submit::{FlushReason, SubmitGroup};

verus! {

/// A list of command buffers with one more retired object on the newest.
pub open spec fn last_adopting(ops: Seq<SubmittedView>, object: u64) -> Seq<SubmittedView> {
    ops.drop_last().push(SubmittedView { retired: ops.last().retired.push(object), ..ops.last() })
}

impl EngineView {
    /// The engine after it took over an object that recorded work may still
    /// use: the open frame keeps it, else the newest submitted command buffer,
    /// else the newest parked one; with no work left it may be freed.
    pub open spec fn adopting(self, object: Option<u64>) -> EngineView {
        match object {
            None => self,
            Some(x) => match self.frame {
                Some(f) => EngineView {
                    frame: Some(FrameView { retired: f.retired.push(x), ..f }),
                    ..self
                },
                None => if self.submitted.len() > 0 {
                    EngineView { submitted: last_adopting(self.submitted, x), ..self }
                } else if self.parked.len() > 0 {
                    EngineView { parked: last_adopting(self.parked, x), ..self }
                } else {
                    EngineView { released: self.released.push(Release::Object(x)), ..self }
                },
            },
        }
    }
}

fn adopt_on_last(ops: &mut Vec<SubmittedOp>, object: u64)
    requires
        old(ops)@.len() > 0,
    ensures
        submitted_views(final(ops)@) == last_adopting(submitted_views(old(ops)@), object),
{
    let ghost start = ops@;
    match ops.pop() {
        None => {},
        Some(op) => {
            let ghost before = op@;
            let mut op = op;
            op.retired.push(object);
            proof {
                assert(op@ =~= (SubmittedView { retired: before.retired.push(object), ..before }));
            }
            ops.push(op);
        },
    }
    proof {
        assert(submitted_views(ops@) =~= last_adopting(submitted_views(start), object));
    }
}

impl RenderEngine {
    /// Takes over an object that recorded work may still use.
    pub fn adopt_retired_resource_for_gpu_retirement(&mut self, retired: Option<u64>)
        ensures
            final(self)@ == old(self)@.adopting(retired),
    {
        let ghost s = self@;
        let object: u64 = match retired {
            Some(x) => x,
            None => {
                return;
            },
        };
        match &mut self.frame {
            Some(f) => {
                f.retired.push(object);
                proof {
                    assert(f@ =~= (FrameView {
                        retired: s.frame->0.retired.push(object),
                        ..s.frame->0
                    }));
                }
            },
            None => {
                if self.submitted.len() > 0 {
                    adopt_on_last(&mut self.submitted, object);
                } else if self.pending_group_ops.len() > 0 {
                    adopt_on_last(&mut self.pending_group_ops, object);
                } else {
                    self.released.push(Release::Object(object));
                }
            },
        }
        proof {
            assert(self@ =~= s.adopting(retired));
        }
    }
}

/// How many command buffers at the front of the queue have a ticket that
/// signalled.
pub open spec fn signaled_ops(ops: Seq<SubmittedView>, signaled: Seq<Ticket>) -> nat
    decreases ops.len(),
{
    if ops.len() == 0 || !signaled.contains(ops[0].ticket) {
        0
    } else {
        1 + signaled_ops(ops.skip(1), signaled)
    }
}

/// How many frames at the front of the queue have a ticket that signalled.
pub open spec fn signaled_frames(list: Seq<FrameRecordView>, signaled: Seq<Ticket>) -> nat
    decreases list.len(),
{
    if list.len() == 0 || !signaled.contains(list[0].ticket) {
        0
    } else {
        1 + signaled_frames(list.skip(1), signaled)
    }
}

/// What is freed with a command buffer that completed.
pub open spec fn op_releases(op: SubmittedView) -> Seq<Release> {
    seq![Release::CommandBuffer(op.cb)] + staging_release(op.staging) + object_releases(op.retired)
        + seq![Release::Descriptors(op.generation)] + scratch_releases(op.scratch)
}

/// What is freed with command buffers that completed.
pub open spec fn ops_releases(ops: Seq<SubmittedView>) -> Seq<Release>
    decreases ops.len(),
{
    if ops.len() == 0 {
        Seq::empty()
    } else {
        ops_releases(ops.drop_last()) + op_releases(ops.last())
    }
}

/// What is freed with frames that completed.
pub open spec fn frames_releases(list: Seq<FrameRecordView>) -> Seq<Release>
    decreases list.len(),
{
    if list.len() == 0 {
        Seq::empty()
    } else {
        frames_releases(list.drop_last()) + object_releases(list.last().retired) + staging_releases(
            list.last().pins,
        )
    }
}

/// The engine after the first `n` submitted command buffers and the first `m`
/// frames retired.
pub open spec fn retired(s: EngineView, n: int, m: int) -> EngineView {
    EngineView {
        submitted: s.submitted.skip(n),
        frames: s.frames.skip(m),
        released: s.released + ops_releases(s.submitted.take(n)) + frames_releases(
            s.frames.take(m),
        ),
        ..s
    }
}

fn contains_ticket(list: &Vec<Ticket>, t: Ticket) -> (r: bool)
    ensures
        r == list@.contains(t),
{
    let mut i: usize = 0;
    while i < list.len()
        invariant
            i <= list.len(),
            forall|j: int| 0 <= j < i ==> list@[j] != t,
        decreases list.len() - i,
    {
        if list[i] == t {
            return true;
        }
        i = i + 1;
    }
    false
}

fn count_signaled_ops(ops: &Vec<SubmittedOp>, signaled: &Vec<Ticket>) -> (n: usize)
    ensures
        n == signaled_ops(submitted_views(ops@), signaled@),
        n <= ops@.len(),
{
    let ghost all = submitted_views(ops@);
    let mut i: usize = 0;
    proof {
        assert(all.skip(0) =~= all);
    }
    while i < ops.len()
        invariant
            i <= ops.len(),
            all == submitted_views(ops@),
            signaled_ops(all, signaled@) == i + signaled_ops(all.skip(i as int), signaled@),
        decreases ops.len() - i,
    {
        proof {
            assert(all.skip(i as int).skip(1) =~= all.skip(i + 1));
            assert(all.skip(i as int)[0] == ops@[i as int]@);
        }
        if !contains_ticket(signaled, ops[i].ticket) {
            return i;
        }
        i = i + 1;
    }
    i
}

fn count_signaled_frames(list: &Vec<FrameRecord>, signaled: &Vec<Ticket>) -> (n: usize)
    ensures
        n == signaled_frames(frame_record_views(list@), signaled@),
        n <= list@.len(),
{
    let ghost all = frame_record_views(list@);
    let mut i: usize = 0;
    proof {
        assert(all.skip(0) =~= all);
    }
    while i < list.len()
        invariant
            i <= list.len(),
            all == frame_record_views(list@),
            signaled_frames(all, signaled@) == i + signaled_frames(all.skip(i as int), signaled@),
        decreases list.len() - i,
    {
        proof {
            assert(all.skip(i as int).skip(1) =~= all.skip(i + 1));
            assert(all.skip(i as int)[0] == list@[i as int]@);
        }
        if !contains_ticket(signaled, list[i].ticket) {
            return i;
        }
        i = i + 1;
    }
    i
}

fn release_ops(ops: &Vec<SubmittedOp>, out: &mut Vec<Release>)
    ensures
        final(out)@ == old(out)@ + ops_releases(submitted_views(ops@)),
{
    let ghost start = out@;
    let ghost all = submitted_views(ops@);
    let mut i: usize = 0;
    proof {
        assert(all.take(0) =~= Seq::empty());
        assert(out@ =~= start + ops_releases(all.take(0)));
    }
    while i < ops.len()
        invariant
            i <= ops.len(),
            all == submitted_views(ops@),
            out@ == start + ops_releases(all.take(i as int)),
        decreases ops.len() - i,
    {
        let ghost before = out@;
        out.push(Release::CommandBuffer(ops[i].cb));
        release_staging(ops[i].staging, out);
        release_objects(&ops[i].retired, out);
        out.push(Release::Descriptors(ops[i].generation));
        release_scratches(&ops[i].scratch, out);
        proof {
            assert(out@ =~= before + op_releases(ops@[i as int]@));
            assert(all.take(i + 1).drop_last() =~= all.take(i as int));
            assert(all.take(i + 1).last() == ops@[i as int]@);
            assert(out@ =~= start + ops_releases(all.take(i + 1)));
        }
        i = i + 1;
    }
    proof {
        assert(all.take(i as int) =~= all);
    }
}

fn release_frames(list: &Vec<FrameRecord>, out: &mut Vec<Release>)
    ensures
        final(out)@ == old(out)@ + frames_releases(frame_record_views(list@)),
{
    let ghost start = out@;
    let ghost all = frame_record_views(list@);
    let mut i: usize = 0;
    proof {
        assert(all.take(0) =~= Seq::empty());
        assert(out@ =~= start + frames_releases(all.take(0)));
    }
    while i < list.len()
        invariant
            i <= list.len(),
            all == frame_record_views(list@),
            out@ == start + frames_releases(all.take(i as int)),
        decreases list.len() - i,
    {
        release_objects(&list[i].retired, out);
        release_pins(&list[i].pins, out);
        proof {
            assert(all.take(i + 1).drop_last() =~= all.take(i as int));
            assert(all.take(i + 1).last() == list@[i as int]@);
            assert(out@ =~= start + frames_releases(all.take(i + 1)));
        }
        i = i + 1;
    }
    proof {
        assert(all.take(i as int) =~= all);
    }
}

impl RenderEngine {
    fn retire_front(&mut self, n: usize, m: usize)
        requires
            n <= old(self)@.submitted.len(),
            m <= old(self)@.frames.len(),
        ensures
            final(self)@ == retired(old(self)@, n as int, m as int),
    {
        let ghost s = self@;
        let ghost ops = self.submitted@;
        let ghost list = self.pending_frames@;
        let rest = self.submitted.split_off(n);
        release_ops(&self.submitted, &mut self.released);
        self.submitted = rest;
        let rest_frames = self.pending_frames.split_off(m);
        release_frames(&self.pending_frames, &mut self.released);
        self.pending_frames = rest_frames;
        proof {
            assert(submitted_views(ops.take(n as int)) =~= s.submitted.take(n as int));
            assert(submitted_views(ops.skip(n as int)) =~= s.submitted.skip(n as int));
            assert(frame_record_views(list.take(m as int)) =~= s.frames.take(m as int));
            assert(frame_record_views(list.skip(m as int)) =~= s.frames.skip(m as int));
            assert(ops.subrange(0, n as int) =~= ops.take(n as int));
            assert(ops.subrange(n as int, ops.len() as int) =~= ops.skip(n as int));
            assert(list.subrange(0, m as int) =~= list.take(m as int));
            assert(list.subrange(m as int, list.len() as int) =~= list.skip(m as int));
            assert(self@ =~= retired(s, n as int, m as int));
        }
    }

    /// Frees what completed: the command buffers and the frames at the front
    /// of their queues whose tickets are among the signalled ones.
    pub fn poll_retired(&mut self, group: &SubmitGroup, signaled: &Vec<Ticket>)
        ensures
            final(self)@ == if old(self)@.live && group@.has_pool {
                retired(
                    old(self)@,
                    signaled_ops(old(self)@.submitted, signaled@) as int,
                    signaled_frames(old(self)@.frames, signaled@) as int,
                )
            } else {
                old(self)@
            },
    {
        if !self.live || !group.has_pool {
            return;
        }
        let n: usize = count_signaled_ops(&self.submitted, signaled);
        let m: usize = count_signaled_frames(&self.pending_frames, signaled);
        self.retire_front(n, m);
    }

    /// Gives up open batches, submits the group, and frees everything that
    /// was submitted, the caller having waited for the device.
    pub fn drain_all(&mut self, group: &mut SubmitGroup, reply: Result<(), VkCode>)
        ensures
            final(group)@ == old(group)@.flushed(reply),
            ({
                let flushed = (EngineView { cow: None, render: None, ..old(self)@ }).flushed(
                    old(group)@,
                    FlushReason::Shutdown,
                    reply,
                );
                final(self)@ == if old(self)@.live && old(group)@.has_pool {
                    retired(
                        flushed,
                        flushed.submitted.len() as int,
                        flushed.frames.len() as int,
                    )
                } else {
                    flushed
                }
            }),
    {
        let ghost s = self@;
        self.cow_batch = None;
        self.render_batch = None;
        proof {
            assert(self@ =~= (EngineView { cow: None, render: None, ..s }));
        }
        match self.flush_submit_group(group, FlushReason::Shutdown, reply) {
            Ok(_) => {},
            Err(_) => {},
        }
        if !self.live || !group.has_pool {
            return;
        }
        let n: usize = self.submitted.len();
        let m: usize = self.pending_frames.len();
        self.retire_front(n, m);
    }
}

/// The engine after everything that it holds was given up.
pub open spec fn given_up(s: EngineView) -> EngineView {
    EngineView {
        submitted: Seq::empty(),
        parked: Seq::empty(),
        frames: Seq::empty(),
        released: s.released + all_contents(s.submitted) + frames_releases(s.frames) + all_contents(
            s.parked,
        ),
        ..s
    }
}

impl RenderEngine {
    /// Gives up all command buffers and frames when the engine goes, the
    /// caller having waited for the device. The command buffers themselves go
    /// with their pool.
    pub fn give_up(&mut self)
        ensures
            final(self)@ == given_up(old(self)@),
    {
        let ghost s = self@;
        release_all(&self.submitted, &mut self.released);
        release_frames(&self.pending_frames, &mut self.released);
        release_all(&self.pending_group_ops, &mut self.released);
        self.submitted.clear();
        self.pending_frames.clear();
        self.pending_group_ops.clear();
        proof {
            assert(self@.submitted =~= Seq::empty());
            assert(self@.parked =~= Seq::empty());
            assert(self@.frames =~= Seq::empty());
            assert(self@ =~= given_up(s));
        }
    }
}

/// The cached view under a key.
pub open spec fn find_view(
    list: Seq<ViewEntry>,
    id: DrawableId,
    sampler: SamplerConfig,
    swizzle: SwizzleClass,
) -> Option<u64>
    decreases list.len(),
{
    if list.len() == 0 {
        None
    } else if list[0].id == id && list[0].sampler == sampler && list[0].swizzle == swizzle {
        Some(list[0].view)
    } else {
        find_view(list.skip(1), id, sampler, swizzle)
    }
}

/// The entries of other drawables.
pub open spec fn views_without(list: Seq<ViewEntry>, id: DrawableId) -> Seq<ViewEntry> {
    list.filter(|e: ViewEntry| e.id != id)
}

/// The entries of a drawable.
pub open spec fn views_of(list: Seq<ViewEntry>, id: DrawableId) -> Seq<u64>
    decreases list.len(),
{
    if list.len() == 0 {
        Seq::empty()
    } else {
        let head = views_of(list.drop_last(), id);
        if list.last().id == id {
            head.push(list.last().view)
        } else {
            head
        }
    }
}

impl RenderEngine {
    /// The cached view of a drawable, if there is one.
    pub fn drawable_view(
        &self,
        id: DrawableId,
        sampler: SamplerConfig,
        swizzle: SwizzleClass,
    ) -> (r: Option<u64>)
        ensures
            r == find_view(self@.views, id, sampler, swizzle),
    {
        let mut i: usize = 0;
        proof {
            assert(self.views@.skip(0) =~= self.views@);
        }
        while i < self.views.len()
            invariant
                i <= self.views.len(),
                find_view(self.views@, id, sampler, swizzle) == find_view(
                    self.views@.skip(i as int),
                    id,
                    sampler,
                    swizzle,
                ),
            decreases self.views.len() - i,
        {
            let e = self.views[i];
            proof {
                assert(self.views@.skip(i as int).skip(1) =~= self.views@.skip(i + 1));
            }
            if e.id == id && e.sampler == sampler && e.swizzle == swizzle {
                return Some(e.view);
            }
            i = i + 1;
        }
        None
    }

    /// The view of a drawable: the cached one, else the one that was just
    /// created, which is cached.
    pub fn ensure_drawable_view(
        &mut self,
        id: DrawableId,
        sampler: SamplerConfig,
        swizzle: SwizzleClass,
        created: Result<u64, VkCode>,
    ) -> (r: Result<u64, VkCode>)
        ensures
            match find_view(old(self)@.views, id, sampler, swizzle) {
                Some(v) => r == Ok::<u64, VkCode>(v) && final(self)@ == old(self)@,
                None => r == created && final(self)@ == match created {
                    Ok(view) => EngineView {
                        views: old(self)@.views.push(ViewEntry { id, sampler, swizzle, view }),
                        ..old(self)@
                    },
                    Err(_) => old(self)@,
                },
            },
    {
        match self.drawable_view(id, sampler, swizzle) {
            Some(v) => {
                return Ok(v);
            },
            None => {},
        }
        match created {
            Ok(view) => {
                self.views.push(ViewEntry { id, sampler, swizzle, view });
                proof {
                    assert(self@ =~= (EngineView {
                        views: old(self)@.views.push(ViewEntry { id, sampler, swizzle, view }),
                        ..old(self)@
                    }));
                }
            },
            Err(_) => {},
        }
        created
    }

    /// Forgets every cached view of a drawable and hands them out to be
    /// destroyed.
    pub fn notify_drawable_retired(&mut self, id: DrawableId) -> (r: Vec<u64>)
        ensures
            r@ == views_of(old(self)@.views, id),
            final(self)@ == (EngineView {
                views: views_without(old(self)@.views, id),
                ..old(self)@
            }),
    {
        let ghost s = self@;
        let mut keep: Vec<ViewEntry> = Vec::new();
        let mut gone: Vec<u64> = Vec::new();
        let mut i: usize = 0;
        let ghost list = self.views@;
        proof {
            assert(list.take(0) =~= Seq::empty());
            reveal(Seq::filter);
            assert(keep@ =~= views_without(list.take(0), id));
        }
        while i < self.views.len()
            invariant
                i <= self.views.len(),
                list == self.views@,
                self@ == s,
                keep@ == views_without(list.take(i as int), id),
                gone@ == views_of(list.take(i as int), id),
            decreases self.views.len() - i,
        {
            let e = self.views[i];
            proof {
                reveal(Seq::filter);
                assert(list.take(i + 1).drop_last() =~= list.take(i as int));
            }
            if e.id == id {
                gone.push(e.view);
            } else {
                keep.push(e);
            }
            i = i + 1;
        }
        proof {
            assert(list.take(i as int) =~= list);
        }
        self.views = keep;
        proof {
            assert(self@ =~= (EngineView { views: views_without(s.views, id), ..s }));
        }
        gone
    }

    /// How many views are cached.
    pub fn drawable_view_cache_len(&self) -> (r: usize)
        ensures
            r == self@.views.len(),
    {
        self.views.len()
    }
}

/// The gradients of other pictures.
pub open spec fn gradients_without(list: Seq<Gradient>, xid: u32) -> Seq<Gradient> {
    list.filter(|g: Gradient| g.xid != xid)
}

/// Why a gradient could not be built.
#[derive(Clone, Copy, Debug, PartialEq, Eq, Structural)]
pub enum GradientError {
    Vk(VkCode),
    NoMemoryType,
}

pub open spec fn gradient_error(e: GradientError) -> RenderError {
    match e {
        GradientError::Vk(c) => RenderError::Vk(c),
        GradientError::NoMemoryType => RenderError::Vk(VK_ERROR_OUT_OF_DEVICE_MEMORY),
    }
}

fn without_gradient(list: &Vec<Gradient>, xid: u32) -> (r: Vec<Gradient>)
    ensures
        r@ == gradients_without(list@, xid),
{
    let mut keep: Vec<Gradient> = Vec::new();
    let mut i: usize = 0;
    proof {
        reveal(Seq::filter);
        assert(list@.take(0) =~= Seq::empty());
        assert(keep@ =~= gradients_without(list@.take(0), xid));
    }
    while i < list.len()
        invariant
            i <= list.len(),
            keep@ == gradients_without(list@.take(i as int), xid),
        decreases list.len() - i,
    {
        let g = list[i];
        proof {
            reveal(Seq::filter);
            assert(list@.take(i + 1).drop_last() =~= list@.take(i as int));
        }
        if g.xid != xid {
            keep.push(g);
        }
        i = i + 1;
    }
    proof {
        assert(list@.take(i as int) =~= list@);
    }
    keep
}

impl RenderEngine {
    /// Keeps the lookup table of a gradient picture, linear or radial, in
    /// place of an older one. `built` is what building it came to.
    pub fn insert_gradient(
        &mut self,
        group: &SubmitGroup,
        built: Result<Gradient, GradientError>,
    ) -> (r: Result<(), RenderError>)
        ensures
            if !old(self)@.live || !group@.has_pool {
                r == Err::<(), RenderError>(RenderError::NoVk) && final(self)@ == old(self)@
            } else {
                match built {
                    Err(e) => r == Err::<(), RenderError>(gradient_error(e)) && final(self)@ == old(
                        self)@,
                    Ok(g) => r is Ok && final(self)@ == (EngineView {
                        gradients: gradients_without(old(self)@.gradients, g.xid).push(g),
                        ..old(self)@
                    }),
                }
            },
    {
        let ghost s = self@;
        if !self.live || !group.has_pool {
            return Err(RenderError::NoVk);
        }
        match built {
            Err(GradientError::Vk(c)) => Err(RenderError::Vk(c)),
            Err(GradientError::NoMemoryType) => Err(RenderError::Vk(VK_ERROR_OUT_OF_DEVICE_MEMORY)),
            Ok(g) => {
                self.gradients = without_gradient(&self.gradients, g.xid);
                self.gradients.push(g);
                proof {
                    assert(self@ =~= (EngineView {
                        gradients: gradients_without(s.gradients, g.xid).push(g),
                        ..s
                    }));
                }
                Ok(())
            },
        }
    }

    /// Forgets the lookup table of a gradient picture. Work that was recorded
    /// may still sample it, so it is retired, not freed.
    pub fn picture_paint_remove(&mut self, host_pic: u32)
        ensures
            final(self)@ == if !old(self)@.live {
                old(self)@
            } else {
                match find_gradient(old(self)@.gradients, host_pic) {
                    None => old(self)@,
                    Some(g) => (EngineView {
                        gradients: gradients_without(old(self)@.gradients, host_pic),
                        ..old(self)@
                    }).adopting(Some(g.resource)),
                }
            },
    {
        let ghost s = self@;
        if !self.live {
            return;
        }
        match lookup_gradient(&self.gradients, host_pic) {
            None => {},
            Some(g) => {
                self.gradients = without_gradient(&self.gradients, host_pic);
                proof {
                    assert(self@ =~= (EngineView {
                        gradients: gradients_without(s.gradients, host_pic),
                        ..s
                    }));
                }
                self.adopt_retired_resource_for_gpu_retirement(Some(g.resource));
            },
        }
    }

    /// How many gradient pictures have a lookup table.
    pub fn picture_paint_len(&self) -> (r: usize)
        ensures
            r == self@.gradients.len(),
    {
        self.gradients.len()
    }
}

} // verus!
