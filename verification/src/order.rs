//! Work reaches the queue in the order in which it was asked for.

use vstd::prelude::*;

use crate::batch::{
    direct_decision, render_flush_engine, render_flush_group, snapshots_replaced, BatchAppendReply,
    DirectPlan, DirectReply, RenderFlushReply,
};
use crate::close::{close_engine, close_group, CloseReply};
use crate::composite::{own_engine, CompositePlan, CompositeReply};
use crate::copy::copy_decision;
use crate::cow::{cow_decision, cow_flush_engine, cow_flush_group, CowFlushReply};
use crate::deferred::{DeferredReply, SnapshotFits};
use crate::dispatch::{deferred_step, direct_step};
use crate::engine::{bumped, CloseReason, EngineView, SubmittedView};
use crate::error::{DrawableId, VkCode};
use crate::geometry::{Extent, Offset, Rect, Rectangle16};
use crate::glyphs::{begun, glyphs_decision};
use crate::image::{get_decision, get_engine, get_group, put_decision, GetReply};
use crate::paint::{
    fill_decision, logic_fill_decision, paint_engine, paint_group, Decision, PaintReply, UpkeepView,
};
use crate::picture::CompositeRequest;
use crate::retire::retired;
use crate::store::{Drawable, StoreView, Ticket};
use crate::submit::{FlushReason, GroupView};
use crate::text::{
    glyph_outcome, glyphs_direct_decision, image_text_decision, GlyphImage, GlyphReply, RunView,
};
use crate::traps::{
    trap_adopted, trap_decision, trap_engine, trap_group, trap_painted, trap_upkeep, TrapReply,
    TrapRequest,
};

verus! {

/// Whether at most one kind of recorded work is open: a frame, a batch of
/// overlay copies, or a batch of composites.
pub open spec fn exclusive(s: EngineView) -> bool {
    &&& s.frame is Some ==> s.cow is None && s.render is None
    &&& s.cow is Some ==> s.render is None
}

/// A copy is recorded into a frame only when no batch is open.
pub proof fn copy_keeps_exclusive(
    s: EngineView,
    st: StoreView,
    g: GroupView,
    src: DrawableId,
    dst: DrawableId,
    rect: Rect,
    pos: Offset,
)
    requires
        copy_decision(s, st, g, src, dst, rect, pos) is Paint,
    ensures
        s.cow is None,
        s.render is None,
        forall|fresh: Ticket| exclusive(#[trigger] s.frame_opened(g, fresh)),
{
}

/// A copy to the overlay window is recorded only when no frame and no batch
/// of composites is open.
pub proof fn cow_keeps_exclusive(
    s: EngineView,
    st: StoreView,
    g: GroupView,
    cow: DrawableId,
    src: DrawableId,
    rect: Rect,
    pos: Offset,
)
    requires
        cow_decision(s, st, g, cow, src, rect, pos) is Paint,
    ensures
        s.frame is None,
        s.render is None,
{
}

/// A composite outside a frame keeps open work exclusive.
pub proof fn direct_keeps_exclusive(
    s: EngineView,
    st: StoreView,
    g: GroupView,
    req: &CompositeRequest,
    reply: DirectReply,
)
    requires
        exclusive(s),
    ensures
        exclusive(direct_step(s, st, g, req, reply).engine),
        direct_decision(s, st, g, req) is Paint ==> s.frame is None && s.cow is None,
{
}

/// A composite into a frame keeps open work exclusive.
pub proof fn deferred_keeps_exclusive(
    s: EngineView,
    st: StoreView,
    g: GroupView,
    req: &CompositeRequest,
    fits: SnapshotFits,
    reply: DeferredReply,
)
    requires
        exclusive(s),
    ensures
        exclusive(deferred_step(s, st, g, req, fits, reply).engine),
{
}

/// A text run is recorded into a frame only when no batch is open.
pub proof fn glyphs_keep_exclusive(
    s: EngineView,
    st: StoreView,
    g: GroupView,
    dst: DrawableId,
    glyphs: nat,
)
    requires
        glyphs_decision(s, st, g, dst, glyphs) is Paint,
    ensures
        s.cow is None,
        s.render is None,
        forall|fresh: Ticket|
            exclusive(begun(#[trigger] s.frame_opened(g, fresh), st, dst)),
{
}

/// Every operation with a command buffer of its own paints only when no
/// earlier work is still open, so that its command buffer comes after all of
/// it.
pub proof fn own_buffers_come_after_open_work(
    s: EngineView,
    st: StoreView,
    g: GroupView,
    id: DrawableId,
    rects: Seq<Rect>,
    function: crate::command::GcFunction,
    rects16: Seq<Rectangle16>,
    pos: Offset,
    extent: Extent,
    len: nat,
    rect: Rect,
    depth: u8,
    glyphs: nat,
    traps: &TrapRequest,
)
    ensures
        ({
            let quiet = s.frame is None && s.cow is None && s.render is None;
            &&& fill_decision(s, st, g, id, rects) is Paint ==> quiet
            &&& logic_fill_decision(s, st, g, id, function, rects16) is Paint ==> quiet
            &&& put_decision(s, st, g, id, pos, extent, len, depth) is Paint ==> quiet
            &&& get_decision(s, st, g, id, rect, depth) is Paint ==> quiet && g.entries.len() == 0
            &&& image_text_decision(s, st, g, id, glyphs) is Paint ==> quiet
            &&& glyphs_direct_decision(s, st, g, id, glyphs) is Paint ==> quiet
            &&& trap_decision(s, st, g, traps) is Paint ==> quiet
        }),
{
}

/// A composite with a command buffer of its own paints only when no earlier
/// work is still open.
pub proof fn own_composites_come_after_open_work(
    s: EngineView,
    st: StoreView,
    g: GroupView,
    req: &CompositeRequest,
)
    requires
        direct_decision(s, st, g, req) matches Decision::Paint(DirectPlan::Own(_)),
    ensures
        s.frame is None && s.cow is None && s.render is None,
{
}

/// Flushing open work ends it, whatever the device answers, and leaves the
/// other kinds alone. So an operation that asks for such chores gets through
/// after at most one of each kind.
pub proof fn chores_end_open_work(
    s: EngineView,
    st: StoreView,
    g: GroupView,
    cow: CowFlushReply,
    render: RenderFlushReply,
    reason: CloseReason,
    close: CloseReply,
)
    ensures
        ({
            let a = cow_flush_engine(s, st, g, cow);
            a.cow is None && a.render == s.render && a.frame == s.frame
        }),
        ({
            let b = render_flush_engine(s, st, g, render);
            b.render is None && b.cow == s.cow && b.frame == s.frame
        }),
        ({
            let c = close_engine(s, st, g, reason, close);
            c.frame is None && c.cow == s.cow && c.render == s.render
        }),
{
}

/// The parked command buffers as the group knows them.
pub open spec fn parked_cbs(s: EngineView) -> Seq<u64> {
    s.parked.map_values(|op: SubmittedView| op.cb)
}

/// Whether exactly the command buffers of the group are parked, in group
/// order.
pub open spec fn in_step(s: EngineView, g: GroupView) -> bool {
    s.live && parked_cbs(s) == g.entries
}

proof fn parking_in_step(s: EngineView, g: GroupView, op: SubmittedView)
    requires
        in_step(s, g),
    ensures
        in_step(s.parking(op), g.appended(op.cb)),
{
    assert(parked_cbs(s.parking(op)) =~= parked_cbs(s).push(op.cb));
}

/// Flushing the group keeps it in step with what is parked.
pub proof fn flush_keeps_step(
    s: EngineView,
    g: GroupView,
    reason: FlushReason,
    reply: Result<(), VkCode>,
)
    requires
        in_step(s, g),
    ensures
        in_step(s.flushed(g, reason, reply), g.flushed(reply)),
{
    assert(parked_cbs(s.flushed(g, reason, reply)) =~= Seq::empty());
    if g.entries.len() == 0 {
        assert(g.entries =~= Seq::empty());
    }
}

/// A command buffer of its own keeps the group in step with what is parked.
pub proof fn paint_keeps_step(s: EngineView, g: GroupView, up: UpkeepView, reply: PaintReply)
    requires
        in_step(s, g),
    ensures
        in_step(paint_engine(s, g, up, reply), paint_group(g, reply)),
{
    match reply {
        PaintReply::Failed(_) => {
            assert(parked_cbs(paint_engine(s, g, up, reply)) =~= parked_cbs(s));
        },
        PaintReply::Recorded { cb, fresh, end, submit } => {
            if end is Err {
                assert(parked_cbs(paint_engine(s, g, up, reply)) =~= parked_cbs(s));
            } else {
                let s1 = EngineView {
                    generation: match up.generation {
                        Some(_) => s.generation,
                        None => bumped(s.generation),
                    },
                    ..s
                };
                let op = crate::paint::paint_parked(s, g, up, cb, fresh);
                assert(in_step(s1, g.opened(fresh)));
                parking_in_step(s1, g.opened(fresh), op);
                flush_keeps_step(
                    s1.parking(op),
                    g.opened(fresh).appended(cb),
                    FlushReason::MaxSize,
                    submit,
                );
            }
        },
    }
}

/// Ending a batch of overlay copies keeps the group in step.
pub proof fn cow_flush_keeps_step(
    s: EngineView,
    st: StoreView,
    g: GroupView,
    reply: CowFlushReply,
)
    requires
        in_step(s, g),
    ensures
        in_step(cow_flush_engine(s, st, g, reply), cow_flush_group(s, st, g, reply)),
{
    if let Some(b) = s.cow {
        let taken = EngineView { cow: None, ..s };
        assert(parked_cbs(taken) =~= parked_cbs(s));
        let rec = crate::cow::cow_recorded(s, b);
        assert(parked_cbs(rec) =~= parked_cbs(s).push(b.cb));
        assert(in_step(rec, g.appended(b.cb)));
        flush_keeps_step(
            rec,
            g.appended(b.cb),
            FlushReason::PresentCompletionSignal,
            reply.submit,
        );
        flush_keeps_step(rec, g.appended(b.cb), FlushReason::MaxSize, reply.submit);
        let flushed = rec.flushed(
            g.appended(b.cb),
            FlushReason::PresentCompletionSignal,
            reply.submit,
        );
        if reply.signal is Ok {
            assert(parked_cbs(
                crate::cow::cow_signalled(rec, g.appended(b.cb), b, reply.signal->Ok_0, reply),
            ) =~= parked_cbs(flushed));
        }
    }
}

/// Ending a batch of composites keeps the group in step.
pub proof fn render_flush_keeps_step(
    s: EngineView,
    st: StoreView,
    g: GroupView,
    reply: RenderFlushReply,
)
    requires
        in_step(s, g),
    ensures
        in_step(render_flush_engine(s, st, g, reply), render_flush_group(s, st, g, reply)),
{
    if let Some(b) = s.render {
        assert(parked_cbs(EngineView { render: None, ..s }) =~= parked_cbs(s));
        let rec = crate::batch::batch_recorded(s, b);
        assert(parked_cbs(rec) =~= parked_cbs(s).push(b.cb));
        flush_keeps_step(rec, g.appended(b.cb), FlushReason::MaxSize, reply.submit);
    }
}

/// Closing a frame keeps the group in step.
pub proof fn close_keeps_step(
    s: EngineView,
    st: StoreView,
    g: GroupView,
    reason: CloseReason,
    reply: CloseReply,
)
    requires
        in_step(s, g),
    ensures
        in_step(close_engine(s, st, g, reason, reply), close_group(s, st, g, reply)),
{
    if let Some(f) = s.frame {
        let e = close_engine(s, st, g, reason, reply);
        match reply.begin {
            Err(_) => {
                assert(parked_cbs(e) =~= parked_cbs(s));
            },
            Ok(cb) => {
                if crate::close::record_error(s, st, f, reply) is Some {
                    assert(parked_cbs(e) =~= parked_cbs(s));
                } else {
                    let op = crate::close::frame_parked(f, cb);
                    assert(in_step(s, g.opened(f.ticket)));
                    parking_in_step(s, g.opened(f.ticket), op);
                    flush_keeps_step(
                        s.parking(op),
                        g.opened(f.ticket).appended(cb),
                        FlushReason::FrameBuilder,
                        reply.submit,
                    );
                    assert(parked_cbs(e) =~= parked_cbs(
                        s.parking(op).flushed(
                            g.opened(f.ticket).appended(cb),
                            FlushReason::FrameBuilder,
                            reply.submit,
                        ),
                    ));
                }
            },
        }
    }
}

/// A glyph upload keeps the group in step: the upload is in the group before
/// anything that is recorded later.
pub proof fn upload_keeps_step(
    s: EngineView,
    g: GroupView,
    run: RunView,
    glyph: &GlyphImage,
    reply: GlyphReply,
)
    requires
        in_step(s, g),
    ensures
        ({
            let o = glyph_outcome(s, g, run, glyph, reply);
            &&& in_step(o.engine, o.group)
            &&& g.entries.is_prefix_of(o.group.entries)
        }),
{
    let o = glyph_outcome(s, g, run, glyph, reply);
    if o.group.entries.len() == g.entries.len() {
        assert(parked_cbs(o.engine) =~= parked_cbs(s));
    } else {
        assert(parked_cbs(o.engine) =~= parked_cbs(s).push(o.group.entries.last()));
    }
}

/// Whether the tags of all command buffers, the oldest first, increase and
/// none is later than the newest tag; an open frame's tag is later than all
/// of them.
pub open spec fn tags_increase(s: EngineView) -> bool {
    let all = s.submitted + s.parked;
    &&& forall|i: int, j: int|
        #![trigger all[i], all[j]]
        0 <= i < j < all.len() ==> all[i].generation < all[j].generation
    &&& forall|i: int| 0 <= i < all.len() ==> (#[trigger] all[i]).generation <= s.generation
    &&& s.frame matches Some(f) ==> f.generation <= s.generation && forall|i: int|
        0 <= i < all.len() ==> (#[trigger] all[i]).generation < f.generation
}

proof fn parking_increases(s: EngineView, op: SubmittedView, generation: u64)
    requires
        tags_increase(s),
        s.frame is None,
        s.generation <= generation,
        op.generation <= generation,
        forall|i: int|
            0 <= i < (s.submitted + s.parked).len() ==> (#[trigger] (s.submitted
                + s.parked)[i]).generation < op.generation,
    ensures
        tags_increase((EngineView { generation, ..s }).parking(op)),
{
    let all = s.submitted + s.parked;
    let t = (EngineView { generation, ..s }).parking(op);
    assert(t.submitted + t.parked =~= all.push(op));
}

/// Flushing the group keeps tags in order.
pub proof fn flush_keeps_tags(
    s: EngineView,
    g: GroupView,
    reason: FlushReason,
    reply: Result<(), VkCode>,
)
    requires
        tags_increase(s),
    ensures
        tags_increase(s.flushed(g, reason, reply)),
{
    let all = s.submitted + s.parked;
    let t = s.flushed(g, reason, reply);
    if s.live {
        if g.flush_result(reply) is Ok {
            assert(t.submitted + t.parked =~= all);
        } else {
            assert(t.submitted + t.parked =~= all.take(s.submitted.len() as int));
        }
    }
}

/// A command buffer of its own keeps tags in order: it takes a new tag, or
/// was given one that is later than every other.
pub proof fn paint_keeps_tags(s: EngineView, g: GroupView, up: UpkeepView, reply: PaintReply)
    requires
        tags_increase(s),
        s.frame is None,
        s.generation < u64::MAX,
        up.generation matches Some(n) ==> n == s.generation && forall|i: int|
            0 <= i < (s.submitted + s.parked).len() ==> (#[trigger] (s.submitted
                + s.parked)[i]).generation < n,
    ensures
        tags_increase(paint_engine(s, g, up, reply)),
{
    match reply {
        PaintReply::Failed(_) => {
            assert(paint_engine(s, g, up, reply).submitted + paint_engine(s, g, up, reply).parked
                =~= s.submitted + s.parked);
        },
        PaintReply::Recorded { cb, fresh, end, submit } => {
            if end is Err {
                assert(paint_engine(s, g, up, reply).submitted + paint_engine(
                    s,
                    g,
                    up,
                    reply,
                ).parked =~= s.submitted + s.parked);
            } else {
                let op = crate::paint::paint_parked(s, g, up, cb, fresh);
                let generation = match up.generation {
                    Some(_) => s.generation,
                    None => bumped(s.generation),
                };
                parking_increases(s, op, generation);
                flush_keeps_tags(
                    (EngineView { generation, ..s }).parking(op),
                    g.opened(fresh).appended(cb),
                    FlushReason::MaxSize,
                    submit,
                );
            }
        },
    }
}

/// A composite with a command buffer of its own keeps tags in order.
pub proof fn own_composite_keeps_tags(
    s: EngineView,
    g: GroupView,
    req: &CompositeRequest,
    p: CompositePlan,
    reply: CompositeReply,
)
    requires
        tags_increase(s),
        s.frame is None,
        s.generation < u64::MAX - 1,
    ensures
        tags_increase(own_engine(s, g, req, p, reply)),
{
    if let CompositeReply::Described { descriptor, paint } = reply {
        let tagged = EngineView { generation: bumped(s.generation), ..s };
        assert(tagged.submitted + tagged.parked =~= s.submitted + s.parked);
        assert(tags_increase(tagged));
        paint_keeps_tags(tagged, g, crate::composite::own_upkeep(s, req, p), paint);
    }
}

/// Ending a batch keeps tags in order: the batch gets a tag later than those
/// of its descriptors.
pub proof fn batch_ends_keep_tags(
    s: EngineView,
    st: StoreView,
    g: GroupView,
    cow: CowFlushReply,
    render: RenderFlushReply,
)
    requires
        tags_increase(s),
        s.frame is None,
        s.generation < u64::MAX,
    ensures
        tags_increase(cow_flush_engine(s, st, g, cow)),
        tags_increase(render_flush_engine(s, st, g, render)),
{
    if let Some(b) = s.cow {
        let rec = crate::cow::cow_recorded(s, b);
        parking_increases(s, crate::cow::cow_parked(s, b), bumped(s.generation));
        assert(rec.submitted + rec.parked =~= (s.submitted + s.parked).push(
            crate::cow::cow_parked(s, b),
        ));
        assert(tags_increase(rec));
        flush_keeps_tags(rec, g.appended(b.cb), FlushReason::MaxSize, cow.submit);
        flush_keeps_tags(
            rec,
            g.appended(b.cb),
            FlushReason::PresentCompletionSignal,
            cow.submit,
        );
        let e = cow_flush_engine(s, st, g, cow);
        let taken = EngineView { cow: None, ..s };
        assert(taken.submitted + taken.parked =~= s.submitted + s.parked);
        let flushed = rec.flushed(
            g.appended(b.cb),
            FlushReason::PresentCompletionSignal,
            cow.submit,
        );
        if e.presents.len() > s.presents.len() {
            assert(e.submitted + e.parked =~= flushed.submitted + flushed.parked);
        }
    }
    if let Some(b) = s.render {
        let rec = crate::batch::batch_recorded(s, b);
        parking_increases(s, crate::batch::batch_parked(s, b), bumped(s.generation));
        assert(rec.submitted + rec.parked =~= (s.submitted + s.parked).push(
            crate::batch::batch_parked(s, b),
        ));
        assert(tags_increase(rec));
        flush_keeps_tags(rec, g.appended(b.cb), FlushReason::MaxSize, render.submit);
        let taken = EngineView { render: None, ..s };
        assert(taken.submitted + taken.parked =~= s.submitted + s.parked);
    }
}

/// Closing a frame keeps tags in order: the frame's tag is later than that of
/// everything before it.
pub proof fn close_keeps_tags(
    s: EngineView,
    st: StoreView,
    g: GroupView,
    reason: CloseReason,
    reply: CloseReply,
)
    requires
        tags_increase(s),
        s.live,
    ensures
        tags_increase(close_engine(s, st, g, reason, reply)),
{
    if let Some(f) = s.frame {
        let e = close_engine(s, st, g, reason, reply);
        match reply.begin {
            Err(_) => {
                assert(e.submitted + e.parked =~= s.submitted + s.parked);
            },
            Ok(cb) => {
                if crate::close::record_error(s, st, f, reply) is Some {
                    assert(e.submitted + e.parked =~= s.submitted + s.parked);
                } else {
                    let op = crate::close::frame_parked(f, cb);
                    let all = (s.submitted + s.parked).push(op);
                    if reply.submit is Ok {
                        assert(e.submitted + e.parked =~= all);
                    } else {
                        assert(e.submitted + e.parked =~= all.take(s.submitted.len() as int));
                    }
                }
            },
        }
    }
}

/// Opening a frame keeps tags in order.
pub proof fn opening_keeps_tags(s: EngineView, g: GroupView, fresh: Ticket)
    requires
        tags_increase(s),
        s.generation < u64::MAX,
    ensures
        tags_increase(s.frame_opened(g, fresh)),
{
    let t = s.frame_opened(g, fresh);
    assert(t.submitted + t.parked =~= s.submitted + s.parked);
}

/// Retiring the oldest command buffers frees descriptors only up to the tag
/// of the newest of them, and every command buffer that is left has a later
/// tag.
pub proof fn retiring_spares_later_tags(s: EngineView, n: int, m: int, i: int, j: int)
    requires
        tags_increase(s),
        0 <= i < n <= s.submitted.len(),
        0 <= m <= s.frames.len(),
        0 <= j < (retired(s, n, m).submitted + retired(s, n, m).parked).len(),
    ensures
        tags_increase(retired(s, n, m)),
        s.submitted[i].generation < (retired(s, n, m).submitted + retired(
            s,
            n,
            m,
        ).parked)[j].generation,
{
    let all = s.submitted + s.parked;
    let t = retired(s, n, m);
    assert(t.submitted + t.parked =~= all.skip(n));
    assert(all[i] == s.submitted[i]);
    assert((t.submitted + t.parked)[j] == all[n + j]);
    assert forall|a: int, b: int|
        #![trigger (t.submitted + t.parked)[a], (t.submitted + t.parked)[b]]
        0 <= a < b < (t.submitted + t.parked).len() implies (t.submitted + t.parked)[a].generation
        < (t.submitted + t.parked)[b].generation by {
        assert((t.submitted + t.parked)[a] == all[n + a]);
        assert((t.submitted + t.parked)[b] == all[n + b]);
    }
    assert forall|a: int| 0 <= a < (t.submitted + t.parked).len() implies (#[trigger] (t.submitted
        + t.parked)[a]).generation <= t.generation && (t.frame matches Some(f) ==> (t.submitted
        + t.parked)[a].generation < f.generation) by {
        assert((t.submitted + t.parked)[a] == all[n + a]);
    }
}

/// A readback keeps the group in step and tags in order. Its command buffer
/// has completed when it counts as submitted.
pub proof fn get_keeps_order(s: EngineView, g: GroupView, reply: GetReply)
    requires
        in_step(s, g),
        g.entries.len() == 0,
        tags_increase(s),
        s.frame is None,
        s.generation < u64::MAX,
    ensures
        in_step(get_engine(s, g, reply), get_group(g, reply)),
        tags_increase(get_engine(s, g, reply)),
{
    let e = get_engine(s, g, reply);
    assert(s.parked.len() == parked_cbs(s).len());
    assert(s.parked =~= Seq::empty());
    assert(g.entries =~= Seq::empty());
    assert(s.submitted + s.parked =~= s.submitted);
    match reply {
        GetReply::Failed(_) => {},
        GetReply::Recorded { staging, cb, fresh, end, submit, wait, .. } => {
            assert(parked_cbs(e) =~= Seq::empty());
            if end is Ok && submit is Ok && wait is Ok {
                assert(e.submitted + e.parked =~= s.submitted.push(e.submitted.last()));
                assert forall|i: int, j: int|
                    #![trigger (e.submitted + e.parked)[i], (e.submitted + e.parked)[j]]
                    0 <= i < j < (e.submitted + e.parked).len() implies (e.submitted
                    + e.parked)[i].generation < (e.submitted + e.parked)[j].generation by {
                    assert((s.submitted + s.parked)[i] == s.submitted[i]);
                    if j < s.submitted.len() {
                        assert((s.submitted + s.parked)[j] == s.submitted[j]);
                    }
                }
                assert forall|i: int| 0 <= i < (e.submitted + e.parked).len() implies (
                #[trigger] (e.submitted + e.parked)[i]).generation <= e.generation by {
                    if i < s.submitted.len() {
                        assert((s.submitted + s.parked)[i] == s.submitted[i]);
                    }
                }
            } else {
                assert(e.submitted + e.parked =~= s.submitted + s.parked);
            }
        },
    }
}

/// A glyph upload outside a frame keeps tags in order.
pub proof fn upload_keeps_tags(
    s: EngineView,
    g: GroupView,
    run: RunView,
    glyph: &GlyphImage,
    reply: GlyphReply,
)
    requires
        tags_increase(s),
        s.frame is None,
        s.generation < u64::MAX,
    ensures
        tags_increase(glyph_outcome(s, g, run, glyph, reply).engine),
{
    let o = glyph_outcome(s, g, run, glyph, reply);
    let e = o.engine;
    if e.parked.len() > s.parked.len() {
        parking_increases(s, e.parked.last(), bumped(s.generation));
        let t = (EngineView { generation: bumped(s.generation), ..s }).parking(e.parked.last());
        assert(e.parked =~= t.parked);
        assert(e.submitted + e.parked =~= t.submitted + t.parked);
    } else {
        assert(e.submitted + e.parked =~= s.submitted + s.parked);
    }
}

/// Taking over a retired object keeps the group in step and tags in order.
pub proof fn adopting_keeps_order(s: EngineView, g: GroupView, object: Option<u64>)
    requires
        in_step(s, g),
        tags_increase(s),
    ensures
        in_step(s.adopting(object), g),
        tags_increase(s.adopting(object)),
        s.adopting(object).generation == s.generation,
{
    let t = s.adopting(object);
    let all = s.submitted + s.parked;
    let after = t.submitted + t.parked;
    assert(parked_cbs(t) =~= parked_cbs(s));
    assert(after.len() == all.len());
    assert forall|i: int| 0 <= i < all.len() implies (#[trigger] after[i]).generation
        == all[i].generation by {}
    assert forall|i: int, j: int|
        #![trigger after[i], after[j]]
        0 <= i < j < after.len() implies after[i].generation < after[j].generation by {
        assert(all[i].generation < all[j].generation);
    }
}

/// Taking over the snapshot images that a composite replaced keeps the group
/// in step and tags in order.
pub proof fn replacing_keeps_order(
    s: EngineView,
    g: GroupView,
    p: CompositePlan,
    reply: DirectReply,
)
    requires
        in_step(s, g),
        tags_increase(s),
    ensures
        in_step(snapshots_replaced(s, p, reply), g),
        tags_increase(snapshots_replaced(s, p, reply)),
        snapshots_replaced(s, p, reply).generation == s.generation,
{
    adopting_keeps_order(s, g, reply.old_alias);
    adopting_keeps_order(s, g, reply.old_readback);
    adopting_keeps_order(s.adopting(reply.old_alias), g, reply.old_readback);
}

/// Painting trapezoids or triangles keeps the group in step and tags in
/// order.
pub proof fn traps_keep_order(
    s: EngineView,
    st: StoreView,
    g: GroupView,
    req: &TrapRequest,
    d: Drawable,
    reply: TrapReply,
)
    requires
        in_step(s, g),
        tags_increase(s),
        s.frame is None,
        s.generation < u64::MAX - 1,
    ensures
        in_step(trap_engine(s, st, g, req, d, reply), trap_group(s, st, g, req, d, reply)),
        tags_increase(trap_engine(s, st, g, req, d, reply)),
{
    let e = trap_engine(s, st, g, req, d, reply);
    if let Ok(staging) = reply.staging {
        match reply.mask_grow {
            Err(_) => {
                assert(parked_cbs(e) =~= parked_cbs(s));
                assert(e.submitted + e.parked =~= s.submitted + s.parked);
            },
            Ok(old_mask) => {
                let a = trap_adopted(s, st, req, reply);
                adopting_keeps_order(s, g, old_mask);
                adopting_keeps_order(s.adopting(old_mask), g, reply.old_readback);
                let tagged = EngineView { generation: bumped(a.generation), ..a };
                assert(tagged.submitted + tagged.parked =~= a.submitted + a.parked);
                assert(parked_cbs(tagged) =~= parked_cbs(a));
                assert(tags_increase(tagged));
                if trap_painted(s, st, req, d, reply) {
                    let up = trap_upkeep(a, req, d, staging);
                    paint_keeps_step(tagged, g, up, reply.composite->paint);
                    paint_keeps_tags(tagged, g, up, reply.composite->paint);
                } else {
                    assert(parked_cbs(e) =~= parked_cbs(a));
                    assert(e.submitted + e.parked =~= a.submitted + a.parked);
                }
            },
        }
    }
}

/// Whether no recorded work is open.
pub open spec fn quiet(s: EngineView) -> bool {
    s.frame is None && s.cow is None && s.render is None
}

/// Whether everything that was recorded since the group was opened shares its
/// ticket: the parked command buffers, an open batch and an open frame.
pub open spec fn one_ticket(s: EngineView, g: GroupView) -> bool {
    &&& g.entries.len() > 0 ==> g.ticket is Some
    &&& forall|i: int|
        0 <= i < s.parked.len() ==> Some((#[trigger] s.parked[i]).ticket) == g.ticket
    &&& s.frame matches Some(f) ==> g.ticket == Some(f.ticket)
    &&& s.cow matches Some(b) ==> g.ticket == Some(b.ticket)
    &&& s.render matches Some(b) ==> g.ticket == Some(b.ticket)
}

/// Flushing the group while no work is open, or while the group is empty,
/// leaves everything under one ticket. In particular an empty flush keeps the
/// ticket of an open batch.
pub proof fn flush_keeps_ticket(
    s: EngineView,
    g: GroupView,
    reason: FlushReason,
    reply: Result<(), VkCode>,
)
    requires
        s.live,
        one_ticket(s, g),
        quiet(s) || g.entries.len() == 0,
    ensures
        one_ticket(s.flushed(g, reason, reply), g.flushed(reply)),
{
}

/// Opening a frame, or recording into one, puts it under the group's ticket.
pub proof fn opening_keeps_ticket(s: EngineView, g: GroupView, fresh: Ticket)
    requires
        one_ticket(s, g),
    ensures
        one_ticket(s.frame_opened(g, fresh), s.frame_group(g, fresh)),
{
    let t = s.frame_opened(g, fresh);
    assert(t.parked == s.parked);
}

/// A command buffer of its own joins the group under the group's ticket.
pub proof fn paint_keeps_ticket(s: EngineView, g: GroupView, up: UpkeepView, reply: PaintReply)
    requires
        s.live,
        one_ticket(s, g),
        quiet(s),
    ensures
        one_ticket(paint_engine(s, g, up, reply), paint_group(g, reply)),
{
    if let PaintReply::Recorded { cb, fresh, end, submit } = reply {
        if end is Ok {
            let op = crate::paint::paint_parked(s, g, up, cb, fresh);
            let s1 = (EngineView {
                generation: match up.generation {
                    Some(_) => s.generation,
                    None => bumped(s.generation),
                },
                ..s
            }).parking(op);
            let g1 = g.opened(fresh).appended(cb);
            assert forall|i: int| 0 <= i < s1.parked.len() implies Some(
                (#[trigger] s1.parked[i]).ticket,
            ) == g1.ticket by {
                if i < s.parked.len() {
                    assert(Some(s.parked[i].ticket) == g.ticket);
                }
            }
            flush_keeps_ticket(s1, g1, FlushReason::MaxSize, submit);
        } else {
            assert(paint_engine(s, g, up, reply).parked == s.parked);
        }
    }
}

/// A batch that starts is under the group's ticket, and one that ends joins
/// the group under it.
pub proof fn batches_keep_ticket(
    s: EngineView,
    st: StoreView,
    g: GroupView,
    cow: CowFlushReply,
    render: RenderFlushReply,
)
    requires
        s.live,
        exclusive(s),
        one_ticket(s, g),
    ensures
        one_ticket(cow_flush_engine(s, st, g, cow), cow_flush_group(s, st, g, cow)),
        one_ticket(render_flush_engine(s, st, g, render), render_flush_group(s, st, g, render)),
{
    if let Some(b) = s.cow {
        let rec = crate::cow::cow_recorded(s, b);
        let g1 = g.appended(b.cb);
        assert forall|i: int| 0 <= i < rec.parked.len() implies Some(
            (#[trigger] rec.parked[i]).ticket,
        ) == g1.ticket by {
            if i < s.parked.len() {
                assert(Some(s.parked[i].ticket) == g.ticket);
            }
        }
        flush_keeps_ticket(rec, g1, FlushReason::MaxSize, cow.submit);
        flush_keeps_ticket(rec, g1, FlushReason::PresentCompletionSignal, cow.submit);
    }
    if let Some(b) = s.render {
        let rec = crate::batch::batch_recorded(s, b);
        let g1 = g.appended(b.cb);
        assert forall|i: int| 0 <= i < rec.parked.len() implies Some(
            (#[trigger] rec.parked[i]).ticket,
        ) == g1.ticket by {
            if i < s.parked.len() {
                assert(Some(s.parked[i].ticket) == g.ticket);
            }
        }
        flush_keeps_ticket(rec, g1, FlushReason::MaxSize, render.submit);
    }
}

/// A frame is submitted under the ticket that it was opened with.
pub proof fn close_keeps_ticket(
    s: EngineView,
    st: StoreView,
    g: GroupView,
    reason: CloseReason,
    reply: CloseReply,
)
    requires
        s.live,
        exclusive(s),
        one_ticket(s, g),
    ensures
        one_ticket(close_engine(s, st, g, reason, reply), close_group(s, st, g, reply)),
        s.frame matches Some(f) ==> g.opened(f.ticket) == g,
{
    if let Some(f) = s.frame {
        assert(g.opened(f.ticket) =~= g);
        let e = close_engine(s, st, g, reason, reply);
        if reply.begin is Err || crate::close::record_error(s, st, f, reply) is Some {
            assert(e.parked == s.parked);
        } else {
            assert(e.parked =~= Seq::empty());
        }
    }
}

/// A copy to the overlay window, and a composite that joins a batch, keep
/// everything under one ticket.
pub proof fn appends_keep_ticket(
    s: EngineView,
    g: GroupView,
    cow: DrawableId,
    src: DrawableId,
    rect: Rect,
    cb: u64,
    fresh: Ticket,
    req: &CompositeRequest,
    p: CompositePlan,
    reply: BatchAppendReply,
)
    requires
        one_ticket(s, g),
    ensures
        s.cow is None ==> one_ticket(
            EngineView {
                cow: Some(crate::cow::cow_started(cb, g.ticket_or(fresh), cow, src, rect)),
                ..s
            },
            g.opened(fresh),
        ),
        s.cow matches Some(b) ==> one_ticket(
            EngineView { cow: Some(crate::cow::cow_extended(b, src, rect)), ..s },
            g,
        ),
        one_ticket(
            crate::batch::append_engine(s, g, req, p, reply),
            crate::batch::append_group(s, g, req, p, reply),
        ),
{
    assert(crate::batch::append_engine(s, g, req, p, reply).parked == s.parked);
}

/// A glyph upload joins the group under the group's ticket.
pub proof fn upload_keeps_ticket(
    s: EngineView,
    g: GroupView,
    run: RunView,
    glyph: &GlyphImage,
    reply: GlyphReply,
)
    requires
        one_ticket(s, g),
    ensures
        ({
            let o = glyph_outcome(s, g, run, glyph, reply);
            one_ticket(o.engine, o.group)
        }),
{
    let o = glyph_outcome(s, g, run, glyph, reply);
    assert forall|i: int| 0 <= i < o.engine.parked.len() implies Some(
        (#[trigger] o.engine.parked[i]).ticket,
    ) == o.group.ticket by {
        if i < s.parked.len() {
            assert(Some(s.parked[i].ticket) == g.ticket);
            assert(o.engine.parked[i] == s.parked[i]);
        }
    }
}

} // verus!
