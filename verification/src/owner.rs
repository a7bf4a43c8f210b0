//! Every staging buffer, scratch image and retired object that the engine is
//! handed has one owner until it may be freed, and may be freed once.

use vstd::multiset::Multiset;
use vstd::prelude::*;

use crate::batch::{
    append_engine, batch_parked, batch_recorded, direct_decision, render_flush_engine,
    snapshots_replaced, BatchAppendReply, DirectPlan, DirectReply, RenderFlushReply,
};
use crate::close::{
    aborted, close_committed, close_engine, frame_parked, record_error, unsubmitted, CloseReply,
};
use crate::command::{Color, ScratchImage};
use crate::composite::{own_engine, own_upkeep, CompositePlan, CompositeReply};
use crate::copy::{
    copy_engine, copy_frame, copy_scratch, scratch_release, usable_ticket, CopyGeometry, CopyReply,
};
use crate::cow::{cow_flush_engine, cow_parked, cow_recorded, cow_signalled, CowFlushReply};
use crate::deferred::{
    deferred_decision, deferred_outcome, deferred_painted, deferred_picture, grows_alias,
    grows_readback, DeferredReply, SnapshotFits,
};
use crate::dispatch::{direct_step, render_step, RenderReply};
use crate::engine::{
    all_contents, bumped, object_releases, op_contents, scratch_releases, staging_release,
    staging_releases, CloseReason, EngineView, FrameRecordView, Release, Staging, SubmittedView,
};
use crate::error::{DrawableId, VkCode};
use crate::frame::{find_glyph, scratches, FrameView};
use crate::geometry::Rect;
use crate::glyphs::{
    begun, frame_glyph_outcome, frame_uploading, frame_with_run, upload_releases, FrameRunView,
    GlyphNeed, NewUpload, PackReply,
};
use crate::image::{get_engine, GetReply};
use crate::paint::{
    paint_abandoned, paint_engine, paint_parked, Decision, PaintReply, UpkeepView,
};
use crate::picture::{
    readback_op, CompositeRequest, Gradient, PictFormat, Repeat, ResolvedSource,
};
use crate::retire::{
    frames_releases, given_up, last_adopting, op_releases, ops_releases, retired, signaled_frames,
    signaled_ops,
};
use crate::store::{Drawable, StoreView, Ticket};
use crate::submit::{FlushReason, GroupView};
use crate::text::{glyph_outcome, GlyphImage, GlyphReply, RunView, UploadReply};
use crate::traps::{
    trap_adopted, trap_engine, trap_painted, trap_source, trap_upkeep, TrapReply, TrapRequest,
};

verus! {

/// Whether a release frees something that the engine was handed.
pub open spec fn is_owned(r: Release) -> bool {
    r is Staging || r is Scratch || r is Object
}

/// What a list of releases frees of that, however often.
pub open spec fn bag(list: Seq<Release>) -> Multiset<Release>
    decreases list.len(),
{
    if list.len() == 0 {
        Multiset::empty()
    } else if is_owned(list.last()) {
        bag(list.drop_last()).insert(list.last())
    } else {
        bag(list.drop_last())
    }
}

/// What a frame holds.
pub open spec fn frame_contents(f: FrameView) -> Seq<Release> {
    object_releases(f.retired) + staging_releases(f.pins) + scratch_releases(scratches(f.ops))
}

/// Everything that the engine was handed and that was not taken out of it to
/// be freed, however often it holds it.
pub open spec fn owned(s: EngineView) -> Multiset<Release> {
    bag(all_contents(s.submitted)).add(bag(all_contents(s.parked))).add(
        bag(frames_releases(s.frames)),
    ).add(
        match s.frame {
            Some(f) => bag(frame_contents(f)),
            None => Multiset::empty(),
        },
    ).add(bag(s.released))
}

proof fn bag_concat(a: Seq<Release>, b: Seq<Release>)
    ensures
        bag(a + b) == bag(a).add(bag(b)),
    decreases b.len(),
{
    if b.len() == 0 {
        assert(a + b =~= a);
        assert(bag(a).add(bag(b)) =~= bag(a));
    } else {
        assert((a + b).drop_last() =~= a + b.drop_last());
        bag_concat(a, b.drop_last());
        assert(bag(a + b) =~= bag(a).add(bag(b)));
    }
}

proof fn bag_one(r: Release)
    ensures
        bag(seq![r]) == if is_owned(r) {
            Multiset::empty().insert(r)
        } else {
            Multiset::empty()
        },
{
    reveal_with_fuel(bag, 2);
    assert(seq![r].drop_last() =~= Seq::empty());
}

proof fn contents_concat(a: Seq<SubmittedView>, b: Seq<SubmittedView>)
    ensures
        all_contents(a + b) == all_contents(a) + all_contents(b),
    decreases b.len(),
{
    if b.len() == 0 {
        assert(a + b =~= a);
        assert(all_contents(a) + all_contents(b) =~= all_contents(a));
    } else {
        assert((a + b).drop_last() =~= a + b.drop_last());
        contents_concat(a, b.drop_last());
        assert(all_contents(a + b) =~= all_contents(a) + all_contents(b));
    }
}

proof fn frames_concat(a: Seq<FrameRecordView>, b: Seq<FrameRecordView>)
    ensures
        frames_releases(a + b) == frames_releases(a) + frames_releases(b),
    decreases b.len(),
{
    if b.len() == 0 {
        assert(a + b =~= a);
        assert(frames_releases(a) + frames_releases(b) =~= frames_releases(a));
    } else {
        assert((a + b).drop_last() =~= a + b.drop_last());
        frames_concat(a, b.drop_last());
        assert(frames_releases(a + b) =~= frames_releases(a) + frames_releases(b));
    }
}

proof fn op_bag(op: SubmittedView)
    ensures
        bag(op_releases(op)) == bag(op_contents(op)),
{
    let cb = seq![Release::CommandBuffer(op.cb)];
    let st = staging_release(op.staging);
    let ob = object_releases(op.retired);
    let de = seq![Release::Descriptors(op.generation)];
    let sc = scratch_releases(op.scratch);
    bag_one(Release::CommandBuffer(op.cb));
    bag_one(Release::Descriptors(op.generation));
    bag_concat(cb, st);
    bag_concat(cb + st, ob);
    bag_concat(cb + st + ob, de);
    bag_concat(cb + st + ob + de, sc);
    bag_concat(st, sc);
    bag_concat(st + sc, ob);
    assert(bag(op_releases(op)) =~= bag(op_contents(op)));
}

proof fn ops_bag(ops: Seq<SubmittedView>)
    ensures
        bag(ops_releases(ops)) == bag(all_contents(ops)),
    decreases ops.len(),
{
    if ops.len() > 0 {
        ops_bag(ops.drop_last());
        op_bag(ops.last());
        bag_concat(ops_releases(ops.drop_last()), op_releases(ops.last()));
        bag_concat(all_contents(ops.drop_last()), op_contents(ops.last()));
    }
}

proof fn contents_push(ops: Seq<SubmittedView>, op: SubmittedView)
    ensures
        bag(all_contents(ops.push(op))) == bag(all_contents(ops)).add(bag(op_contents(op))),
{
    assert(ops.push(op).drop_last() =~= ops);
    bag_concat(all_contents(ops), op_contents(op));
}

/// Retiring command buffers and frames moves what they own to what may be
/// freed.
pub proof fn retiring_keeps_owned(s: EngineView, n: int, m: int)
    requires
        0 <= n <= s.submitted.len(),
        0 <= m <= s.frames.len(),
    ensures
        owned(retired(s, n, m)) == owned(s),
{
    let t = retired(s, n, m);
    let a = s.submitted.take(n);
    let b = s.submitted.skip(n);
    let fa = s.frames.take(m);
    let fb = s.frames.skip(m);
    assert(a + b =~= s.submitted);
    assert(fa + fb =~= s.frames);
    contents_concat(a, b);
    frames_concat(fa, fb);
    bag_concat(all_contents(a), all_contents(b));
    bag_concat(frames_releases(fa), frames_releases(fb));
    ops_bag(a);
    bag_concat(s.released, ops_releases(a));
    bag_concat(s.released + ops_releases(a), frames_releases(fa));
    assert(owned(t) =~= owned(s));
}

/// Only what completed is freed: every command buffer and every frame that a
/// poll retires has a ticket that signalled, and so have all before it.
pub proof fn only_completed_work_retires(s: EngineView, signaled: Seq<Ticket>, i: int)
    ensures
        signaled_ops(s.submitted, signaled) <= s.submitted.len(),
        signaled_frames(s.frames, signaled) <= s.frames.len(),
        0 <= i < signaled_ops(s.submitted, signaled) ==> signaled.contains(s.submitted[i].ticket),
        0 <= i < signaled_frames(s.frames, signaled) ==> signaled.contains(s.frames[i].ticket),
        signaled_ops(s.submitted, signaled) < s.submitted.len() ==> !signaled.contains(
            s.submitted[signaled_ops(s.submitted, signaled) as int].ticket,
        ),
        signaled_frames(s.frames, signaled) < s.frames.len() ==> !signaled.contains(
            s.frames[signaled_frames(s.frames, signaled) as int].ticket,
        ),
{
    signaled_ops_prefix(s.submitted, signaled, i);
    signaled_frames_prefix(s.frames, signaled, i);
}

proof fn signaled_ops_prefix(ops: Seq<SubmittedView>, signaled: Seq<Ticket>, i: int)
    ensures
        signaled_ops(ops, signaled) <= ops.len(),
        0 <= i < signaled_ops(ops, signaled) ==> signaled.contains(ops[i].ticket),
        signaled_ops(ops, signaled) < ops.len() ==> !signaled.contains(
            ops[signaled_ops(ops, signaled) as int].ticket,
        ),
    decreases ops.len(),
{
    if ops.len() > 0 && signaled.contains(ops[0].ticket) {
        signaled_ops_prefix(ops.skip(1), signaled, i - 1);
    }
}

proof fn signaled_frames_prefix(list: Seq<FrameRecordView>, signaled: Seq<Ticket>, i: int)
    ensures
        signaled_frames(list, signaled) <= list.len(),
        0 <= i < signaled_frames(list, signaled) ==> signaled.contains(list[i].ticket),
        signaled_frames(list, signaled) < list.len() ==> !signaled.contains(
            list[signaled_frames(list, signaled) as int].ticket,
        ),
    decreases list.len(),
{
    if list.len() > 0 && signaled.contains(list[0].ticket) {
        signaled_frames_prefix(list.skip(1), signaled, i - 1);
    }
}

/// Flushing the group keeps what the engine owns: a submission that fails
/// makes it free to go, nothing is lost.
pub proof fn flushing_keeps_owned(
    s: EngineView,
    g: GroupView,
    reason: FlushReason,
    reply: Result<(), VkCode>,
)
    ensures
        owned(s.flushed(g, reason, reply)) == owned(s),
{
    let t = s.flushed(g, reason, reply);
    if s.live {
        contents_concat(s.submitted, s.parked);
        bag_concat(all_contents(s.submitted), all_contents(s.parked));
        bag_concat(s.released, all_contents(s.parked));
        assert(bag(all_contents(Seq::<SubmittedView>::empty())) =~= Multiset::empty());
        assert(owned(t) =~= owned(s));
    }
}

proof fn bag_push(list: Seq<Release>, r: Release)
    ensures
        bag(list.push(r)) == bag(list).add(bag(seq![r])),
{
    assert(list.push(r) =~= list + seq![r]);
    bag_concat(list, seq![r]);
}

proof fn adopted_bag(ops: Seq<SubmittedView>, x: u64)
    requires
        ops.len() > 0,
    ensures
        bag(all_contents(last_adopting(ops, x))) == bag(all_contents(ops)).insert(
            Release::Object(x),
        ),
{
    let op = ops.last();
    let with = SubmittedView { retired: op.retired.push(x), ..op };
    assert(last_adopting(ops, x).drop_last() =~= ops.drop_last());
    assert(object_releases(op.retired.push(x)) =~= object_releases(op.retired).push(
        Release::Object(x),
    ));
    assert(op_contents(with) =~= op_contents(op).push(Release::Object(x)));
    bag_push(op_contents(op), Release::Object(x));
    bag_one(Release::Object(x));
    bag_concat(all_contents(ops.drop_last()), op_contents(op));
    bag_concat(all_contents(ops.drop_last()), op_contents(with));
    assert(bag(all_contents(last_adopting(ops, x))) =~= bag(all_contents(ops)).insert(
        Release::Object(x),
    ));
}

/// An object that is retired gets exactly one owner.
pub proof fn adopting_owns_once(s: EngineView, x: u64)
    ensures
        owned(s.adopting(Some(x))) == owned(s).insert(Release::Object(x)),
{
    let t = s.adopting(Some(x));
    bag_one(Release::Object(x));
    match s.frame {
        Some(f) => {
            let f1 = FrameView { retired: f.retired.push(x), ..f };
            assert(object_releases(f.retired.push(x)) =~= object_releases(f.retired).push(
                Release::Object(x),
            ));
            let rest = staging_releases(f.pins) + scratch_releases(scratches(f.ops));
            assert(frame_contents(f) =~= object_releases(f.retired) + rest);
            assert(frame_contents(f1) =~= object_releases(f.retired).push(Release::Object(x))
                + rest);
            bag_concat(object_releases(f.retired), rest);
            bag_concat(object_releases(f.retired).push(Release::Object(x)), rest);
            bag_push(object_releases(f.retired), Release::Object(x));
        },
        None => {
            if s.submitted.len() > 0 {
                adopted_bag(s.submitted, x);
            } else if s.parked.len() > 0 {
                adopted_bag(s.parked, x);
            } else {
                bag_push(s.released, Release::Object(x));
            }
        },
    }
    assert(owned(t) =~= owned(s).insert(Release::Object(x)));
}

/// A command buffer of its own owns its staging buffer, or leaves it free to
/// go if it came to nothing.
pub proof fn painting_owns_staging(s: EngineView, g: GroupView, up: UpkeepView, reply: PaintReply)
    ensures
        owned(paint_engine(s, g, up, reply)) == owned(s).add(bag(staging_release(up.staging))),
{
    bag_concat(s.released, staging_release(up.staging));
    match reply {
        PaintReply::Failed(_) => {
            assert(owned(paint_engine(s, g, up, reply)) =~= owned(s).add(
                bag(staging_release(up.staging)),
            ));
        },
        PaintReply::Recorded { cb, fresh, end, submit } => {
            if end is Err {
                assert(owned(paint_engine(s, g, up, reply)) =~= owned(s).add(
                    bag(staging_release(up.staging)),
                ));
            } else {
                let op = paint_parked(s, g, up, cb, fresh);
                let s1 = EngineView {
                    generation: match up.generation {
                        Some(_) => s.generation,
                        None => bumped(s.generation),
                    },
                    ..s
                };
                contents_push(s.parked, op);
                assert(op_contents(op) =~= staging_release(up.staging));
                assert(owned(s1.parking(op)) =~= owned(s).add(bag(staging_release(up.staging))));
                flushing_keeps_owned(
                    s1.parking(op),
                    g.opened(fresh).appended(cb),
                    FlushReason::MaxSize,
                    submit,
                );
            }
        },
    }
}

/// Ending a batch changes nothing of what the engine owns.
pub proof fn batch_ends_keep_owned(
    s: EngineView,
    st: StoreView,
    g: GroupView,
    cow: CowFlushReply,
    render: RenderFlushReply,
)
    ensures
        owned(cow_flush_engine(s, st, g, cow)) == owned(s),
        owned(render_flush_engine(s, st, g, render)) == owned(s),
{
    if let Some(b) = s.cow {
        let op = cow_parked(s, b);
        let rec = cow_recorded(s, b);
        contents_push(s.parked, op);
        assert(op_contents(op) =~= Seq::empty());
        assert(owned(rec) =~= owned(s));
        flushing_keeps_owned(rec, g.appended(b.cb), FlushReason::MaxSize, cow.submit);
        flushing_keeps_owned(
            rec,
            g.appended(b.cb),
            FlushReason::PresentCompletionSignal,
            cow.submit,
        );
        assert(owned(EngineView { cow: None, ..s }) =~= owned(s));
        let flushed = rec.flushed(
            g.appended(b.cb),
            FlushReason::PresentCompletionSignal,
            cow.submit,
        );
        if reply_is_ok(cow) {
            assert(owned(
                cow_signalled(rec, g.appended(b.cb), b, cow.signal->Ok_0, cow),
            ) =~= owned(flushed));
        }
    }
    if let Some(b) = s.render {
        let op = batch_parked(s, b);
        let rec = batch_recorded(s, b);
        contents_push(s.parked, op);
        assert(op_contents(op) =~= Seq::empty());
        assert(owned(rec) =~= owned(s));
        flushing_keeps_owned(rec, g.appended(b.cb), FlushReason::MaxSize, render.submit);
        assert(owned(EngineView { render: None, ..s }) =~= owned(s));
    }
}

spec fn reply_is_ok(reply: CowFlushReply) -> bool {
    reply.signal is Ok && reply.end is Ok
}

/// Closing a frame changes nothing of what the engine owns: what the frame
/// held waits for its ticket, or may be freed if the frame failed.
pub proof fn closing_keeps_owned(
    s: EngineView,
    st: StoreView,
    g: GroupView,
    reason: CloseReason,
    reply: CloseReply,
)
    requires
        s.live,
    ensures
        owned(close_engine(s, st, g, reason, reply)) == owned(s),
{
    if let Some(f) = s.frame {
        let ob = object_releases(f.retired);
        let pi = staging_releases(f.pins);
        let sc = scratch_releases(scratches(f.ops));
        bag_concat(ob, pi);
        bag_concat(ob + pi, sc);
        match reply.begin {
            Err(_) => {
                aborting_keeps_owned(s, f, reason, unsubmitted(f, None));
            },
            Ok(cb) => {
                if record_error(s, st, f, reply) is Some {
                    aborting_keeps_owned(
                        s,
                        f,
                        reason,
                        unsubmitted(
                            f,
                            if g.has_pool {
                                Some(cb)
                            } else {
                                None
                            },
                        ),
                    );
                } else {
                    let op = frame_parked(f, cb);
                    let p = s.parking(op);
                    contents_push(s.parked, op);
                    assert(op_contents(op) =~= sc);
                    let flushed = p.flushed(
                        g.opened(f.ticket).appended(cb),
                        FlushReason::FrameBuilder,
                        reply.submit,
                    );
                    flushing_keeps_owned(
                        p,
                        g.opened(f.ticket).appended(cb),
                        FlushReason::FrameBuilder,
                        reply.submit,
                    );
                    assert(owned(p) =~= owned(s).add(bag(sc)));
                    if reply.submit is Err {
                        let t = aborted(flushed, f, reason, Seq::empty());
                        assert(flushed.released + Seq::<Release>::empty() + ob + pi
                            =~= flushed.released + (ob + pi));
                        bag_concat(flushed.released, ob + pi);
                        assert(owned(t).add(bag(sc)) =~= owned(flushed));
                        assert forall|r: Release| owned(t).count(r) == owned(s).count(r) by {
                            assert(owned(t).add(bag(sc)).count(r) == owned(flushed).count(r));
                            assert(owned(p).count(r) == owned(s).add(bag(sc)).count(r));
                        }
                        assert(owned(t) =~= owned(s));
                    } else {
                        let t = close_committed(flushed, f, reason);
                        let rec = t.frames.last();
                        assert(t.frames.drop_last() =~= flushed.frames);
                        bag_concat(frames_releases(flushed.frames) + ob, pi);
                        bag_concat(frames_releases(flushed.frames), ob);
                        assert(frames_releases(t.frames) =~= frames_releases(flushed.frames) + ob
                            + pi);
                        assert(owned(t).add(bag(sc)) =~= owned(flushed));
                        assert forall|r: Release| owned(t).count(r) == owned(s).count(r) by {
                            assert(owned(t).add(bag(sc)).count(r) == owned(flushed).count(r));
                            assert(owned(p).count(r) == owned(s).add(bag(sc)).count(r));
                        }
                        assert(owned(t) =~= owned(s));
                    }
                }
            },
        }
    }
}

proof fn aborting_keeps_owned(
    s: EngineView,
    f: FrameView,
    reason: CloseReason,
    extra: Seq<Release>,
)
    requires
        s.frame == Some(f),
        exists|cb: Option<u64>| extra == #[trigger] unsubmitted(f, cb),
    ensures
        owned(aborted(s, f, reason, extra)) == owned(s),
{
    let cb = choose|cb: Option<u64>| extra == #[trigger] unsubmitted(f, cb);
    let ob = object_releases(f.retired);
    let pi = staging_releases(f.pins);
    let sc = scratch_releases(scratches(f.ops));
    let first: Seq<Release> = match cb {
        Some(cb) => seq![Release::CommandBuffer(cb)],
        None => Seq::empty(),
    };
    if let Some(x) = cb {
        bag_one(Release::CommandBuffer(x));
    }
    assert(extra =~= first + sc);
    assert(bag(first) =~= Multiset::empty());
    bag_concat(first, sc);
    bag_concat(s.released, extra);
    bag_concat(s.released + extra, ob);
    bag_concat(s.released + extra + ob, pi);
    bag_concat(ob, pi);
    bag_concat(ob + pi, sc);
    assert(owned(aborted(s, f, reason, extra)) =~= owned(s));
}

/// A frame that is opened owns nothing yet.
pub proof fn opening_frame_keeps_owned(s: EngineView, g: GroupView, fresh: Ticket)
    ensures
        owned(s.frame_opened(g, fresh)) == owned(s),
{
    let t = s.frame_opened(g, fresh);
    if s.frame is None {
        assert(frame_contents(t.frame->0) =~= Seq::empty());
        assert(owned(t) =~= owned(s));
    }
}

/// What the open frame refers to changes nothing of what the engine owns.
pub proof fn referring_keeps_owned(s: EngineView, st: StoreView, id: DrawableId)
    requires
        s.frame is Some,
    ensures
        owned(s.referring(st, id)) == owned(s),
        owned(begun(s, st, id)) == owned(s),
{
    let f = s.frame->0;
    assert(frame_contents(s.referring(st, id).frame->0) == frame_contents(f));
    assert(frame_contents(begun(s, st, id).frame->0) == frame_contents(f));
}

proof fn copying_into_frame(
    s: EngineView,
    f: FrameView,
    st: StoreView,
    src: DrawableId,
    dst: DrawableId,
    c: CopyGeometry,
    scratch: Option<ScratchImage>,
)
    requires
        s.frame == Some(f),
    ensures
        owned(EngineView { frame: Some(copy_frame(f, st, src, dst, c, scratch)), ..s }) == owned(
            s,
        ).add(bag(scratch_release(scratch))),
{
    let f1 = copy_frame(f, st, src, dst, c, scratch);
    let add = scratch_release(scratch);
    assert(f1.ops.drop_last() =~= f.ops);
    assert(scratch_releases(scratches(f1.ops)) =~= scratch_releases(scratches(f.ops)) + add);
    let head = object_releases(f.retired) + staging_releases(f.pins);
    bag_concat(head, scratch_releases(scratches(f.ops)));
    bag_concat(head, scratch_releases(scratches(f.ops)) + add);
    bag_concat(scratch_releases(scratches(f.ops)), add);
    assert(owned(EngineView { frame: Some(f1), ..s }) =~= owned(s).add(bag(add)));
}

/// The scratch image that a copy is handed.
pub open spec fn copy_handed(src: DrawableId, dst: DrawableId, reply: CopyReply) -> Seq<Release> {
    match copy_scratch(src, dst, reply) {
        Ok(scratch) => scratch_release(scratch),
        Err(_) => Seq::empty(),
    }
}

/// A copy within one drawable hands its scratch image to the frame, or leaves
/// it free to go if no frame could be opened.
pub proof fn copying_owns_scratch(
    s: EngineView,
    st: StoreView,
    g: GroupView,
    src: DrawableId,
    dst: DrawableId,
    c: CopyGeometry,
    reply: CopyReply,
)
    ensures
        owned(copy_engine(s, st, g, src, dst, c, reply)) == owned(s).add(
            bag(copy_handed(src, dst, reply)),
        ),
{
    let t = copy_engine(s, st, g, src, dst, c, reply);
    match copy_scratch(src, dst, reply) {
        Err(_) => {
            assert(owned(t) =~= owned(s).add(bag(copy_handed(src, dst, reply))));
        },
        Ok(scratch) => match usable_ticket(s, g, reply.fresh) {
            Err(_) => {
                bag_concat(s.released, scratch_release(scratch));
                assert(owned(t) =~= owned(s).add(bag(scratch_release(scratch))));
            },
            Ok(fresh) => {
                let opened = s.frame_opened(g, fresh);
                opening_frame_keeps_owned(s, g, fresh);
                copying_into_frame(opened, opened.frame->0, st, src, dst, c, scratch);
            },
        },
    }
}

proof fn uploads_bag(f: FrameView, list: Seq<NewUpload>)
    ensures
        bag(frame_contents(frame_uploading(f, list))) == bag(frame_contents(f)).add(
            bag(upload_releases(list)),
        ),
    decreases list.len(),
{
    if list.len() > 0 {
        let head = list.drop_last();
        let u = list.last();
        uploads_bag(f, head);
        let g = frame_uploading(f, head);
        let g1 = frame_uploading(f, list);
        let r = Release::Staging(u.staging.buffer);
        assert(g1.ops.drop_last() =~= g.ops);
        assert(scratches(g1.ops) == scratches(g.ops));
        assert(staging_releases(g1.pins) =~= staging_releases(g.pins).push(r));
        assert(upload_releases(list) =~= upload_releases(head).push(r));
        bag_push(staging_releases(g.pins), r);
        bag_push(upload_releases(head), r);
        let ob = object_releases(g.retired);
        let sc = scratch_releases(scratches(g.ops));
        bag_concat(ob, staging_releases(g.pins));
        bag_concat(ob + staging_releases(g.pins), sc);
        bag_concat(ob, staging_releases(g1.pins));
        bag_concat(ob + staging_releases(g1.pins), sc);
        assert(bag(frame_contents(g1)) =~= bag(frame_contents(g)).add(bag(seq![r])));
        assert(bag(frame_contents(g1)) =~= bag(frame_contents(f)).add(bag(upload_releases(list))));
    } else {
        assert(bag(upload_releases(list)) =~= Multiset::empty());
        assert(bag(frame_contents(f)) =~= bag(frame_contents(f)).add(bag(upload_releases(list))));
    }
}

/// The staging buffer that a glyph of a run into a frame is handed: one that
/// needs an upload and got a place.
pub open spec fn frame_glyph_handed(need: GlyphNeed, reply: PackReply) -> Seq<Release> {
    match reply {
        PackReply::Packed { staging: Ok(staging), .. } => if need is Upload {
            staging_release(Some(staging))
        } else {
            Seq::empty()
        },
        _ => Seq::empty(),
    }
}

/// A run into a frame holds on to every staging buffer that its glyphs are
/// handed.
pub proof fn frame_glyph_keeps_staging(
    need: GlyphNeed,
    run: FrameRunView,
    glyph: &GlyphImage,
    reply: PackReply,
)
    ensures
        upload_releases(frame_glyph_outcome(need, run, glyph, reply).uploads) == upload_releases(
            run.uploads,
        ) + frame_glyph_handed(need, reply),
{
    assert(upload_releases(frame_glyph_outcome(need, run, glyph, reply).uploads)
        =~= upload_releases(run.uploads) + frame_glyph_handed(need, reply));
}

/// A text run hands the staging buffers of its uploads to the frame.
pub proof fn recording_run_owns_uploads(
    s: EngineView,
    f: FrameView,
    st: StoreView,
    dst: DrawableId,
    foreground: Color,
    run: FrameRunView,
    scissors: Seq<Rect>,
)
    requires
        s.frame == Some(f),
    ensures
        owned(
            EngineView {
                frame: Some(frame_with_run(f, st, dst, foreground, run, scissors)),
                ..s
            },
        ) == owned(s).add(bag(upload_releases(run.uploads))),
{
    uploads_bag(f, run.uploads);
    let up = frame_uploading(f, run.uploads);
    let g = frame_with_run(f, st, dst, foreground, run, scissors);
    if !(run.run.draws.len() == 0 || scissors.len() == 0) {
        assert(g.ops.drop_last() =~= up.ops);
        assert(scratches(g.ops) == scratches(up.ops));
    }
    assert(frame_contents(g) == frame_contents(up));
    assert(owned(EngineView { frame: Some(g), ..s }) =~= owned(s).add(
        bag(upload_releases(run.uploads)),
    ));
}

proof fn abandoning_owns_staging(s: EngineView, staging: Option<Staging>)
    ensures
        owned(paint_abandoned(s, staging)) == owned(s).add(bag(staging_release(staging))),
{
    bag_concat(s.released, staging_release(staging));
    assert(owned(paint_abandoned(s, staging)) =~= owned(s).add(bag(staging_release(staging))));
}

/// The staging buffer that a glyph outside a frame is handed: one that the
/// atlas lacks, that has an area and that got a place.
pub open spec fn glyph_handed(s: EngineView, glyph: &GlyphImage, reply: GlyphReply) -> Seq<
    Release,
> {
    if find_glyph(s.atlas.entries, glyph.key) is Some || glyph.spec_is_empty() {
        Seq::empty()
    } else {
        match reply {
            GlyphReply::Packed { upload: UploadReply::Staged { staging, .. }, .. } =>
                staging_release(Some(staging)),
            _ => Seq::empty(),
        }
    }
}

/// The upload of a glyph outside a frame owns its staging buffer, or leaves it
/// free to go if the glyph is left out.
pub proof fn glyph_owns_staging(
    s: EngineView,
    g: GroupView,
    run: RunView,
    glyph: &GlyphImage,
    reply: GlyphReply,
)
    ensures
        owned(glyph_outcome(s, g, run, glyph, reply).engine) == owned(s).add(
            bag(glyph_handed(s, glyph, reply)),
        ),
{
    let t = glyph_outcome(s, g, run, glyph, reply).engine;
    let handed = glyph_handed(s, glyph, reply);
    if find_glyph(s.atlas.entries, glyph.key) is None && !glyph.spec_is_empty() {
        if let GlyphReply::Packed { upload: UploadReply::Staged { staging, .. }, .. } = reply {
            abandoning_owns_staging(s, Some(staging));
            if t != paint_abandoned(s, Some(staging)) {
                let op = t.parked.last();
                contents_push(s.parked, op);
                assert(op_contents(op) =~= handed);
            }
        }
    }
    assert(owned(t) =~= owned(s).add(bag(handed)));
}

/// The staging buffer that a readback is handed.
pub open spec fn get_handed(reply: GetReply) -> Seq<Release> {
    match reply {
        GetReply::Failed(_) => Seq::empty(),
        GetReply::Recorded { staging, .. } => staging_release(Some(staging)),
    }
}

/// A readback owns its staging buffer, or leaves it free to go if it failed.
pub proof fn reading_owns_staging(s: EngineView, g: GroupView, reply: GetReply)
    ensures
        owned(get_engine(s, g, reply)) == owned(s).add(bag(get_handed(reply))),
{
    let t = get_engine(s, g, reply);
    match reply {
        GetReply::Failed(_) => {},
        GetReply::Recorded { staging, cb, fresh, end, submit, wait, .. } => {
            let group = g.opened(fresh).appended(cb);
            let flushed = s.flushed(group, FlushReason::SyncBoundary, submit);
            abandoning_owns_staging(s, Some(staging));
            abandoning_owns_staging(flushed, Some(staging));
            flushing_keeps_owned(s, group, FlushReason::SyncBoundary, submit);
            if end is Ok && submit is Ok && wait is Ok {
                let op = t.submitted.last();
                contents_push(flushed.submitted, op);
                assert(op_contents(op) =~= get_handed(reply));
                assert(owned(t) =~= owned(flushed).add(bag(get_handed(reply))));
            }
        },
    }
    assert(owned(t) =~= owned(s).add(bag(get_handed(reply))));
}

/// A replaced object, if there is one.
pub open spec fn replaced(object: Option<u64>) -> Seq<Release> {
    match object {
        Some(x) => seq![Release::Object(x)],
        None => Seq::empty(),
    }
}

proof fn adopting_owns_replaced(s: EngineView, object: Option<u64>)
    ensures
        owned(s.adopting(object)) == owned(s).add(bag(replaced(object))),
{
    if let Some(x) = object {
        adopting_owns_once(s, x);
        bag_one(Release::Object(x));
    }
    assert(owned(s.adopting(object)) =~= owned(s).add(bag(replaced(object))));
}

/// What primitives are handed: their buffer, the replaced mask image once they
/// have that buffer, and the replaced readback image once they have a source
/// to sample.
pub open spec fn trap_handed(
    s: EngineView,
    st: StoreView,
    req: &TrapRequest,
    reply: TrapReply,
) -> Seq<Release> {
    match reply.staging {
        Err(_) => Seq::empty(),
        Ok(staging) => match reply.mask_grow {
            Err(_) => staging_release(Some(staging)),
            Ok(mask) => staging_release(Some(staging)) + replaced(mask) + if readback_op(req.op)
                && trap_source(s, st, req) is Bound {
                replaced(reply.old_readback)
            } else {
                Seq::empty()
            },
        },
    }
}

/// Primitives own their buffer, or leave it free to go if nothing was
/// recorded, and every image that they replace gets an owner.
pub proof fn trapping_owns_handed(
    s: EngineView,
    st: StoreView,
    g: GroupView,
    req: &TrapRequest,
    d: Drawable,
    reply: TrapReply,
)
    ensures
        owned(trap_engine(s, st, g, req, d, reply)) == owned(s).add(
            bag(trap_handed(s, st, req, reply)),
        ),
{
    let t = trap_engine(s, st, g, req, d, reply);
    let handed = trap_handed(s, st, req, reply);
    if let Ok(staging) = reply.staging {
        abandoning_owns_staging(s, Some(staging));
        if let Ok(mask) = reply.mask_grow {
            let own = staging_release(Some(staging));
            let last: Seq<Release> = if readback_op(req.op) && trap_source(s, st, req) is Bound {
                replaced(reply.old_readback)
            } else {
                Seq::empty()
            };
            bag_concat(own, replaced(mask));
            bag_concat(own + replaced(mask), last);
            let adopted = trap_adopted(s, st, req, reply);
            adopting_owns_replaced(s, mask);
            adopting_owns_replaced(s.adopting(mask), reply.old_readback);
            assert(owned(adopted) =~= owned(s).add(bag(replaced(mask))).add(bag(last)));
            let tagged = if trap_source(s, st, req) is Bound && reply.composite is Described {
                EngineView { generation: bumped(adopted.generation), ..adopted }
            } else {
                adopted
            };
            assert(owned(tagged) == owned(adopted));
            abandoning_owns_staging(tagged, Some(staging));
            if trap_painted(s, st, req, d, reply) {
                painting_owns_staging(
                    tagged,
                    g,
                    trap_upkeep(adopted, req, d, staging),
                    reply.composite->paint,
                );
            }
            assert(owned(t) =~= owned(adopted).add(bag(own)));
        }
    }
    assert(owned(t) =~= owned(s).add(bag(handed)));
}

/// A composite with a command buffer of its own, or one that joins a batch,
/// changes nothing of what the engine owns.
pub proof fn compositing_keeps_owned(
    s: EngineView,
    g: GroupView,
    req: &CompositeRequest,
    p: CompositePlan,
    own: CompositeReply,
    append: BatchAppendReply,
)
    ensures
        owned(own_engine(s, g, req, p, own)) == owned(s),
        owned(append_engine(s, g, req, p, append)) == owned(s),
{
    let t = own_engine(s, g, req, p, own);
    if let CompositeReply::Described { descriptor, paint } = own {
        let tagged = EngineView { generation: bumped(s.generation), ..s };
        assert(owned(tagged) == owned(s));
        painting_owns_staging(tagged, g, own_upkeep(s, req, p), paint);
        assert(bag(staging_release(None)) =~= Multiset::empty());
        assert(owned(t) =~= owned(s));
    }
}

/// The replaced snapshot images that a composite outside a frame is handed.
pub open spec fn direct_handed(
    s: EngineView,
    st: StoreView,
    g: GroupView,
    req: &CompositeRequest,
    reply: DirectReply,
) -> Seq<Release> {
    match direct_decision(s, st, g, req) {
        Decision::Paint(DirectPlan::Own(p)) => snapshots_handed(p, reply),
        _ => Seq::empty(),
    }
}

/// The replaced snapshot images that a composite with a command buffer of its
/// own is handed.
pub open spec fn snapshots_handed(p: CompositePlan, reply: DirectReply) -> Seq<Release> {
    (if p.alias {
        replaced(reply.old_alias)
    } else {
        Seq::empty()
    }) + if p.readback {
        replaced(reply.old_readback)
    } else {
        Seq::empty()
    }
}

/// Every image that a composite outside a frame replaces gets one owner.
pub proof fn direct_composite_owns_snapshots(
    s: EngineView,
    st: StoreView,
    g: GroupView,
    req: &CompositeRequest,
    reply: DirectReply,
)
    ensures
        owned(direct_step(s, st, g, req, reply).engine) == owned(s).add(
            bag(direct_handed(s, st, g, req, reply)),
        ),
{
    let t = direct_step(s, st, g, req, reply).engine;
    match direct_decision(s, st, g, req) {
        Decision::Paint(DirectPlan::Batch(p)) => {
            compositing_keeps_owned(s, g, req, p, reply.own, reply.batch);
        },
        Decision::Paint(DirectPlan::Own(p)) => {
            let s1 = if p.alias {
                s.adopting(reply.old_alias)
            } else {
                s
            };
            let a: Seq<Release> = if p.alias {
                replaced(reply.old_alias)
            } else {
                Seq::empty()
            };
            let b: Seq<Release> = if p.readback {
                replaced(reply.old_readback)
            } else {
                Seq::empty()
            };
            adopting_owns_replaced(s, reply.old_alias);
            adopting_owns_replaced(s1, reply.old_readback);
            bag_concat(a, b);
            let s2 = snapshots_replaced(s, p, reply);
            assert(owned(s2) =~= owned(s).add(bag(a)).add(bag(b)));
            compositing_keeps_owned(s2, g, req, p, reply.own, reply.batch);
        },
        _ => {},
    }
    assert(owned(t) =~= owned(s).add(bag(direct_handed(s, st, g, req, reply))));
}

proof fn picture_keeps_owned(
    s: EngineView,
    st: StoreView,
    source: ResolvedSource,
    is_mask: bool,
    dst: DrawableId,
    repeat: Repeat,
    pict: PictFormat,
    view: Result<(), VkCode>,
)
    requires
        s.frame is Some,
    ensures
        ({
            let t = deferred_picture(s, st, source, is_mask, dst, repeat, pict, view).0;
            t.frame is Some && owned(t) == owned(s)
        }),
{
    if let ResolvedSource::Drawable(id) = source {
        referring_keeps_owned(s, st, id);
    }
}

proof fn painting_into_frame_keeps_owned(
    s: EngineView,
    st: StoreView,
    g: GroupView,
    req: &CompositeRequest,
    d: Drawable,
    reply: DeferredReply,
)
    requires
        s.frame is Some,
    ensures
        owned(deferred_painted(s, st, g, req, d, reply).engine) == owned(s),
{
    let t = deferred_painted(s, st, g, req, d, reply).engine;
    picture_keeps_owned(
        s,
        st,
        req.src,
        false,
        req.dst,
        req.src_repeat,
        req.src_format,
        reply.src_view,
    );
    let (s1, st1, src) = deferred_picture(
        s,
        st,
        req.src,
        false,
        req.dst,
        req.src_repeat,
        req.src_format,
        reply.src_view,
    );
    picture_keeps_owned(
        s1,
        st1,
        req.mask,
        true,
        req.dst,
        req.mask_repeat,
        req.mask_format,
        reply.mask_view,
    );
    let (s2, st2, mask) = deferred_picture(
        s1,
        st1,
        req.mask,
        true,
        req.dst,
        req.mask_repeat,
        req.mask_format,
        reply.mask_view,
    );
    if t != s && t != s1 && t != s2 {
        let f = s2.frame->0;
        let f1 = t.frame->0;
        assert(f1.ops.drop_last() =~= f.ops);
        assert(f1.ops.last() is RenderComposite);
        assert(scratches(f1.ops) == scratches(f.ops));
        assert(frame_contents(f1) == frame_contents(f));
        assert(owned(t) =~= owned(s2));
    }
}

/// The replaced snapshot images that a composite into the open frame is
/// handed: the readback image, and, once that fits, the alias image.
pub open spec fn deferred_handed(
    req: &CompositeRequest,
    fits: SnapshotFits,
    reply: DeferredReply,
) -> Seq<Release> {
    if grows_readback(req, fits) && reply.readback_grow is Err {
        Seq::empty()
    } else {
        (if grows_readback(req, fits) {
            replaced(reply.readback_grow->Ok_0)
        } else {
            Seq::empty()
        }) + if grows_alias(req, fits) && reply.alias_grow is Ok {
            replaced(reply.alias_grow->Ok_0)
        } else {
            Seq::empty()
        }
    }
}

/// Every image that a composite into the open frame replaces gets one owner,
/// whatever becomes of the composite.
pub proof fn deferred_composite_owns_snapshots(
    s: EngineView,
    st: StoreView,
    g: GroupView,
    req: &CompositeRequest,
    d: Drawable,
    fits: SnapshotFits,
    reply: DeferredReply,
)
    ensures
        owned(deferred_outcome(s, st, g, req, d, fits, reply).engine) == owned(s).add(
            bag(deferred_handed(req, fits, reply)),
        ),
{
    let t = deferred_outcome(s, st, g, req, d, fits, reply).engine;
    let handed = deferred_handed(req, fits, reply);
    if grows_readback(req, fits) && reply.readback_grow is Err {
    } else {
        let a: Seq<Release> = if grows_readback(req, fits) {
            replaced(reply.readback_grow->Ok_0)
        } else {
            Seq::empty()
        };
        let b: Seq<Release> = if grows_alias(req, fits) && reply.alias_grow is Ok {
            replaced(reply.alias_grow->Ok_0)
        } else {
            Seq::empty()
        };
        bag_concat(a, b);
        let s1 = if grows_readback(req, fits) {
            s.adopting(reply.readback_grow->Ok_0)
        } else {
            s
        };
        adopting_owns_replaced(s, reply.readback_grow->Ok_0);
        assert(owned(s1) =~= owned(s).add(bag(a)));
        if grows_alias(req, fits) && reply.alias_grow is Err {
            assert(owned(t) =~= owned(s1).add(bag(b)));
        } else {
            let s2 = if grows_alias(req, fits) {
                s1.adopting(reply.alias_grow->Ok_0)
            } else {
                s1
            };
            adopting_owns_replaced(s1, reply.alias_grow->Ok_0);
            assert(owned(s2) =~= owned(s1).add(bag(b)));
            if let Ok(fresh) = usable_ticket(s2, g, reply.fresh) {
                let opened = s2.frame_opened(g, fresh);
                opening_frame_keeps_owned(s2, g, fresh);
                referring_keeps_owned(opened, st, req.dst);
                painting_into_frame_keeps_owned(
                    opened.referring(st, req.dst),
                    opened.referred_store(st, req.dst),
                    s2.frame_group(g, fresh),
                    req,
                    d,
                    reply,
                );
            }
            assert(owned(t) == owned(s2));
        }
    }
    assert(owned(t) =~= owned(s).add(bag(handed)));
}

/// The replaced snapshot images that a composite is handed.
pub open spec fn render_handed(
    s: EngineView,
    st: StoreView,
    g: GroupView,
    in_frame: bool,
    req: &CompositeRequest,
    fits: SnapshotFits,
    reply: RenderReply,
) -> Seq<Release> {
    if !in_frame {
        direct_handed(s, st, g, req, reply.direct)
    } else if deferred_decision(s, st, g, req, fits) is Paint {
        deferred_handed(req, fits, reply.deferred)
    } else {
        Seq::empty()
    }
}

/// Every image that a composite or a filled rectangle replaces gets one
/// owner, whichever way it is recorded.
pub proof fn rendering_owns_snapshots(
    s: EngineView,
    st: StoreView,
    g: GroupView,
    in_frame: bool,
    req: &CompositeRequest,
    fits: SnapshotFits,
    reply: RenderReply,
)
    ensures
        owned(render_step(s, st, g, in_frame, req, fits, reply).engine) == owned(s).add(
            bag(render_handed(s, st, g, in_frame, req, fits, reply)),
        ),
{
    let t = render_step(s, st, g, in_frame, req, fits, reply).engine;
    if in_frame {
        if let Decision::Paint(d) = deferred_decision(s, st, g, req, fits) {
            deferred_composite_owns_snapshots(s, st, g, req, d, fits, reply.deferred);
        }
    } else {
        direct_composite_owns_snapshots(s, st, g, req, reply.direct);
    }
    assert(owned(t) =~= owned(s).add(
        bag(render_handed(s, st, g, in_frame, req, fits, reply)),
    ));
}

/// The lookup table of a gradient picture that is forgotten gets exactly one
/// owner.
pub proof fn forgetting_gradient_owns_once(s: EngineView, kept: Seq<Gradient>, g: Gradient)
    ensures
        owned((EngineView { gradients: kept, ..s }).adopting(Some(g.resource))) == owned(
            s,
        ).insert(Release::Object(g.resource)),
{
    let t = EngineView { gradients: kept, ..s };
    adopting_owns_once(t, g.resource);
    assert(owned(t) == owned(s));
}

/// Draining everything moves what command buffers and frames own to what may
/// be freed.
pub proof fn draining_all_keeps_owned(s: EngineView, g: GroupView, reply: Result<(), VkCode>)
    ensures
        ({
            let t = (EngineView { cow: None, render: None, ..s }).flushed(
                g,
                FlushReason::Shutdown,
                reply,
            );
            owned(t) == owned(s) && owned(
                retired(t, t.submitted.len() as int, t.frames.len() as int),
            ) == owned(s)
        }),
{
    let u = EngineView { cow: None, render: None, ..s };
    let t = u.flushed(g, FlushReason::Shutdown, reply);
    assert(owned(u) == owned(s));
    flushing_keeps_owned(u, g, FlushReason::Shutdown, reply);
    retiring_keeps_owned(t, t.submitted.len() as int, t.frames.len() as int);
}

/// Giving everything up frees everything that command buffers and frames
/// own.
pub proof fn giving_up_keeps_owned(s: EngineView)
    ensures
        owned(given_up(s)) == owned(s),
{
    let t = given_up(s);
    let a = all_contents(s.submitted);
    let f = frames_releases(s.frames);
    let p = all_contents(s.parked);
    bag_concat(s.released, a);
    bag_concat(s.released + a, f);
    bag_concat(s.released + a + f, p);
    assert(owned(t) =~= owned(s));
}

/// Taking out what may be freed takes exactly that.
pub proof fn draining_disowns(s: EngineView)
    ensures
        owned(EngineView { released: Seq::empty(), ..s }).add(bag(s.released)) == owned(s),
{
    assert(bag(Seq::<Release>::empty()) =~= Multiset::empty());
    assert(owned(EngineView { released: Seq::empty(), ..s }).add(bag(s.released)) =~= owned(s));
}

} // verus!
