//! What an open frame records is what was asked for, and replaying it does it in
//! the order in which it was recorded.

use vstd::prelude::*;

use crate::command::{Color, Command, GlyphDraw};
use crate::composite::{bound_plan, mask_resolution, plan_setup, src_resolution, CompositePlan};
use crate::compositing::{composite_paints_plan, paints, plan_is_what_was_asked, plans};
use crate::copy::usable_ticket;
use crate::deferred::{
    aliased, deferred_decision, deferred_outcome, deferred_painted, deferred_picture, grows_alias,
    grows_readback, DeferredReply, SnapshotFits,
};
use crate::device::{device_run, device_run_concat, Device, Shading};
use crate::engine::EngineView;
use crate::error::{DrawableId, RenderError, VkCode};
use crate::frame::{frame_commands, op_commands, AtlasEntry, FrameView, OpView};
use crate::geometry::{scissors_of, Extent, Rectangle16};
use crate::glyphs::{
    frame_glyph_outcome, frame_uploading, frame_with_run, glyphs_decision, FrameRunView, GlyphNeed,
    NewUpload, PackReply,
};
use crate::lettering::{draws_last, letters, text_draws_its_glyphs, upload_command};
use crate::paint::Decision;
use crate::picture::{
    force_opaque_format, readback_op, resolution, Binding, CompositeRect, CompositeRequest,
    PictFormat, Repeat, Resolution, ResolvedSource,
};
use crate::store::{Drawable, StoreView};
use crate::submit::GroupView;
use crate::text::{text_target, GlyphImage};
use crate::traps::{trap_decision, TrapRequest};

verus! {

/// Replaying one more operation is replaying it after all others.
pub proof fn replay_keeps_order(
    sh: Shading,
    dev: Device,
    st: StoreView,
    text_ready: bool,
    ops: Seq<OpView>,
    op: OpView,
)
    requires
        frame_commands(st, text_ready, ops) is Ok,
        op_commands(st, text_ready, op) is Ok,
    ensures
        frame_commands(st, text_ready, ops.push(op)) is Ok,
        device_run(sh, dev, frame_commands(st, text_ready, ops.push(op))->Ok_0) == device_run(
            sh,
            device_run(sh, dev, frame_commands(st, text_ready, ops)->Ok_0),
            op_commands(st, text_ready, op)->Ok_0,
        ),
{
    assert(ops.push(op).drop_last() =~= ops);
    device_run_concat(
        sh,
        dev,
        frame_commands(st, text_ready, ops)->Ok_0,
        op_commands(st, text_ready, op)->Ok_0,
    );
}

/// The operations that a frame holds; none without a frame.
pub open spec fn held(s: EngineView) -> Seq<OpView> {
    match s.frame {
        Some(f) => f.ops,
        None => Seq::empty(),
    }
}

/// Whether one more operation was recorded, which paints a planned composite
/// whenever it is replayed.
pub open spec fn records(
    before: Seq<OpView>,
    after: Seq<OpView>,
    p: CompositePlan,
    descriptor: u64,
    rects: Seq<CompositeRect>,
    clip: Option<Vec<Rectangle16>>,
) -> bool {
    &&& after.len() == before.len() + 1
    &&& after.drop_last() == before
    &&& forall|now: StoreView, text_ready: bool|
        (#[trigger] op_commands(now, text_ready, after.last())) is Ok && paints(
            op_commands(now, text_ready, after.last())->Ok_0,
            p,
            descriptor,
            rects,
            clip,
        )
}

/// The plan of a request whose pictures can be bound.
pub open spec fn asked_plan(s: EngineView, st: StoreView, req: &CompositeRequest) -> CompositePlan {
    bound_plan(
        st,
        req,
        st.get(req.dst)->0,
        src_resolution(s, st, req)->Bound_0,
        mask_resolution(s, st, req)->Bound_0,
    )
}

/// Whether the device gives a composite into a frame everything that it needs,
/// and its pictures can be bound.
pub open spec fn deferred_provided(
    s: EngineView,
    st: StoreView,
    g: GroupView,
    req: &CompositeRequest,
    fits: SnapshotFits,
    reply: DeferredReply,
) -> bool {
    &&& grows_readback(req, fits) ==> reply.readback_grow is Ok
    &&& grows_alias(req, fits) ==> reply.alias_grow is Ok
    &&& usable_ticket(s, g, reply.fresh) is Ok
    &&& aliased(req) ==> reply.alias_view
    &&& readback_op(req.op) ==> reply.readback_view
    &&& src_resolution(s, st, req) is Bound
    &&& mask_resolution(s, st, req) is Bound
    &&& reply.src_view is Ok
    &&& reply.mask_view is Ok
    &&& reply.descriptor is Ok
}

/// Whether two stores have the same drawables, up to the work that uses them.
pub open spec fn same_drawables(a: StoreView, b: StoreView) -> bool {
    forall|id: DrawableId|
        #![trigger a.get(id)]
        #![trigger b.get(id)]
        match b.get(id) {
            None => a.get(id) is None,
            Some(d) => a.get(id) matches Some(e) && (Drawable {
                last_render_ticket: d.last_render_ticket,
                ..e
            }) == d,
        }
}

proof fn picture_is_resolved(
    s: EngineView,
    st: StoreView,
    st0: StoreView,
    source: ResolvedSource,
    is_mask: bool,
    dst: DrawableId,
    repeat: Repeat,
    pict: PictFormat,
    view: Result<(), VkCode>,
)
    requires
        s.frame is Some,
        same_drawables(st, st0),
    ensures
        ({
            let (s1, st1, b) = deferred_picture(s, st, source, is_mask, dst, repeat, pict, view);
            let r = resolution(st0, s.gradients, source, is_mask, dst, repeat, pict);
            &&& s1.frame is Some
            &&& s1.frame->0.ops == s.frame->0.ops
            &&& s1.gradients == s.gradients
            &&& same_drawables(st1, st0)
            &&& b matches Ok(Some(x)) ==> r == Resolution::Bound(x)
            &&& r is Bound && view is Ok ==> b == Ok::<Option<Binding>, RenderError>(Some(r->Bound_0))
        }),
{
}

proof fn painted_is_recorded(
    s: EngineView,
    st: StoreView,
    st0: StoreView,
    g: GroupView,
    req: &CompositeRequest,
    reply: DeferredReply,
)
    requires
        s.frame is Some,
        same_drawables(st, st0),
        st0.has(req.dst),
    ensures
        ({
            let d = st0.get(req.dst)->0;
            let o = deferred_painted(s, st, g, req, d, reply);
            let after = held(o.engine);
            let before = held(s);
            &&& after != before ==> records(
                before,
                after,
                asked_plan(s, st0, req),
                reply.descriptor->Ok_0,
                req.rects@,
                req.clip,
            ) && o.result is Ok && reply.descriptor is Ok && src_resolution(s, st0, req) is Bound
                && mask_resolution(s, st0, req) is Bound
            &&& !(aliased(req) && !reply.alias_view) && !(readback_op(req.op)
                && !reply.readback_view) && src_resolution(s, st0, req) is Bound && mask_resolution(
                s,
                st0,
                req,
            ) is Bound && reply.src_view is Ok && reply.mask_view is Ok && reply.descriptor is Ok
                ==> after.len() == before.len() + 1
        }),
{
    let d = st0.get(req.dst)->0;
    picture_is_resolved(
        s,
        st,
        st0,
        req.src,
        false,
        req.dst,
        req.src_repeat,
        req.src_format,
        reply.src_view,
    );
    let (s1, st1, src) = deferred_picture(
        s,
        st,
        req.src,
        false,
        req.dst,
        req.src_repeat,
        req.src_format,
        reply.src_view,
    );
    picture_is_resolved(
        s1,
        st1,
        st0,
        req.mask,
        true,
        req.dst,
        req.mask_repeat,
        req.mask_format,
        reply.mask_view,
    );
    let (s2, st2, mask) = deferred_picture(
        s1,
        st1,
        req.mask,
        true,
        req.dst,
        req.mask_repeat,
        req.mask_format,
        reply.mask_view,
    );
    let o = deferred_painted(s, st, g, req, d, reply);
    let before = held(s);
    let after = held(o.engine);
    if src matches Ok(Some(_)) && mask matches Ok(Some(_)) && reply.descriptor is Ok && !(aliased(
        req,
    ) && !reply.alias_view) && !(readback_op(req.op) && !reply.readback_view) {
        let p = asked_plan(s, st0, req);
        let x = reply.descriptor->Ok_0;
        let b1 = src->Ok_0->0;
        let b2 = mask->Ok_0->0;
        assert(force_opaque_format(st2, req.src, req.src_format) == force_opaque_format(
            st0,
            req.src,
            req.src_format,
        ));
        assert(force_opaque_format(st2, req.mask, req.mask_format) == force_opaque_format(
            st0,
            req.mask,
            req.mask_format,
        ));
        assert(bound_plan(st2, req, d, b1, b2) == p);
        let layout = s2.frame->0.current_layout(req.dst, st2.layout(req.dst));
        let op = OpView::RenderComposite {
            dst_id: req.dst,
            setup: plan_setup(p, layout, x),
            rects: req.rects@,
            scissors: scissors_of(req.clip, d.extent),
        };
        assert(after == before.push(op));
        assert(after.drop_last() =~= before);
        plan_is_what_was_asked(st0, s.gradients, req, b1, b2);
        composite_paints_plan(p, layout, x, req.rects@, req.clip);
        assert forall|now: StoreView, text_ready: bool|
            (#[trigger] op_commands(now, text_ready, after.last())) is Ok && paints(
                op_commands(now, text_ready, after.last())->Ok_0,
                p,
                x,
                req.rects@,
                req.clip,
            ) by {
            assert(after.last() == op);
        }
    }
}

/// Whether an engine, after a composite into its frame, has recorded what was
/// asked for, once, if the device gave it everything that it needs, and
/// otherwise nothing else. What it has recorded paints the request whenever the
/// frame is replayed.
#[verifier::opaque]
pub open spec fn records_request(
    s: EngineView,
    st: StoreView,
    g: GroupView,
    req: &CompositeRequest,
    fits: SnapshotFits,
    reply: DeferredReply,
    end: EngineView,
) -> bool {
    let recorded = records(
        held(s),
        held(end),
        asked_plan(s, st, req),
        reply.descriptor->Ok_0,
        req.rects@,
        req.clip,
    );
    if deferred_provided(s, st, g, req, fits, reply) {
        recorded && plans(asked_plan(s, st, req), st, s.gradients, req, st.get(req.dst)->0)
    } else {
        held(end) == held(s) || recorded
    }
}

/// A composite into a frame records what was asked for, once, if the device
/// gives it everything that it needs; otherwise it records nothing. What it
/// records paints the request whenever the frame is replayed.
pub proof fn composite_is_recorded(
    s: EngineView,
    st: StoreView,
    g: GroupView,
    req: &CompositeRequest,
    fits: SnapshotFits,
    reply: DeferredReply,
)
    requires
        st.has(req.dst),
    ensures
        records_request(
            s,
            st,
            g,
            req,
            fits,
            reply,
            deferred_outcome(s, st, g, req, st.get(req.dst)->0, fits, reply).engine,
        ),
        deferred_provided(s, st, g, req, fits, reply) ==> deferred_outcome(
            s,
            st,
            g,
            req,
            st.get(req.dst)->0,
            fits,
            reply,
        ).result is Ok,
{
    reveal(records_request);
    let d = st.get(req.dst)->0;
    if grows_readback(req, fits) && reply.readback_grow is Err {
    } else {
        let s1 = if grows_readback(req, fits) {
            s.adopting(reply.readback_grow->Ok_0)
        } else {
            s
        };
        if grows_alias(req, fits) && reply.alias_grow is Err {
        } else {
            let s2 = if grows_alias(req, fits) {
                s1.adopting(reply.alias_grow->Ok_0)
            } else {
                s1
            };
            assert(held(s2) == held(s));
            assert(s2.gradients == s.gradients);
            assert(s2.wants_ticket(g) == s.wants_ticket(g));
            if let Ok(fresh) = usable_ticket(s2, g, reply.fresh) {
                let opened = s2.frame_opened(g, fresh);
                let r = opened.referring(st, req.dst);
                assert(held(opened) =~= held(s));
                assert(held(r) == held(opened));
                let st1 = opened.referred_store(st, req.dst);
                assert(same_drawables(st1, st));
                painted_is_recorded(r, st1, st, s2.frame_group(g, fresh), req, reply);
            }
        }
    }
    if deferred_provided(s, st, g, req, fits, reply) {
        plan_is_what_was_asked(
            st,
            s.gradients,
            req,
            src_resolution(s, st, req)->Bound_0,
            mask_resolution(s, st, req)->Bound_0,
        );
    }
}

/// Whether the last operation of a list draws a run onto a drawable, in a
/// foreground and under a clip, whenever it is replayed while the drawable keeps
/// its size.
pub open spec fn draws_run_last(
    ops: Seq<OpView>,
    dst: DrawableId,
    extent: Extent,
    foreground: Color,
    glyphs: Seq<GlyphDraw>,
    clip: Option<Vec<Rectangle16>>,
) -> bool {
    ops.len() > 0 && forall|now: StoreView|
        (now.get(dst) matches Some(d) && d.extent == extent) ==> (#[trigger] op_commands(
            now,
            true,
            ops.last(),
        )) is Ok && letters(
            op_commands(now, true, ops.last())->Ok_0,
            now.get(dst)->0,
            foreground,
            glyphs,
            clip,
        )
}

/// Whether operations upload glyphs to their places, in order.
pub open spec fn uploads_ops(list: Seq<NewUpload>, ops: Seq<OpView>) -> bool {
    &&& ops.len() == list.len()
    &&& forall|i: int, now: StoreView|
        0 <= i < list.len() ==> #[trigger] op_commands(now, true, ops[i]) == Ok::<
            Seq<Command>,
            RenderError,
        >(seq![upload_command(list[i].staging.buffer, list[i].insert.entry)])
}

proof fn uploading_records(f: FrameView, list: Seq<NewUpload>)
    ensures
        ({
            let ops = frame_uploading(f, list).ops;
            &&& ops.len() == f.ops.len() + list.len()
            &&& ops.take(f.ops.len() as int) == f.ops
            &&& uploads_ops(list, ops.skip(f.ops.len() as int))
        }),
    decreases list.len(),
{
    let n = f.ops.len() as int;
    let ops = frame_uploading(f, list).ops;
    if list.len() == 0 {
        assert(ops.take(n) =~= f.ops);
        assert(ops.skip(n) =~= Seq::empty());
    } else {
        let head = list.drop_last();
        let hops = frame_uploading(f, head).ops;
        uploading_records(f, head);
        assert(ops.take(n) =~= hops.take(n));
        let rest = ops.skip(n);
        let hrest = hops.skip(n);
        assert(rest.len() == list.len());
        assert forall|i: int, now: StoreView| 0 <= i < list.len() implies #[trigger] op_commands(
            now,
            true,
            rest[i],
        ) == Ok::<Seq<Command>, RenderError>(
            seq![upload_command(list[i].staging.buffer, list[i].insert.entry)],
        ) by {
            if i < head.len() {
                assert(rest[i] == hrest[i]);
                assert(list[i] == head[i]);
                assert(op_commands(now, true, hrest[i]) == Ok::<Seq<Command>, RenderError>(
                    seq![upload_command(head[i].staging.buffer, head[i].insert.entry)],
                ));
            }
        }
    }
}

/// A text run into a frame records the uploads of its new glyphs, each to its
/// place, and then, if anything is visible, the run itself in the foreground and
/// under the clip that were asked for.
pub proof fn run_is_recorded(
    f: FrameView,
    st: StoreView,
    dst: DrawableId,
    extent: Extent,
    foreground: Color,
    run: FrameRunView,
    clip: Option<Vec<Rectangle16>>,
)
    ensures
        ({
            let scissors = scissors_of(clip, extent);
            let ops = frame_with_run(f, st, dst, foreground, run, scissors).ops;
            let n = f.ops.len() as int;
            let k = run.uploads.len() as int;
            &&& n + k <= ops.len()
            &&& ops.take(n) == f.ops
            &&& uploads_ops(run.uploads, ops.subrange(n, n + k))
            &&& if run.run.draws.len() == 0 || scissors.len() == 0 {
                ops.len() == n + k
            } else {
                ops.len() == n + k + 1 && draws_run_last(
                    ops,
                    dst,
                    extent,
                    foreground,
                    run.run.draws,
                    clip,
                )
            }
        }),
{
    let scissors = scissors_of(clip, extent);
    let up = frame_uploading(f, run.uploads);
    let g = frame_with_run(f, st, dst, foreground, run, scissors);
    let n = f.ops.len() as int;
    let k = run.uploads.len() as int;
    uploading_records(f, run.uploads);
    assert(g.ops.take(n) =~= up.ops.take(n));
    assert(g.ops.subrange(n, n + k) =~= up.ops.skip(n));
    if !(run.run.draws.len() == 0 || scissors.len() == 0) {
        assert forall|now: StoreView|
            (now.get(dst) matches Some(d) && d.extent == extent) implies (#[trigger] op_commands(
            now,
            true,
            g.ops.last(),
        )) is Ok && letters(
            op_commands(now, true, g.ops.last())->Ok_0,
            now.get(dst)->0,
            foreground,
            run.run.draws,
            clip,
        ) by {
            text_draws_its_glyphs(
                now.get(dst)->0,
                g.ops.last()->CompositeGlyphs_old_layout,
                foreground,
                run.run.draws,
                clip,
            );
        }
    }
}

/// A glyph of a run into a frame that gets a place and a staging buffer is
/// uploaded to that place from that buffer, and drawn from there, where it was
/// asked for.
pub proof fn packed_glyph_is_uploaded_and_drawn(
    run: FrameRunView,
    glyph: &GlyphImage,
    reply: PackReply,
)
    requires
        !glyph.spec_is_empty(),
        reply matches PackReply::Packed { staging: Ok(_), .. },
    ensures
        ({
            let o = frame_glyph_outcome(GlyphNeed::Upload, run, glyph, reply);
            let u = o.uploads.last();
            &&& o.uploads.drop_last() == run.uploads
            &&& u.staging == reply->staging->Ok_0
            &&& u.insert.key == glyph.key
            &&& u.insert.entry == (AtlasEntry {
                atlas_x: reply->atlas_x,
                atlas_y: reply->atlas_y,
                w: glyph.w,
                h: glyph.h,
            })
            &&& draws_last(run.run, o.run, glyph, reply->atlas_x, reply->atlas_y)
        }),
{
    let o = frame_glyph_outcome(GlyphNeed::Upload, run, glyph, reply);
    assert(o.uploads.drop_last() =~= run.uploads);
}

/// A glyph of a run into a frame that has a place is drawn from there, where it
/// was asked for.
pub proof fn placed_glyph_is_drawn(
    run: FrameRunView,
    glyph: &GlyphImage,
    e: AtlasEntry,
    reply: PackReply,
)
    requires
        e.w == glyph.w,
        e.h == glyph.h,
        !glyph.spec_is_empty(),
    ensures
        ({
            let o = frame_glyph_outcome(GlyphNeed::Known(e), run, glyph, reply);
            &&& draws_last(run.run, o.run, glyph, e.atlas_x, e.atlas_y)
            &&& o.uploads == run.uploads
        }),
{
}

/// Every operation that paints a drawable paints the one that was asked for.
pub proof fn targets_are_those_asked_for(
    s: EngineView,
    st: StoreView,
    g: GroupView,
    id: DrawableId,
    glyphs: nat,
    req: &CompositeRequest,
    fits: SnapshotFits,
    traps: &TrapRequest,
)
    ensures
        text_target(s, st, g, id) matches Decision::Paint(d) ==> st.get(id) == Some(d),
        glyphs_decision(s, st, g, id, glyphs) matches Decision::Paint(d) ==> st.get(id) == Some(d),
        deferred_decision(s, st, g, req, fits) matches Decision::Paint(d) ==> st.get(req.dst)
            == Some(d),
        trap_decision(s, st, g, traps) matches Decision::Paint(d) ==> st.get(traps.dst) == Some(d),
{
}

} // verus!
