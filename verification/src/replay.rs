//! Replaying a frame uses every image in the layout that it is in.

use vstd::prelude::*;

use crate::command::{
    composite_layouts, copy_area_consistent, copy_area_layouts, layout_run, layout_run_concat,
    layout_run_neutral, text_layouts, Color, Command, Layouts, ScratchImage,
};
use crate::composite::{bound_plan, plan_setup, quad_damage, CompositePlan};
use crate::copy::{copy_frame, copy_record, copy_referring, copy_store, usable_ticket, CopyGeometry};
use crate::deferred::{
    aliased, deferred_decision, deferred_frame, deferred_painted, deferred_picture, grows_alias,
    grows_readback, DeferredReply, SnapshotFits,
};
use crate::dispatch::deferred_step;
use crate::engine::EngineView;
use crate::error::{DrawableId, RenderError, VkCode};
use crate::frame::{
    committed, find_layout, frame_commands, op_commands, FrameView, LayoutEntry, OpView,
};
use crate::geometry::Rect;
use crate::glyphs::{
    frame_uploading, frame_with_run, frame_with_uploads, FrameRunView, NewUpload,
};
use crate::paint::Decision;
use crate::picture::{readback_op, CompositeRequest, PictFormat, Repeat, ResolvedSource};
use crate::store::{Drawable, Layout, StoreView, Ticket};
use crate::submit::GroupView;
use crate::undo::{commit_gives_recorded_layouts, find_layout_push, find_layout_set};

verus! {

/// Whether no two drawables share a storage image.
pub open spec fn images_distinct(st: StoreView) -> bool {
    forall|a: DrawableId, b: DrawableId|
        #![trigger st.get(a), st.get(b)]
        st.has(a) && st.has(b) && a != b ==> st.get(a)->0.image != st.get(b)->0.image
}

/// Whether the drawables of two stores have the same storage, apart from
/// tickets and damage.
pub open spec fn same_storage(a: StoreView, b: StoreView) -> bool {
    forall|id: DrawableId|
        #![trigger a.get(id)]
        #![trigger b.get(id)]
        match a.get(id) {
            None => b.get(id) is None,
            Some(d) => b.get(id) matches Some(e) && e.image == d.image && e.view == d.view
                && e.extent == d.extent && e.layout == d.layout,
        }
}

/// Whether every storage image is in the layout that the frame says.
pub open spec fn agrees(m: Layouts, f: FrameView, st: StoreView) -> bool {
    forall|id: DrawableId| #[trigger]
        st.get(id) matches Some(d) ==> m[d.image] == f.current_layout(id, d.layout)
}

/// Whether the commands of a frame can run from the layouts `m`, and leave
/// every storage image in the layout that the frame says.
pub open spec fn replays(f: FrameView, st: StoreView, m: Layouts) -> bool {
    &&& frame_commands(st, true, f.ops) is Ok
    &&& layout_run(m, frame_commands(st, true, f.ops)->Ok_0) is Some
    &&& agrees(layout_run(m, frame_commands(st, true, f.ops)->Ok_0)->0, f, st)
}

/// Whether the open frame can be replayed from the layouts `m`; without a
/// frame, whether `m` is what the store says.
pub open spec fn frame_replays(s: EngineView, st: StoreView, m: Layouts) -> bool {
    match s.frame {
        Some(f) => replays(f, st, m),
        None => forall|id: DrawableId| #[trigger]
            st.get(id) matches Some(d) ==> m[d.image] == d.layout,
    }
}

proof fn same_storage_commands(a: StoreView, b: StoreView, ops: Seq<OpView>)
    requires
        same_storage(a, b),
    ensures
        frame_commands(a, true, ops) == frame_commands(b, true, ops),
    decreases ops.len(),
{
    if ops.len() > 0 {
        same_storage_commands(a, b, ops.drop_last());
        match ops.last() {
            OpView::CompositeGlyphs { dst_id, .. } => {
                assert(a.get(dst_id) is None <==> b.get(dst_id) is None);
            },
            _ => {},
        }
    }
}

/// Tickets and damage have no part in replaying a frame.
pub proof fn same_storage_replays(f: FrameView, a: StoreView, b: StoreView, m: Layouts)
    requires
        same_storage(a, b),
        replays(f, a, m),
    ensures
        replays(f, b, m),
{
    same_storage_commands(a, b, f.ops);
    let end = layout_run(m, frame_commands(a, true, f.ops)->Ok_0)->0;
    assert forall|id: DrawableId| #[trigger]
        b.get(id) matches Some(d) ==> end[d.image] == f.current_layout(id, d.layout) by {
        assert(a.get(id) is None <==> b.get(id) is None);
        assert(a.get(id) matches Some(d) ==> end[d.image] == f.current_layout(id, d.layout));
    }
}

proof fn referring_keeps_layouts(
    f: FrameView,
    st: StoreView,
    id: DrawableId,
    ticket: Option<Ticket>,
    x: DrawableId,
)
    ensures
        f.referring(id, st.layout(id), ticket).current_layout(x, st.layout(x)) == f.current_layout(
            x,
            st.layout(x),
        ),
{
    find_layout_push(f.layouts, LayoutEntry { id, pre: st.layout(id), cur: st.layout(id) }, x);
}

/// Referring to one more drawable changes nothing of what a frame replays.
pub proof fn referring_replays(
    f: FrameView,
    st: StoreView,
    m: Layouts,
    id: DrawableId,
    ticket: Ticket,
)
    requires
        replays(f, st, m),
    ensures
        replays(
            f.referring(id, st.layout(id), st.ticket(id)),
            st.with_ticket(id, Some(ticket)),
            m,
        ),
        find_layout(f.referring(id, st.layout(id), st.ticket(id)).layouts, id) is Some,
{
    let f1 = f.referring(id, st.layout(id), st.ticket(id));
    let end = layout_run(m, frame_commands(st, true, f.ops)->Ok_0)->0;
    find_layout_push(f.layouts, LayoutEntry { id, pre: st.layout(id), cur: st.layout(id) }, id);
    assert forall|x: DrawableId| #[trigger]
        st.get(x) matches Some(d) ==> end[d.image] == f1.current_layout(x, d.layout) by {
        referring_keeps_layouts(f, st, id, st.ticket(id), x);
    }
    assert(replays(f1, st, m));
    assert(same_storage(st, st.with_ticket(id, Some(ticket))));
    same_storage_replays(f1, st, st.with_ticket(id, Some(ticket)), m);
}

/// Recording an operation whose commands run, and leave one drawable to be
/// sampled and the others alone, keeps a frame replayable.
proof fn recorded_replays(
    f: FrameView,
    st: StoreView,
    m: Layouts,
    op: OpView,
    dst: DrawableId,
)
    requires
        replays(f, st, m),
        images_distinct(st),
        st.has(dst),
        find_layout(f.layouts, dst) is Some,
        op_commands(st, true, op) is Ok,
        ({
            let before = layout_run(m, frame_commands(st, true, f.ops)->Ok_0)->0;
            let after = layout_run(before, op_commands(st, true, op)->Ok_0);
            &&& after is Some
            &&& (after->0)[st.get(dst)->0.image] == Layout::ShaderReadOnly
            &&& forall|id: DrawableId|
                id != dst && st.has(id) ==> (after->0)[(#[trigger] st.get(id))->0.image]
                    == before[st.get(id)->0.image]
        }),
    ensures
        replays(f.recorded(op, dst, Layout::ShaderReadOnly), st, m),
{
    let f1 = f.recorded(op, dst, Layout::ShaderReadOnly);
    let head = frame_commands(st, true, f.ops)->Ok_0;
    let cmds = op_commands(st, true, op)->Ok_0;
    assert(f1.ops.drop_last() =~= f.ops);
    assert(frame_commands(st, true, f1.ops) == Ok::<Seq<Command>, RenderError>(head + cmds));
    layout_run_concat(m, head, cmds);
    let end = layout_run(m, head + cmds)->0;
    assert forall|id: DrawableId| #[trigger]
        st.get(id) matches Some(d) ==> end[d.image] == f1.current_layout(id, d.layout) by {
        find_layout_set(f.layouts, dst, Layout::ShaderReadOnly, id);
        find_layout_set(f.layouts, dst, Layout::ShaderReadOnly, dst);
    }
}

/// A composite recorded into a frame keeps it replayable.
pub proof fn composite_replays(
    f: FrameView,
    st: StoreView,
    m: Layouts,
    req: &CompositeRequest,
    p: CompositePlan,
    descriptor: u64,
)
    requires
        replays(f, st, m),
        images_distinct(st),
        st.has(req.dst),
        p.dst.image == st.get(req.dst)->0.image,
        find_layout(f.layouts, req.dst) is Some,
    ensures
        replays(deferred_frame(f, st, req, p, descriptor), st, m),
{
    let before = layout_run(m, frame_commands(st, true, f.ops)->Ok_0)->0;
    let setup = plan_setup(p, f.current_layout(req.dst, st.layout(req.dst)), descriptor);
    let op = OpView::RenderComposite {
        dst_id: req.dst,
        setup,
        rects: req.rects@,
        scissors: crate::geometry::scissors_of(req.clip, p.dst.extent),
    };
    assert(st.get(req.dst) is Some);
    composite_layouts(
        setup,
        req.rects@,
        crate::geometry::scissors_of(req.clip, p.dst.extent),
        before,
    );
    assert forall|id: DrawableId| id != req.dst && st.has(id) implies (#[trigger] st.get(
        id,
    ))->0.image != st.get(req.dst)->0.image by {}
    recorded_replays(f, st, m, op, req.dst);
}

/// Whether a scratch image is no drawable's storage image.
pub open spec fn scratch_distinct(st: StoreView, scratch: Option<ScratchImage>) -> bool {
    scratch matches Some(x) ==> forall|id: DrawableId| #[trigger]
        st.get(id) matches Some(d) ==> d.image != x.image
}

/// A copy recorded into a frame keeps it replayable.
pub proof fn copy_replays(
    f: FrameView,
    st: StoreView,
    m: Layouts,
    src: DrawableId,
    dst: DrawableId,
    c: CopyGeometry,
    scratch: Option<ScratchImage>,
)
    requires
        replays(f, st, m),
        images_distinct(st),
        st.get(src) == Some(c.src),
        st.get(dst) == Some(c.dst),
        scratch is Some <==> src == dst,
        scratch_distinct(st, scratch),
    ensures
        replays(
            copy_frame(f, st, src, dst, c, scratch),
            copy_store(st, f.ticket, src, dst, c.dst_rect),
            m,
        ),
{
    let f1 = f.referring(dst, st.layout(dst), st.ticket(dst));
    let st1 = st.with_ticket(dst, Some(f.ticket));
    referring_replays(f, st, m, dst, f.ticket);
    let f2 = copy_referring(f, st, src, dst);
    let st2 = if src == dst {
        st1
    } else {
        st1.with_ticket(src, Some(f.ticket))
    };
    if src != dst {
        referring_replays(f1, st1, m, src, f.ticket);
        find_layout_push(
            f1.layouts,
            LayoutEntry { id: src, pre: st.layout(src), cur: st.layout(src) },
            dst,
        );
    }
    let ca = copy_record(f2, st, src, dst, c, scratch);
    let head = frame_commands(st2, true, f2.ops)->Ok_0;
    let before = layout_run(m, head)->0;
    assert(st2.get(src) is Some && st2.get(dst) is Some);
    assert(copy_area_consistent(ca)) by {
        if src != dst {
            assert(st.has(src) && st.has(dst));
        }
    }
    copy_area_layouts(ca, before);
    let cmds = op_commands(st2, true, OpView::CopyArea(ca))->Ok_0;
    let after = layout_run(before, cmds)->0;
    let f3 = f2.recorded(OpView::CopyArea(ca), dst, Layout::ShaderReadOnly);
    let f4 = copy_frame(f, st, src, dst, c, scratch);
    assert(f3.ops.drop_last() =~= f2.ops);
    assert(frame_commands(st2, true, f4.ops) == Ok::<Seq<Command>, RenderError>(head + cmds));
    layout_run_concat(m, head, cmds);
    assert forall|id: DrawableId| #[trigger]
        st2.get(id) matches Some(d) ==> after[d.image] == f4.current_layout(id, d.layout) by {
        find_layout_set(f2.layouts, dst, Layout::ShaderReadOnly, id);
        find_layout_set(f3.layouts, src, Layout::ShaderReadOnly, id);
        if let Some(d) = st2.get(id) {
            assert(st.get(id) is Some && st.get(id)->0.image == d.image);
            if id != src && id != dst {
                assert(d.image != c.src.image && d.image != c.dst.image) by {
                    assert(st.has(id) && st.has(src) && st.has(dst));
                }
                assert(scratch matches Some(x) ==> d.image != x.image);
                assert(after[d.image] == before[d.image]);
                assert(before[d.image] == f2.current_layout(id, d.layout));
            }
        }
    }
    assert(replays(f4, st2, m));
    assert(same_storage(st2, copy_store(st, f.ticket, src, dst, c.dst_rect)));
    same_storage_replays(f4, st2, copy_store(st, f.ticket, src, dst, c.dst_rect), m);
}

proof fn uploads_replay(f: FrameView, st: StoreView, m: Layouts, list: Seq<NewUpload>)
    requires
        replays(f, st, m),
    ensures
        replays(frame_uploading(f, list), st, m),
        frame_uploading(f, list).layouts == f.layouts,
    decreases list.len(),
{
    if list.len() > 0 {
        uploads_replay(f, st, m, list.drop_last());
        let g = frame_uploading(f, list.drop_last());
        let g1 = frame_uploading(f, list);
        let head = frame_commands(st, true, g.ops)->Ok_0;
        let op = g1.ops.last();
        let cmds = op_commands(st, true, op)->Ok_0;
        assert(g1.ops.drop_last() =~= g.ops);
        assert(frame_commands(st, true, g1.ops) == Ok::<Seq<Command>, RenderError>(head + cmds));
        layout_run_concat(m, head, cmds);
        layout_run_neutral(layout_run(m, head)->0, cmds);
        let end = layout_run(m, head)->0;
        assert forall|id: DrawableId| #[trigger]
            st.get(id) matches Some(d) ==> end[d.image] == g1.current_layout(id, d.layout) by {
            assert(st.get(id) matches Some(d) ==> end[d.image] == g.current_layout(id, d.layout));
        }
    }
}

/// A text run recorded into a frame keeps it replayable.
pub proof fn run_replays(
    f: FrameView,
    st: StoreView,
    m: Layouts,
    dst: DrawableId,
    foreground: Color,
    run: FrameRunView,
    scissors: Seq<Rect>,
)
    requires
        replays(f, st, m),
        images_distinct(st),
        st.has(dst),
        find_layout(f.layouts, dst) is Some,
    ensures
        replays(frame_with_run(f, st, dst, foreground, run, scissors), st, m),
{
    uploads_replay(f, st, m, run.uploads);
    let up0 = frame_uploading(f, run.uploads);
    let up = frame_with_uploads(f, run);
    let before = layout_run(m, frame_commands(st, true, up.ops)->Ok_0)->0;
    assert forall|id: DrawableId| #[trigger]
        st.get(id) matches Some(d) ==> before[d.image] == up.current_layout(id, d.layout) by {
        assert(st.get(id) matches Some(d) ==> before[d.image] == up0.current_layout(id, d.layout));
    }
    assert(replays(up, st, m));
    if !(run.run.draws.len() == 0 || scissors.len() == 0) {
        let d = st.get(dst)->0;
        let old = up.current_layout(dst, st.layout(dst));
        let op = OpView::CompositeGlyphs {
            dst_id: dst,
            old_layout: old,
            foreground,
            glyphs: run.run.draws,
            scissors,
        };
        assert(before[d.image] == old) by {
            assert(st.get(dst) is Some);
        }
        text_layouts(
            d.image,
            d.view,
            d.extent,
            old,
            foreground,
            run.run.draws,
            scissors,
            before,
        );
        assert forall|id: DrawableId| id != dst && st.has(id) implies (#[trigger] st.get(
            id,
        ))->0.image != d.image by {
            assert(st.has(dst));
        }
        recorded_replays(up, st, m, op, dst);
    }
}

proof fn picture_replays(
    s: EngineView,
    st: StoreView,
    m: Layouts,
    dst: DrawableId,
    source: ResolvedSource,
    is_mask: bool,
    repeat: Repeat,
    pict: PictFormat,
    view: Result<(), VkCode>,
)
    requires
        s.frame is Some,
        replays(s.frame->0, st, m),
        find_layout(s.frame->0.layouts, dst) is Some,
    ensures
        ({
            let o = deferred_picture(s, st, source, is_mask, dst, repeat, pict, view);
            &&& o.0.frame is Some
            &&& replays(o.0.frame->0, o.1, m)
            &&& find_layout(o.0.frame->0.layouts, dst) is Some
            &&& same_storage(st, o.1)
        }),
{
    match source {
        ResolvedSource::Drawable(id) => {
            let f = s.frame->0;
            referring_replays(f, st, m, id, f.ticket);
            find_layout_push(
                f.layouts,
                LayoutEntry { id, pre: st.layout(id), cur: st.layout(id) },
                dst,
            );
        },
        _ => {},
    }
}

proof fn same_storage_distinct(a: StoreView, b: StoreView)
    requires
        same_storage(a, b),
        images_distinct(a),
    ensures
        images_distinct(b),
{
    assert forall|x: DrawableId, y: DrawableId|
        #![trigger b.get(x), b.get(y)]
        b.has(x) && b.has(y) && x != y implies b.get(x)->0.image != b.get(y)->0.image by {
        assert(a.get(x) is Some && a.get(y) is Some);
        assert(a.has(x) && a.has(y));
    }
}

proof fn painted_replays(
    s: EngineView,
    st: StoreView,
    g: GroupView,
    m: Layouts,
    req: &CompositeRequest,
    d: Drawable,
    reply: DeferredReply,
)
    requires
        s.frame is Some,
        replays(s.frame->0, st, m),
        images_distinct(st),
        st.get(req.dst) matches Some(x) && x.image == d.image,
        find_layout(s.frame->0.layouts, req.dst) is Some,
    ensures
        ({
            let o = deferred_painted(s, st, g, req, d, reply);
            o.engine.frame is Some && replays(o.engine.frame->0, o.store, m)
        }),
{
    if !((aliased(req) && !reply.alias_view) || (readback_op(req.op) && !reply.readback_view)) {
        picture_replays(
            s,
            st,
            m,
            req.dst,
            req.src,
            false,
            req.src_repeat,
            req.src_format,
            reply.src_view,
        );
        let a = deferred_picture(
            s,
            st,
            req.src,
            false,
            req.dst,
            req.src_repeat,
            req.src_format,
            reply.src_view,
        );
        if let Ok(Some(src)) = a.2 {
            picture_replays(
                a.0,
                a.1,
                m,
                req.dst,
                req.mask,
                true,
                req.mask_repeat,
                req.mask_format,
                reply.mask_view,
            );
            let b = deferred_picture(
                a.0,
                a.1,
                req.mask,
                true,
                req.dst,
                req.mask_repeat,
                req.mask_format,
                reply.mask_view,
            );
            if let Ok(Some(mask)) = b.2 {
                if let Ok(descriptor) = reply.descriptor {
                    let p = bound_plan(b.1, req, d, src, mask);
                    same_storage_distinct(st, a.1);
                    same_storage_distinct(a.1, b.1);
                    assert(a.1.get(req.dst) is Some && a.1.get(req.dst)->0.image == d.image);
                    assert(b.1.get(req.dst) is Some && b.1.get(req.dst)->0.image == d.image);
                    composite_replays(b.0.frame->0, b.1, m, req, p, descriptor);
                    let o = deferred_painted(s, st, g, req, d, reply);
                    crate::undo::damage_keeps_drawables(
                        b.1,
                        req.dst,
                        quad_damage(req.rects@, d.extent),
                    );
                    assert(same_storage(b.1, o.store));
                    same_storage_replays(o.engine.frame->0, b.1, o.store, m);
                }
            }
        }
    }
}

/// A frame that was just opened can be replayed from what the store says.
pub proof fn opening_replays(
    s: EngineView,
    g: GroupView,
    fresh: Ticket,
    st: StoreView,
    m: Layouts,
)
    requires
        frame_replays(s, st, m),
    ensures
        s.frame_opened(g, fresh).frame is Some,
        frame_replays(s.frame_opened(g, fresh), st, m),
{
}

/// Whatever a composite into a frame comes to, the frame stays replayable.
pub proof fn deferred_step_replays(
    s: EngineView,
    st: StoreView,
    g: GroupView,
    m: Layouts,
    req: &CompositeRequest,
    fits: SnapshotFits,
    reply: DeferredReply,
)
    requires
        frame_replays(s, st, m),
        images_distinct(st),
    ensures
        ({
            let o = deferred_step(s, st, g, req, fits, reply);
            frame_replays(o.engine, o.store, m)
        }),
{
    if let Decision::Paint(d) = deferred_decision(s, st, g, req, fits) {
        let s1 = if grows_readback(req, fits) && reply.readback_grow is Ok {
            s.adopting(reply.readback_grow->Ok_0)
        } else {
            s
        };
        let s2 = if grows_alias(req, fits) && reply.alias_grow is Ok {
            s1.adopting(reply.alias_grow->Ok_0)
        } else {
            s1
        };
        assert(frame_replays(s1, st, m));
        assert(frame_replays(s2, st, m));
        if let Ok(fresh) = usable_ticket(s2, g, reply.fresh) {
            opening_replays(s2, g, fresh, st, m);
            let opened = s2.frame_opened(g, fresh);
            let f = opened.frame->0;
            referring_replays(f, st, m, req.dst, f.ticket);
            let st1 = opened.referred_store(st, req.dst);
            assert(same_storage(st, st1));
            same_storage_distinct(st, st1);
            painted_replays(
                opened.referring(st, req.dst),
                st1,
                s2.frame_group(g, fresh),
                m,
                req,
                d,
                reply,
            );
        }
    }
}

/// When a frame that can be replayed is submitted, the layouts that its
/// commands leave the storage images in are those that the store then says.
pub proof fn submitted_layouts_are_true(f: FrameView, st: StoreView, m: Layouts, id: DrawableId)
    requires
        replays(f, st, m),
        st.has(id),
    ensures
        (layout_run(m, frame_commands(st, true, f.ops)->Ok_0)->0)[st.get(id)->0.image]
            == committed(st, f).layout(id),
{
    commit_gives_recorded_layouts(f, st, id);
}

} // verus!
