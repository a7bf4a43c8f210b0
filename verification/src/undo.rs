//! A frame takes effect as a whole or not at all.

use vstd::prelude::*;

use crate::close::{close_result, close_store, CloseOutcome, CloseReply};
use crate::command::{Color, ScratchImage};
use crate::copy::{copy_frame, copy_referring, copy_store, usable_ticket, CopyGeometry};
use crate::deferred::{
    deferred_decision, deferred_painted, deferred_picture, grows_alias, grows_readback,
    DeferredReply, SnapshotFits,
};
use crate::dispatch::deferred_step;
use crate::engine::{CloseReason, EngineView};
use crate::error::{DrawableId, VkCode};
use crate::frame::{
    committed, find_layout, find_touch, rolled_back, set_cur, FrameView, LayoutEntry, OpView,
    TouchEntry,
};
use crate::geometry::Rect;
use crate::glyphs::{
    begun, frame_uploading, frame_with_run, frame_with_uploads, FrameRunView, NewUpload,
};
use crate::paint::Decision;
use crate::picture::{CompositeRequest, PictFormat, Repeat, ResolvedSource};
use crate::store::{Drawable, Layout, StoreView, Ticket};
use crate::submit::GroupView;

verus! {

/// Whether undoing frame `f` turns the drawables of `st` back into those of
/// `st0`: no layout has changed yet, every ticket that has changed is known
/// to the frame, and what the frame knows is what `st0` says.
pub open spec fn undoable(f: FrameView, st0: StoreView, st: StoreView) -> bool {
    &&& st.slots.len() == st0.slots.len()
    &&& forall|id: DrawableId|
        #![trigger st.get(id)]
        #![trigger st0.get(id)]
        match st0.get(id) {
            None => st.get(id) is None,
            Some(d) => st.get(id) == Some(
                Drawable { last_render_ticket: st.ticket(id), ..d },
            ) && (find_touch(f.touched, id) is None ==> st.ticket(id) == d.last_render_ticket),
        }
    &&& forall|id: DrawableId| #[trigger]
        find_layout(f.layouts, id) matches Some(e) ==> e.pre == st0.layout(id)
    &&& forall|id: DrawableId| #[trigger]
        find_touch(f.touched, id) matches Some(e) ==> e.prior == st0.ticket(id)
}

/// A frame that was just opened has nothing to undo.
pub proof fn fresh_frame_is_undoable(ticket: Ticket, generation: u64, st: StoreView)
    ensures
        undoable(FrameView::fresh(ticket, generation), st, st),
{
}

pub proof fn find_layout_push(list: Seq<LayoutEntry>, e: LayoutEntry, id: DrawableId)
    ensures
        find_layout(list.push(e), id) == match find_layout(list, id) {
            Some(x) => Some(x),
            None => if e.id == id {
                Some(e)
            } else {
                None
            },
        },
    decreases list.len(),
{
    if list.len() > 0 {
        assert(list.push(e).skip(1) =~= list.skip(1).push(e));
        find_layout_push(list.skip(1), e, id);
    } else {
        reveal_with_fuel(find_layout, 2);
        assert(list.push(e).skip(1) =~= Seq::empty());
    }
}

pub proof fn find_touch_push(list: Seq<TouchEntry>, e: TouchEntry, id: DrawableId)
    ensures
        find_touch(list.push(e), id) == match find_touch(list, id) {
            Some(x) => Some(x),
            None => if e.id == id {
                Some(e)
            } else {
                None
            },
        },
    decreases list.len(),
{
    if list.len() > 0 {
        assert(list.push(e).skip(1) =~= list.skip(1).push(e));
        find_touch_push(list.skip(1), e, id);
    } else {
        reveal_with_fuel(find_touch, 2);
        assert(list.push(e).skip(1) =~= Seq::empty());
    }
}

/// The entry of a drawable after the recorded layout of one was replaced.
pub proof fn find_layout_set(list: Seq<LayoutEntry>, id: DrawableId, layout: Layout, x: DrawableId)
    ensures
        find_layout(set_cur(list, id, layout), x) == match find_layout(list, x) {
            Some(e) => Some(
                if x == id {
                    LayoutEntry { cur: layout, ..e }
                } else {
                    e
                },
            ),
            None => None,
        },
        find_layout(list, x) matches Some(e) ==> e.id == x,
    decreases list.len(),
{
    if list.len() > 0 {
        assert(set_cur(list, id, layout).skip(1) =~= set_cur(list.skip(1), id, layout));
        find_layout_set(list.skip(1), id, layout, x);
    }
}

/// Referring to one more drawable keeps a frame undoable.
pub proof fn referring_is_undoable(f: FrameView, st0: StoreView, st: StoreView, id: DrawableId)
    requires
        undoable(f, st0, st),
    ensures
        undoable(
            f.referring(id, st.layout(id), st.ticket(id)),
            st0,
            st.with_ticket(id, Some(f.ticket)),
        ),
{
    let f1 = f.referring(id, st.layout(id), st.ticket(id));
    let st1 = st.with_ticket(id, Some(f.ticket));
    assert(st.get(id) is Some <==> st0.get(id) is Some);
    assert forall|x: DrawableId| #[trigger] find_layout(f1.layouts, x) matches Some(e)
        ==> e.pre == st0.layout(x) by {
        find_layout_push(
            f.layouts,
            LayoutEntry { id, pre: st.layout(id), cur: st.layout(id) },
            x,
        );
        assert(find_layout(f.layouts, x) matches Some(e) ==> e.pre == st0.layout(x));
    }
    assert forall|x: DrawableId| #[trigger] find_touch(f1.touched, x) matches Some(e)
        ==> e.prior == st0.ticket(x) by {
        find_touch_push(f.touched, TouchEntry { id, prior: st.ticket(id) }, x);
        assert(find_touch(f.touched, x) matches Some(e) ==> e.prior == st0.ticket(x));
    }
    assert forall|x: DrawableId|
        #![trigger st1.get(x)]
        #![trigger st0.get(x)]
        match st0.get(x) {
            None => st1.get(x) is None,
            Some(d) => st1.get(x) == Some(
                Drawable { last_render_ticket: st1.ticket(x), ..d },
            ) && (find_touch(f1.touched, x) is None ==> st1.ticket(x) == d.last_render_ticket),
        } by {
        find_touch_push(f.touched, TouchEntry { id, prior: st.ticket(id) }, x);
        assert(st0.get(x) is None <==> st.get(x) is None);
    }
}

/// Recording an operation keeps a frame undoable.
pub proof fn recording_is_undoable(
    f: FrameView,
    st0: StoreView,
    st: StoreView,
    ops: Seq<OpView>,
    id: DrawableId,
    layout: Layout,
)
    requires
        undoable(f, st0, st),
    ensures
        undoable(
            FrameView { ops, layouts: set_cur(f.layouts, id, layout), ..f },
            st0,
            st,
        ),
{
    let f1 = FrameView { ops, layouts: set_cur(f.layouts, id, layout), ..f };
    assert forall|x: DrawableId| #[trigger] find_layout(f1.layouts, x) matches Some(e)
        ==> e.pre == st0.layout(x) by {
        find_layout_set(f.layouts, id, layout, x);
        assert(find_layout(f.layouts, x) matches Some(e) ==> e.pre == st0.layout(x));
    }
}

pub proof fn damage_keeps_drawables(st: StoreView, id: DrawableId, rects: Seq<Rect>)
    ensures
        st.damaged(id, rects).slots == st.slots,
    decreases rects.len(),
{
    if rects.len() > 0 {
        damage_keeps_drawables(st, id, rects.drop_last());
    }
}

proof fn same_slots_undoable(f: FrameView, st0: StoreView, a: StoreView, b: StoreView)
    requires
        undoable(f, st0, a),
        a.slots == b.slots,
    ensures
        undoable(f, st0, b),
{
    assert forall|id: DrawableId| a.get(id) == b.get(id) && a.ticket(id) == b.ticket(id) by {}
    assert forall|x: DrawableId|
        #![trigger b.get(x)]
        #![trigger st0.get(x)]
        match st0.get(x) {
            None => b.get(x) is None,
            Some(d) => b.get(x) == Some(
                Drawable { last_render_ticket: b.ticket(x), ..d },
            ) && (find_touch(f.touched, x) is None ==> b.ticket(x) == d.last_render_ticket),
        } by {
        assert(a.get(x) == b.get(x));
        assert(a.ticket(x) == b.ticket(x));
        assert(match st0.get(x) {
            None => a.get(x) is None,
            Some(d) => a.get(x) == Some(
                Drawable { last_render_ticket: a.ticket(x), ..d },
            ) && (find_touch(f.touched, x) is None ==> a.ticket(x) == d.last_render_ticket),
        });
    }
}

/// A copy recorded into a frame keeps it undoable.
pub proof fn copy_is_undoable(
    f: FrameView,
    st0: StoreView,
    st: StoreView,
    src: DrawableId,
    dst: DrawableId,
    c: CopyGeometry,
    scratch: Option<ScratchImage>,
)
    requires
        undoable(f, st0, st),
    ensures
        undoable(
            copy_frame(f, st, src, dst, c, scratch),
            st0,
            copy_store(st, f.ticket, src, dst, c.dst_rect),
        ),
{
    let f1 = f.referring(dst, st.layout(dst), st.ticket(dst));
    let st1 = st.with_ticket(dst, Some(f.ticket));
    referring_is_undoable(f, st0, st, dst);
    let f2 = copy_referring(f, st, src, dst);
    let st2 = if src == dst {
        st1
    } else {
        st1.with_ticket(src, Some(f.ticket))
    };
    if src != dst {
        assert(st1.layout(src) == st.layout(src) && st1.ticket(src) == st.ticket(src));
        referring_is_undoable(f1, st0, st1, src);
    }
    assert(undoable(f2, st0, st2));
    let op = OpView::CopyArea(crate::copy::copy_record(f2, st, src, dst, c, scratch));
    recording_is_undoable(f2, st0, st2, f2.ops.push(op), dst, Layout::ShaderReadOnly);
    let f3 = f2.recorded(op, dst, Layout::ShaderReadOnly);
    recording_is_undoable(f3, st0, st2, f3.ops, src, Layout::ShaderReadOnly);
    same_slots_undoable(
        copy_frame(f, st, src, dst, c, scratch),
        st0,
        st2,
        copy_store(st, f.ticket, src, dst, c.dst_rect),
    );
}

proof fn picture_is_undoable(
    s: EngineView,
    st0: StoreView,
    st: StoreView,
    source: ResolvedSource,
    is_mask: bool,
    dst: DrawableId,
    repeat: Repeat,
    pict: PictFormat,
    view: Result<(), VkCode>,
)
    requires
        s.frame is Some,
        undoable(s.frame->0, st0, st),
    ensures
        ({
            let o = deferred_picture(s, st, source, is_mask, dst, repeat, pict, view);
            o.0.frame is Some && undoable(o.0.frame->0, st0, o.1)
        }),
{
    match source {
        ResolvedSource::Drawable(id) => {
            referring_is_undoable(s.frame->0, st0, st, id);
        },
        _ => {},
    }
}

/// A composite recorded into a frame keeps it undoable, whatever it comes to.
pub proof fn composite_is_undoable(
    s: EngineView,
    st0: StoreView,
    st: StoreView,
    g: GroupView,
    req: &CompositeRequest,
    d: Drawable,
    reply: DeferredReply,
)
    requires
        s.frame is Some,
        undoable(s.frame->0, st0, st),
    ensures
        ({
            let o = deferred_painted(s, st, g, req, d, reply);
            o.engine.frame is Some && undoable(o.engine.frame->0, st0, o.store)
        }),
{
    picture_is_undoable(
        s,
        st0,
        st,
        req.src,
        false,
        req.dst,
        req.src_repeat,
        req.src_format,
        reply.src_view,
    );
    let a = deferred_picture(
        s,
        st,
        req.src,
        false,
        req.dst,
        req.src_repeat,
        req.src_format,
        reply.src_view,
    );
    picture_is_undoable(
        a.0,
        st0,
        a.1,
        req.mask,
        true,
        req.dst,
        req.mask_repeat,
        req.mask_format,
        reply.mask_view,
    );
    let b = deferred_picture(
        a.0,
        a.1,
        req.mask,
        true,
        req.dst,
        req.mask_repeat,
        req.mask_format,
        reply.mask_view,
    );
    let o = deferred_painted(s, st, g, req, d, reply);
    if a.2 matches Ok(Some(_)) && b.2 matches Ok(Some(_)) && reply.descriptor is Ok && !((
    crate::deferred::aliased(req) && !reply.alias_view) || (crate::picture::readback_op(req.op)
        && !reply.readback_view)) {
        let f2 = b.0.frame->0;
        let f3 = o.engine.frame->0;
        recording_is_undoable(f2, st0, b.1, f3.ops, req.dst, Layout::ShaderReadOnly);
        damage_keeps_drawables(
            b.1,
            req.dst,
            crate::composite::quad_damage(req.rects@, d.extent),
        );
        same_slots_undoable(f3, st0, b.1, o.store);
    }
}

proof fn uploads_are_undoable(f: FrameView, st0: StoreView, st: StoreView, list: Seq<NewUpload>)
    requires
        undoable(f, st0, st),
    ensures
        undoable(frame_uploading(f, list), st0, st),
        frame_uploading(f, list).layouts == f.layouts,
        frame_uploading(f, list).touched == f.touched,
    decreases list.len(),
{
    if list.len() > 0 {
        uploads_are_undoable(f, st0, st, list.drop_last());
    }
}

/// A text run recorded into a frame keeps it undoable.
pub proof fn run_is_undoable(
    f: FrameView,
    st0: StoreView,
    st: StoreView,
    dst: DrawableId,
    foreground: Color,
    run: FrameRunView,
    scissors: Seq<Rect>,
    damage: Seq<Rect>,
)
    requires
        undoable(f, st0, st),
    ensures
        undoable(
            frame_with_run(f, st, dst, foreground, run, scissors),
            st0,
            st.damaged(dst, damage),
        ),
{
    uploads_are_undoable(f, st0, st, run.uploads);
    let up = frame_with_uploads(f, run);
    assert(undoable(up, st0, st));
    let g = frame_with_run(f, st, dst, foreground, run, scissors);
    if !(run.run.draws.len() == 0 || scissors.len() == 0) {
        recording_is_undoable(up, st0, st, g.ops, dst, Layout::ShaderReadOnly);
    }
    damage_keeps_drawables(st, dst, damage);
    same_slots_undoable(g, st0, st, st.damaged(dst, damage));
}

/// Undoing a frame turns every drawable back into what it was before the
/// frame.
pub proof fn undo_restores_drawables(f: FrameView, st0: StoreView, st: StoreView)
    requires
        undoable(f, st0, st),
        st0.slots.len() <= usize::MAX,
    ensures
        rolled_back(st, f).slots == st0.slots,
        rolled_back(st, f).damage == st.damage,
{
    let end = rolled_back(st, f);
    assert forall|i: int| 0 <= i < st0.slots.len() implies end.slots[i] == st0.slots[i] by {
        let id = i as DrawableId;
        assert(st0.get(id) == st0.slots[i]);
        assert(st.get(id) == st.slots[i]);
        assert(find_layout(f.layouts, id) matches Some(e) ==> e.pre == st0.layout(id));
        assert(find_touch(f.touched, id) matches Some(e) ==> e.prior == st0.ticket(id));
    }
    assert(end.slots =~= st0.slots);
}

/// Submitting a frame gives every drawable the layout that the recorded
/// operations leave it in, and changes nothing else of it.
pub proof fn commit_gives_recorded_layouts(f: FrameView, st: StoreView, id: DrawableId)
    ensures
        committed(st, f).get(id) == match st.get(id) {
            None => None,
            Some(d) => Some(Drawable { layout: f.current_layout(id, d.layout), ..d }),
        },
        committed(st, f).damage == st.damage,
{
}

/// Whether the drawables of `st0` come back if the open frame fails; without
/// a frame they are still what they were.
pub open spec fn frame_undoable(s: EngineView, st0: StoreView, st: StoreView) -> bool {
    match s.frame {
        Some(f) => undoable(f, st0, st),
        None => st.slots == st0.slots,
    }
}

/// Opening a frame keeps the drawables recoverable.
pub proof fn opening_is_undoable(
    s: EngineView,
    g: GroupView,
    fresh: Ticket,
    st0: StoreView,
    st: StoreView,
)
    requires
        frame_undoable(s, st0, st),
    ensures
        s.frame_opened(g, fresh).frame is Some,
        frame_undoable(s.frame_opened(g, fresh), st0, st),
{
    if s.frame is None {
        let f = s.frame_opened(g, fresh).frame->0;
        assert forall|id: DrawableId| st.get(id) == st0.get(id) by {}
        assert(undoable(f, st0, st)) by {
            assert forall|x: DrawableId|
                #![trigger st.get(x)]
                #![trigger st0.get(x)]
                match st0.get(x) {
                    None => st.get(x) is None,
                    Some(d) => st.get(x) == Some(
                        Drawable { last_render_ticket: st.ticket(x), ..d },
                    ) && (find_touch(f.touched, x) is None ==> st.ticket(x)
                        == d.last_render_ticket),
                } by {
                assert(st.get(x) == st0.get(x));
            }
        }
    }
}

proof fn adopting_is_undoable(
    s: EngineView,
    object: Option<u64>,
    st0: StoreView,
    st: StoreView,
)
    requires
        frame_undoable(s, st0, st),
    ensures
        frame_undoable(s.adopting(object), st0, st),
        s.adopting(object).frame is Some <==> s.frame is Some,
{
}

/// Whatever a composite into a frame comes to, the drawables stay
/// recoverable.
pub proof fn deferred_step_is_undoable(
    s: EngineView,
    st0: StoreView,
    st: StoreView,
    g: GroupView,
    req: &CompositeRequest,
    fits: SnapshotFits,
    reply: DeferredReply,
)
    requires
        frame_undoable(s, st0, st),
    ensures
        ({
            let o = deferred_step(s, st, g, req, fits, reply);
            frame_undoable(o.engine, st0, o.store)
        }),
{
    if let Decision::Paint(d) = deferred_decision(s, st, g, req, fits) {
        let s1 = if grows_readback(req, fits) && reply.readback_grow is Ok {
            s.adopting(reply.readback_grow->Ok_0)
        } else {
            s
        };
        if grows_readback(req, fits) && reply.readback_grow is Ok {
            adopting_is_undoable(s, reply.readback_grow->Ok_0, st0, st);
        }
        let s2 = if grows_alias(req, fits) && reply.alias_grow is Ok {
            s1.adopting(reply.alias_grow->Ok_0)
        } else {
            s1
        };
        if grows_alias(req, fits) && reply.alias_grow is Ok {
            adopting_is_undoable(s1, reply.alias_grow->Ok_0, st0, st);
        }
        if let Ok(fresh) = usable_ticket(s2, g, reply.fresh) {
            opening_is_undoable(s2, g, fresh, st0, st);
            let opened = s2.frame_opened(g, fresh);
            referring_is_undoable(opened.frame->0, st0, st, req.dst);
            composite_is_undoable(
                opened.referring(st, req.dst),
                st0,
                opened.referred_store(st, req.dst),
                s2.frame_group(g, fresh),
                req,
                d,
                reply,
            );
        }
    }
}

/// Beginning a text run in a frame keeps the drawables recoverable.
pub proof fn begun_is_undoable(s: EngineView, st0: StoreView, st: StoreView, dst: DrawableId)
    requires
        s.frame is Some,
        frame_undoable(s, st0, st),
    ensures
        frame_undoable(begun(s, st, dst), st0, s.referred_store(st, dst)),
{
    referring_is_undoable(s.frame->0, st0, st, dst);
}

/// A close that fails leaves every drawable as it was before the frame.
pub proof fn failed_close_restores_drawables(
    s: EngineView,
    st0: StoreView,
    st: StoreView,
    reason: CloseReason,
    reply: CloseReply,
)
    requires
        frame_undoable(s, st0, st),
        st0.slots.len() <= usize::MAX,
        close_result(s, st, reason, reply) is Err,
    ensures
        close_store(s, st, reply).slots == st0.slots,
{
    if let Some(f) = s.frame {
        undo_restores_drawables(f, st0, st);
    }
}

/// A close that succeeds gives every drawable the layout that the frame's
/// operations leave it in.
pub proof fn submitted_close_commits_layouts(
    s: EngineView,
    st: StoreView,
    reason: CloseReason,
    reply: CloseReply,
    id: DrawableId,
)
    requires
        close_result(s, st, reason, reply) matches Ok(CloseOutcome::Submitted { .. }),
    ensures
        s.frame is Some,
        close_store(s, st, reply).layout(id) == match st.get(id) {
            Some(d) => s.frame->0.current_layout(id, d.layout),
            None => Layout::Undefined,
        },
{
    commit_gives_recorded_layouts(s.frame->0, st, id);
}

} // verus!
