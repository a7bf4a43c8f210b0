//! Whatever an operation may change of a drawable, it reports as damage of that
//! drawable, and of no other.

use vstd::prelude::*;

use crate::batch::{batch_extended, batch_started, render_flush_store, RenderFlushReply};
use crate::composite::{
    own_store, own_upkeep, quad_damage, quad_rect, CompositePlan, CompositeReply,
};
use crate::copy::{copy_geometry, copy_store, usable_ticket};
use crate::coverage::asked_area;
use crate::cow::{
    cow_exit, cow_extended, cow_flush_store, cow_started, laid_out_keeps_drawables, CowFlushReply,
};
use crate::deferred::{
    deferred_outcome, deferred_painted, deferred_picture, grows_alias, grows_readback,
    DeferredReply, SnapshotFits,
};
use crate::device::{glyph_covers, quad_covers};
use crate::engine::{CowBatchView, EngineView, RenderBatchView, Staging};
use crate::error::DrawableId;
use crate::fills::{clamping_keeps_cover, some_covers};
use crate::frame::AtlasEntry;
use crate::geometry::{
    clamp_keeps_shared_pixels, clamped_nonempty, clipped_list, copy_keeps_shared_pixels,
    copy_writes, scissors_cover_clip, scissors_of, Extent, Offset, Rect, Rectangle16,
};
use crate::paint::{paint_store, simple_upkeep, PaintReply, UpkeepView};
use crate::picture::{CompositeRect, CompositeRequest};
use crate::recorded::held;
use crate::store::{touched_is_pointwise, Drawable, Layout, StoreView, Ticket};
use crate::submit::GroupView;
use crate::text::{box_rect, far_edge, text_damage, text_upkeep, RunView};
use crate::traps::{trap_rect, trap_upkeep, TrapRequest};

verus! {

/// Whether a pixel of a drawable is reported as damaged.
pub open spec fn damaged_at(st: StoreView, id: DrawableId, x: int, y: int) -> bool {
    exists|i: int|
        0 <= i < st.damage.len() && (#[trigger] st.damage[i]).0 == id && st.damage[i].1.covers(x, y)
}

/// Whether a store reports all that another reports, and beyond that only
/// damage of one drawable.
pub open spec fn reports_only(before: StoreView, after: StoreView, id: DrawableId) -> bool {
    &&& before.damage.len() <= after.damage.len()
    &&& forall|i: int|
        0 <= i < before.damage.len() ==> #[trigger] after.damage[i] == before.damage[i]
    &&& forall|i: int|
        before.damage.len() <= i < after.damage.len() ==> (#[trigger] after.damage[i]).0 == id
}

/// Adding rectangles to the damage of a drawable reports every pixel that one of
/// them covers, and nothing of any other drawable.
pub proof fn damage_is_reported(
    st: StoreView,
    id: DrawableId,
    rects: Seq<Rect>,
    x: int,
    y: int,
)
    requires
        st.has(id),
    ensures
        some_covers(rects, x, y) ==> damaged_at(st.damaged(id, rects), id, x, y),
        reports_only(st, st.damaged(id, rects), id),
        st.damaged(id, rects).slots == st.slots,
    decreases rects.len(),
{
    if rects.len() > 0 {
        let head = rects.drop_last();
        damage_is_reported(st, id, head, x, y);
        let before = st.damaged(id, head);
        let after = st.damaged(id, rects);
        assert(before.has(id));
        if some_covers(rects, x, y) {
            let j = choose|j: int| 0 <= j < rects.len() && (#[trigger] rects[j]).covers(x, y);
            if j < head.len() {
                assert(head[j].covers(x, y));
                let i = choose|i: int|
                    0 <= i < before.damage.len() && (#[trigger] before.damage[i]).0 == id
                        && before.damage[i].1.covers(x, y);
                assert(after.damage[i] == before.damage[i]);
            } else {
                let n = after.damage.len() - 1;
                assert(after.damage[n] == (id, rects.last()));
            }
        }
    }
}

/// A recorded command buffer reports the damage of its target, and nothing
/// else.
pub proof fn paint_reports_damage(
    st: StoreView,
    g: GroupView,
    up: UpkeepView,
    reply: PaintReply,
    x: int,
    y: int,
)
    requires
        st.has(up.target),
    ensures
        (reply matches PaintReply::Recorded { end: Ok(_), .. } && some_covers(up.damage, x, y))
            ==> damaged_at(paint_store(st, g, up, reply), up.target, x, y),
        reports_only(st, paint_store(st, g, up, reply), up.target),
{
    if let PaintReply::Recorded { fresh, end, .. } = reply {
        let laid = st.with_layout(up.target, Layout::ShaderReadOnly);
        if end is Ok {
            let touched = laid.touched(up.touches, g.ticket_or(fresh));
            touched_is_pointwise(laid, up.touches, g.ticket_or(fresh));
            assert(touched.get(up.target) is Some);
            damage_is_reported(touched, up.target, up.damage, x, y);
        }
    }
}

/// A fill reports every pixel that it fills.
pub proof fn fill_reports_damage(
    st: StoreView,
    g: GroupView,
    target: DrawableId,
    rects: Seq<Rect>,
    reply: PaintReply,
    x: int,
    y: int,
)
    requires
        st.has(target),
        st.get(target)->0.extent.covers(x, y),
        some_covers(rects, x, y),
        reply matches PaintReply::Recorded { end: Ok(_), .. },
    ensures
        damaged_at(
            paint_store(
                st,
                g,
                simple_upkeep(target, clamped_nonempty(rects, st.get(target)->0.extent), None),
                reply,
            ),
            target,
            x,
            y,
        ),
{
    let extent = st.get(target)->0.extent;
    clamping_keeps_cover(rects, extent, x, y);
    paint_reports_damage(
        st,
        g,
        simple_upkeep(target, clamped_nonempty(rects, extent), None),
        reply,
        x,
        y,
    );
}

/// A raster operation fill reports every pixel that one of its rectangles
/// covers.
pub proof fn raster_fill_reports_damage(
    st: StoreView,
    g: GroupView,
    target: DrawableId,
    rects: Seq<Rectangle16>,
    reply: PaintReply,
    n: int,
    x: int,
    y: int,
)
    requires
        st.has(target),
        st.get(target)->0.extent.covers(x, y),
        0 <= n < rects.len(),
        rects[n].covers(x, y),
        reply matches PaintReply::Recorded { end: Ok(_), .. },
    ensures
        damaged_at(
            paint_store(
                st,
                g,
                simple_upkeep(target, clipped_list(rects, st.get(target)->0.extent), None),
                reply,
            ),
            target,
            x,
            y,
        ),
{
    let extent = st.get(target)->0.extent;
    scissors_cover_clip(rects, extent, x, y);
    let list = clipped_list(rects, extent);
    let i = choose|i: int| 0 <= i < list.len() && (#[trigger] list[i]).covers(x, y);
    assert(list[i].covers(x, y));
    assert(some_covers(list, x, y));
    paint_reports_damage(st, g, simple_upkeep(target, list, None), reply, x, y);
}

/// The damage of a composite holds every pixel of the destination that one of
/// its rectangles covers.
pub proof fn quad_damage_holds_quads(
    rects: Seq<CompositeRect>,
    extent: Extent,
    n: int,
    x: int,
    y: int,
)
    requires
        0 <= n < rects.len(),
        quad_covers(rects[n], x, y),
        extent.covers(x, y),
    ensures
        some_covers(quad_damage(rects, extent), x, y),
{
    clamp_keeps_shared_pixels(quad_rect(rects[n]), extent, x, y);
    assert(quad_damage(rects, extent)[n].covers(x, y));
}

/// A composite with a command buffer of its own reports every pixel of the
/// destination that one of its rectangles covers.
pub proof fn own_composite_reports_damage(
    s: EngineView,
    st: StoreView,
    g: GroupView,
    req: &CompositeRequest,
    p: CompositePlan,
    descriptor: u64,
    paint: PaintReply,
    n: int,
    x: int,
    y: int,
)
    requires
        st.has(req.dst),
        p.dst.extent.covers(x, y),
        scissors_of(req.clip, p.dst.extent).len() > 0,
        0 <= n < req.rects@.len(),
        quad_covers(req.rects@[n], x, y),
        paint matches PaintReply::Recorded { end: Ok(_), .. },
    ensures
        damaged_at(
            own_store(
                s,
                st,
                g,
                req,
                p,
                CompositeReply::Described { descriptor: Ok(descriptor), paint },
            ),
            req.dst,
            x,
            y,
        ),
{
    quad_damage_holds_quads(req.rects@, p.dst.extent, n, x, y);
    paint_reports_damage(st, g, own_upkeep(s, req, p), paint, x, y);
}

/// A composite into a frame that is recorded reports every pixel of the
/// destination that one of its rectangles covers.
pub proof fn deferred_composite_reports_damage(
    s: EngineView,
    st: StoreView,
    g: GroupView,
    req: &CompositeRequest,
    fits: SnapshotFits,
    reply: DeferredReply,
    n: int,
    x: int,
    y: int,
)
    requires
        st.has(req.dst),
        st.get(req.dst)->0.extent.covers(x, y),
        0 <= n < req.rects@.len(),
        quad_covers(req.rects@[n], x, y),
        held(deferred_outcome(s, st, g, req, st.get(req.dst)->0, fits, reply).engine) != held(s),
    ensures
        damaged_at(
            deferred_outcome(s, st, g, req, st.get(req.dst)->0, fits, reply).store,
            req.dst,
            x,
            y,
        ),
{
    let d = st.get(req.dst)->0;
    let o = deferred_outcome(s, st, g, req, d, fits, reply);
    quad_damage_holds_quads(req.rects@, d.extent, n, x, y);
    let list = quad_damage(req.rects@, d.extent);
    assert forall|at: StoreView| at.has(req.dst) implies damaged_at(
        #[trigger] at.damaged(req.dst, list),
        req.dst,
        x,
        y,
    ) by {
        damage_is_reported(at, req.dst, list, x, y);
    }
    deferred_recording_damages(s, st, g, req, fits, reply);
    let at = choose|at: StoreView| at.has(req.dst) && o.store == #[trigger] at.damaged(
        req.dst,
        list,
    );
    assert(damaged_at(at.damaged(req.dst, list), req.dst, x, y));
}

proof fn painted_recording_damages(
    s: EngineView,
    st: StoreView,
    g: GroupView,
    req: &CompositeRequest,
    d: Drawable,
    reply: DeferredReply,
)
    requires
        s.frame is Some,
        st.has(req.dst),
        held(deferred_painted(s, st, g, req, d, reply).engine) != held(s),
    ensures
        exists|at: StoreView|
            at.has(req.dst) && deferred_painted(s, st, g, req, d, reply).store
                == #[trigger] at.damaged(req.dst, quad_damage(req.rects@, d.extent)),
{
    let (s1, st1, src) = deferred_picture(
        s,
        st,
        req.src,
        false,
        req.dst,
        req.src_repeat,
        req.src_format,
        reply.src_view,
    );
    let (s2, st2, mask) = deferred_picture(
        s1,
        st1,
        req.mask,
        true,
        req.dst,
        req.mask_repeat,
        req.mask_format,
        reply.mask_view,
    );
    assert(st1.has(req.dst));
    assert(st2.has(req.dst));
    assert(held(s1) == held(s));
    assert(held(s2) == held(s));
    let o = deferred_painted(s, st, g, req, d, reply);
    assert(o.store == st2.damaged(req.dst, quad_damage(req.rects@, d.extent)));
}

proof fn deferred_recording_damages(
    s: EngineView,
    st: StoreView,
    g: GroupView,
    req: &CompositeRequest,
    fits: SnapshotFits,
    reply: DeferredReply,
)
    requires
        st.has(req.dst),
        held(deferred_outcome(s, st, g, req, st.get(req.dst)->0, fits, reply).engine) != held(s),
    ensures
        exists|at: StoreView|
            at.has(req.dst) && deferred_outcome(
                s,
                st,
                g,
                req,
                st.get(req.dst)->0,
                fits,
                reply,
            ).store == #[trigger] at.damaged(
                req.dst,
                quad_damage(req.rects@, st.get(req.dst)->0.extent),
            ),
{
    let d = st.get(req.dst)->0;
    let s1 = if grows_readback(req, fits) {
        s.adopting(reply.readback_grow->Ok_0)
    } else {
        s
    };
    let s2 = if grows_alias(req, fits) {
        s1.adopting(reply.alias_grow->Ok_0)
    } else {
        s1
    };
    assert(held(s1) == held(s));
    assert(held(s2) == held(s));
    if let Ok(fresh) = usable_ticket(s2, g, reply.fresh) {
        let opened = s2.frame_opened(g, fresh);
        assert(held(opened) =~= held(s));
        let r = opened.referring(st, req.dst);
        assert(held(r) == held(opened));
        painted_recording_damages(
            r,
            opened.referred_store(st, req.dst),
            s2.frame_group(g, fresh),
            req,
            d,
            reply,
        );
    }
}

/// Trapezoids and triangles report every pixel of the destination that they
/// composite.
pub proof fn traps_report_damage(
    s: EngineView,
    st: StoreView,
    g: GroupView,
    req: &TrapRequest,
    d: Drawable,
    staging: Staging,
    paint: PaintReply,
    x: int,
    y: int,
)
    requires
        st.has(req.dst),
        d.extent.covers(x, y),
        asked_area(req, d).covers(x, y),
        paint matches PaintReply::Recorded { end: Ok(_), .. },
    ensures
        damaged_at(paint_store(st, g, trap_upkeep(s, req, d, staging), paint), req.dst, x, y),
{
    let up = trap_upkeep(s, req, d, staging);
    clamp_keeps_shared_pixels(trap_rect(req, d), d.extent, x, y);
    assert(up.damage[0].covers(x, y));
    assert(some_covers(up.damage, x, y));
    paint_reports_damage(st, g, up, paint, x, y);
}

/// A copy reports every pixel that it writes.
pub proof fn copy_reports_damage(
    st: StoreView,
    ticket: Ticket,
    src: DrawableId,
    dst: DrawableId,
    rect: Rect,
    pos: Offset,
    x: int,
    y: int,
)
    requires
        st.has(src),
        st.has(dst),
        copy_writes(rect, st.get(src)->0.extent, pos, st.get(dst)->0.extent, x, y),
    ensures
        copy_geometry(st.get(src)->0, st.get(dst)->0, rect, pos) matches Some(c) && damaged_at(
            copy_store(st, ticket, src, dst, c.dst_rect),
            dst,
            x,
            y,
        ),
{
    let s = st.get(src)->0;
    let d = st.get(dst)->0;
    copy_keeps_shared_pixels(rect, s.extent, pos, d.extent, x, y);
    let c = copy_geometry(s, d, rect, pos)->0;
    let end = copy_store(st, ticket, src, dst, c.dst_rect);
    let n = end.damage.len() - 1;
    assert(end.damage[n] == (dst, c.dst_rect));
}

/// A batch of overlay copies remembers the damage of every copy, from its start
/// on.
pub proof fn cow_batch_remembers_damage(
    b: CowBatchView,
    cb: u64,
    ticket: Ticket,
    dst: DrawableId,
    src: DrawableId,
    rect: Rect,
    x: int,
    y: int,
)
    ensures
        rect.covers(x, y) ==> some_covers(cow_started(cb, ticket, dst, src, rect).dst_damage, x, y),
        rect.covers(x, y) ==> some_covers(cow_extended(b, src, rect).dst_damage, x, y),
        some_covers(b.dst_damage, x, y) ==> some_covers(
            cow_extended(b, src, rect).dst_damage,
            x,
            y,
        ),
{
    let a = cow_started(cb, ticket, dst, src, rect).dst_damage;
    let e = cow_extended(b, src, rect).dst_damage;
    if rect.covers(x, y) {
        assert(a[0].covers(x, y));
        assert(e[e.len() - 1].covers(x, y));
    }
    if some_covers(b.dst_damage, x, y) {
        let j = choose|j: int|
            0 <= j < b.dst_damage.len() && (#[trigger] b.dst_damage[j]).covers(x, y);
        assert(e[j].covers(x, y));
    }
}

/// When a batch of overlay copies ends in a command buffer, it reports all the
/// damage that it remembered.
pub proof fn cow_flush_reports_damage(
    s: EngineView,
    st: StoreView,
    g: GroupView,
    reply: CowFlushReply,
    x: int,
    y: int,
)
    requires
        !g.renderer_failed,
        reply.end is Ok,
        reply.signal is Ok,
        s.cow matches Some(b) && cow_exit(st, b).1 is Ok && some_covers(b.dst_damage, x, y),
    ensures
        damaged_at(cow_flush_store(s, st, g, reply), s.cow->0.dst, x, y),
{
    let b = s.cow->0;
    let laid = cow_exit(st, b).0;
    laid_out_keeps_drawables(st, b.srcs, Layout::ShaderReadOnly);
    assert(st.laid_out(b.srcs, Layout::ShaderReadOnly).has(b.dst));
    assert(laid.has(b.dst));
    let marked = laid.with_ticket(b.dst, Some(b.ticket));
    let touched = marked.touched(b.srcs, b.ticket);
    touched_is_pointwise(marked, b.srcs, b.ticket);
    assert(touched.get(b.dst) is Some);
    damage_is_reported(touched, b.dst, b.dst_damage, x, y);
}

/// A batch of composites remembers the damage of every composite, from its start
/// on.
pub proof fn render_batch_remembers_damage(
    b: RenderBatchView,
    cb: u64,
    ticket: Ticket,
    req: &CompositeRequest,
    p: CompositePlan,
    n: int,
    x: int,
    y: int,
)
    requires
        p.dst.extent.covers(x, y),
    ensures
        0 <= n < req.rects@.len() && quad_covers(req.rects@[n], x, y) ==> some_covers(
            batch_started(cb, ticket, req, p).dst_damage,
            x,
            y,
        ) && some_covers(batch_extended(b, req, p).dst_damage, x, y),
        some_covers(b.dst_damage, x, y) ==> some_covers(
            batch_extended(b, req, p).dst_damage,
            x,
            y,
        ),
{
    let list = quad_damage(req.rects@, p.dst.extent);
    let e = batch_extended(b, req, p).dst_damage;
    if 0 <= n < req.rects@.len() && quad_covers(req.rects@[n], x, y) {
        quad_damage_holds_quads(req.rects@, p.dst.extent, n, x, y);
        let j = choose|j: int| 0 <= j < list.len() && (#[trigger] list[j]).covers(x, y);
        assert(e[b.dst_damage.len() + j].covers(x, y));
    }
    if some_covers(b.dst_damage, x, y) {
        let j = choose|j: int|
            0 <= j < b.dst_damage.len() && (#[trigger] b.dst_damage[j]).covers(x, y);
        assert(e[j].covers(x, y));
    }
}

/// When a batch of composites ends in a command buffer, it reports all the
/// damage that it remembered.
pub proof fn render_flush_reports_damage(
    s: EngineView,
    st: StoreView,
    g: GroupView,
    reply: RenderFlushReply,
    x: int,
    y: int,
)
    requires
        !g.renderer_failed,
        reply.end is Ok,
        s.render matches Some(b) && st.has(b.key.dst) && some_covers(b.dst_damage, x, y),
    ensures
        damaged_at(render_flush_store(s, st, g, reply), s.render->0.key.dst, x, y),
{
    let b = s.render->0;
    let laid = st.with_layout(b.key.dst, Layout::ShaderReadOnly);
    let marked = laid.with_ticket(b.key.dst, Some(b.ticket));
    let touched = marked.touched(b.touched, b.ticket);
    touched_is_pointwise(marked, b.touched, b.ticket);
    assert(touched.get(b.key.dst) is Some);
    damage_is_reported(touched, b.key.dst, b.dst_damage, x, y);
}

/// Whether the box of a run holds every glyph that it draws.
pub open spec fn boxed(run: RunView) -> bool {
    forall|i: int|
        0 <= i < run.draws.len() ==> {
            let g = #[trigger] run.draws[i];
            &&& run.bounds.min_x <= g.dst_x
            &&& run.bounds.min_y <= g.dst_y
            &&& far_edge(g.dst_x, g.w) <= run.bounds.max_x
            &&& far_edge(g.dst_y, g.h) <= run.bounds.max_y
        }
}

/// A run starts with a box that holds all its glyphs, and keeps one whatever is
/// added to it.
pub proof fn runs_stay_boxed(run: RunView, e: AtlasEntry, x: i32, y: i32)
    requires
        boxed(run),
    ensures
        boxed(RunView::start()),
        boxed(run.drawing(e, x, y)),
        boxed(run.dropping()),
        boxed(run.interning()),
        boxed(run.uploading()),
{
    let next = run.drawing(e, x, y);
    assert forall|i: int| 0 <= i < next.draws.len() implies {
        let g = #[trigger] next.draws[i];
        &&& next.bounds.min_x <= g.dst_x
        &&& next.bounds.min_y <= g.dst_y
        &&& far_edge(g.dst_x, g.w) <= next.bounds.max_x
        &&& far_edge(g.dst_y, g.h) <= next.bounds.max_y
    } by {
        if i < run.draws.len() {
            assert(next.draws[i] == run.draws[i]);
        }
    }
}

/// The damage of a run holds every pixel of its target that one of its glyphs
/// covers, with the target's size as clip or without.
pub proof fn text_damage_holds_glyphs(
    run: RunView,
    extent: Extent,
    n: int,
    x: int,
    y: int,
)
    requires
        boxed(run),
        0 <= n < run.draws.len(),
        run.draws[n].w <= i32::MAX,
        run.draws[n].h <= i32::MAX,
        glyph_covers(run.draws[n], x, y),
        extent.covers(x, y),
    ensures
        some_covers(text_damage(run.bounds, None), x, y),
        some_covers(text_damage(run.bounds, Some(extent)), x, y),
{
    let g = run.draws[n];
    let b = run.bounds;
    assert(x < far_edge(g.dst_x, g.w));
    assert(y < far_edge(g.dst_y, g.h));
    assert(box_rect(b) is Some);
    let r = box_rect(b)->0;
    assert(r.covers(x, y));
    clamp_keeps_shared_pixels(r, extent, x, y);
    assert(text_damage(b, None)[0].covers(x, y));
    assert(text_damage(b, Some(extent))[0].covers(x, y));
}

/// A text run outside a frame reports every pixel of its target that one of its
/// glyphs covers.
pub proof fn text_reports_damage(
    s: EngineView,
    st: StoreView,
    g: GroupView,
    target: DrawableId,
    run: RunView,
    clip: Option<Extent>,
    paint: PaintReply,
    n: int,
    x: int,
    y: int,
)
    requires
        st.has(target),
        st.get(target)->0.extent.covers(x, y),
        clip matches Some(e) ==> e == st.get(target)->0.extent,
        boxed(run),
        0 <= n < run.draws.len(),
        run.draws[n].w <= i32::MAX,
        run.draws[n].h <= i32::MAX,
        glyph_covers(run.draws[n], x, y),
        paint matches PaintReply::Recorded { end: Ok(_), .. },
    ensures
        damaged_at(
            paint_store(st, g, text_upkeep(s, target, text_damage(run.bounds, clip)), paint),
            target,
            x,
            y,
        ),
{
    text_damage_holds_glyphs(run, st.get(target)->0.extent, n, x, y);
    paint_reports_damage(
        st,
        g,
        text_upkeep(s, target, text_damage(run.bounds, clip)),
        paint,
        x,
        y,
    );
}

} // verus!
