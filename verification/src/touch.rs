//! Everything that recorded work refers to carries the ticket of that work,
//! so that it is not destroyed too early.

use vstd::prelude::*;

use crate::batch::{
    append_engine, append_store, batch_touched, sampled_store, with_id, BatchAppendReply,
};
use crate::command::ScratchImage;
use crate::composite::CompositePlan;
use crate::copy::{copy_frame, copy_store, CopyGeometry};
use crate::cow::{cow_extended, cow_started, BatchReply};
use crate::deferred::{deferred_painted, deferred_picture, DeferredReply};
use crate::engine::{CowBatchView, EngineView, RenderBatchView};
use crate::error::{DrawableId, VkCode};
use crate::frame::{find_touch, FrameView, TouchEntry};
use crate::geometry::Rect;
use crate::paint::{paint_store, PaintReply, UpkeepView};
use crate::picture::{CompositeRequest, PictFormat, Repeat, ResolvedSource};
use crate::store::{touched_is_pointwise, Drawable, Layout, StoreView, Ticket};
use crate::submit::GroupView;
use crate::undo::{damage_keeps_drawables, find_touch_push};

verus! {

/// Whether a drawable, if it exists, carries a ticket.
pub open spec fn carries(st: StoreView, id: DrawableId, ticket: Ticket) -> bool {
    st.get(id) matches Some(d) ==> d.last_render_ticket == Some(ticket)
}

/// Whether everything that a batch of overlay copies refers to carries its
/// ticket.
pub open spec fn cow_carries(b: CowBatchView, st: StoreView) -> bool {
    &&& carries(st, b.dst, b.ticket)
    &&& forall|i: int| 0 <= i < b.srcs.len() ==> carries(st, #[trigger] b.srcs[i], b.ticket)
}

/// Whether everything that a batch of composites refers to carries its
/// ticket.
pub open spec fn batch_carries(b: RenderBatchView, st: StoreView) -> bool {
    &&& carries(st, b.key.dst, b.ticket)
    &&& forall|i: int| 0 <= i < b.touched.len() ==> carries(st, #[trigger] b.touched[i], b.ticket)
}

/// Whether everything that a frame refers to carries its ticket.
pub open spec fn frame_carries(f: FrameView, st: StoreView) -> bool {
    forall|id: DrawableId| #[trigger] find_touch(f.touched, id) is Some ==> carries(
        st,
        id,
        f.ticket,
    )
}

/// A batch of overlay copies that starts has its drawables carry its ticket.
pub proof fn cow_start_carries(
    st: StoreView,
    cb: u64,
    ticket: Ticket,
    cow: DrawableId,
    src: DrawableId,
    rect: Rect,
)
    ensures
        cow_carries(
            cow_started(cb, ticket, cow, src, rect),
            st.with_layout(cow, Layout::TransferDst).with_layout(
                src,
                Layout::TransferSrc,
            ).with_ticket(cow, Some(ticket)).with_ticket(src, Some(ticket)),
        ),
{
}

/// A batch of overlay copies that grows has its drawables carry its ticket.
pub proof fn cow_extension_carries(b: CowBatchView, st: StoreView, src: DrawableId, rect: Rect)
    requires
        cow_carries(b, st),
    ensures
        cow_carries(
            cow_extended(b, src, rect),
            if b.srcs.contains(src) {
                st
            } else {
                st.with_layout(src, Layout::TransferSrc).with_ticket(src, Some(b.ticket))
            },
        ),
{
    if !b.srcs.contains(src) {
        let st1 = st.with_layout(src, Layout::TransferSrc).with_ticket(src, Some(b.ticket));
        let b1 = cow_extended(b, src, rect);
        assert forall|i: int| 0 <= i < b1.srcs.len() implies carries(
            st1,
            #[trigger] b1.srcs[i],
            b.ticket,
        ) by {
            if i < b.srcs.len() {
                assert(carries(st, b.srcs[i], b.ticket));
            }
        }
    }
}

proof fn carries_kept(st: StoreView, id: DrawableId, ticket: Ticket, x: DrawableId)
    requires
        carries(st, id, ticket),
    ensures
        carries(st.with_ticket(x, Some(ticket)), id, ticket),
        carries(st.with_ticket(x, Some(ticket)), x, ticket),
{
}

proof fn list_kept(st: StoreView, list: Seq<DrawableId>, ticket: Ticket, x: DrawableId)
    requires
        forall|i: int| 0 <= i < list.len() ==> carries(st, #[trigger] list[i], ticket),
    ensures
        ({
            let l = with_id(list, x);
            let st1 = st.with_ticket(x, Some(ticket));
            forall|i: int| 0 <= i < l.len() ==> carries(st1, #[trigger] l[i], ticket)
        }),
{
    let l = with_id(list, x);
    let st1 = st.with_ticket(x, Some(ticket));
    assert forall|i: int| 0 <= i < l.len() implies carries(st1, #[trigger] l[i], ticket) by {
        if i < list.len() {
            carries_kept(st, list[i], ticket, x);
        }
    }
}

proof fn sampled_carries(
    list: Seq<DrawableId>,
    dst: DrawableId,
    st: StoreView,
    req: &CompositeRequest,
    ticket: Ticket,
)
    requires
        carries(st, dst, ticket),
        forall|i: int| 0 <= i < list.len() ==> carries(st, #[trigger] list[i], ticket),
    ensures
        carries(sampled_store(st, req, ticket), dst, ticket),
        ({
            let l = batch_touched(list, req);
            forall|i: int|
                0 <= i < l.len() ==> carries(
                    sampled_store(st, req, ticket),
                    #[trigger] l[i],
                    ticket,
                )
        }),
{
    let (l1, st1) = match req.src {
        ResolvedSource::Drawable(id) => (with_id(list, id), st.with_ticket(id, Some(ticket))),
        _ => (list, st),
    };
    if let ResolvedSource::Drawable(id) = req.src {
        list_kept(st, list, ticket, id);
    }
    if let ResolvedSource::Drawable(id) = req.mask {
        list_kept(st1, l1, ticket, id);
    }
}

/// A composite that joins or starts a batch has the batch's drawables carry
/// its ticket.
pub proof fn append_carries(
    s: EngineView,
    st: StoreView,
    g: GroupView,
    req: &CompositeRequest,
    p: CompositePlan,
    reply: BatchAppendReply,
)
    requires
        s.render matches Some(b) ==> batch_carries(b, st),
    ensures
        append_engine(s, g, req, p, reply).render matches Some(b) ==> batch_carries(
            b,
            append_store(s, st, g, req, p, reply),
        ),
{
    if let BatchAppendReply::Described { descriptor: Ok(_), begin } = reply {
        match s.render {
            Some(b) => {
                sampled_carries(b.touched, b.key.dst, st, req, b.ticket);
            },
            None => {
                if let BatchReply::Begun { cb, fresh } = begin {
                    let t = g.ticket_or(fresh);
                    sampled_carries(
                        Seq::empty(),
                        req.dst,
                        st.with_layout(req.dst, Layout::ColorAttachment).with_ticket(
                            req.dst,
                            Some(t),
                        ),
                        req,
                        t,
                    );
                }
            },
        }
    }
}

/// Referring to one more drawable has it carry the frame's ticket.
pub proof fn referring_carries(f: FrameView, st: StoreView, id: DrawableId)
    requires
        frame_carries(f, st),
    ensures
        frame_carries(
            f.referring(id, st.layout(id), st.ticket(id)),
            st.with_ticket(id, Some(f.ticket)),
        ),
{
    let f1 = f.referring(id, st.layout(id), st.ticket(id));
    let st1 = st.with_ticket(id, Some(f.ticket));
    assert forall|x: DrawableId| #[trigger] find_touch(f1.touched, x) is Some implies carries(
        st1,
        x,
        f.ticket,
    ) by {
        find_touch_push(f.touched, TouchEntry { id, prior: st.ticket(id) }, x);
        if find_touch(f.touched, x) is Some {
            carries_kept(st, x, f.ticket, id);
        }
    }
}

proof fn same_slots_carry(f: FrameView, a: StoreView, b: StoreView)
    requires
        frame_carries(f, a),
        a.slots == b.slots,
    ensures
        frame_carries(f, b),
{
    assert forall|x: DrawableId| #[trigger] find_touch(f.touched, x) is Some implies carries(
        b,
        x,
        f.ticket,
    ) by {
        assert(carries(a, x, f.ticket));
    }
}

/// A copy recorded into a frame has both drawables carry the frame's ticket.
pub proof fn copy_carries(
    f: FrameView,
    st: StoreView,
    src: DrawableId,
    dst: DrawableId,
    c: CopyGeometry,
    scratch: Option<ScratchImage>,
)
    requires
        frame_carries(f, st),
    ensures
        frame_carries(
            copy_frame(f, st, src, dst, c, scratch),
            copy_store(st, f.ticket, src, dst, c.dst_rect),
        ),
        carries(copy_store(st, f.ticket, src, dst, c.dst_rect), src, f.ticket),
        carries(copy_store(st, f.ticket, src, dst, c.dst_rect), dst, f.ticket),
{
    let f1 = f.referring(dst, st.layout(dst), st.ticket(dst));
    let st1 = st.with_ticket(dst, Some(f.ticket));
    referring_carries(f, st, dst);
    if src != dst {
        assert(st1.ticket(src) == st.ticket(src) && st1.layout(src) == st.layout(src));
        referring_carries(f1, st1, src);
    }
}

proof fn picture_carries(
    s: EngineView,
    st: StoreView,
    source: ResolvedSource,
    is_mask: bool,
    dst: DrawableId,
    repeat: Repeat,
    pict: PictFormat,
    view: Result<(), VkCode>,
)
    requires
        s.frame is Some,
        frame_carries(s.frame->0, st),
    ensures
        ({
            let o = deferred_picture(s, st, source, is_mask, dst, repeat, pict, view);
            o.0.frame is Some && frame_carries(o.0.frame->0, o.1)
        }),
{
    match source {
        ResolvedSource::Drawable(id) => {
            referring_carries(s.frame->0, st, id);
        },
        _ => {},
    }
}

/// A composite recorded into a frame, whatever it comes to, has everything
/// that the frame refers to carry the frame's ticket.
pub proof fn composite_carries(
    s: EngineView,
    st: StoreView,
    g: GroupView,
    req: &CompositeRequest,
    d: Drawable,
    reply: DeferredReply,
)
    requires
        s.frame is Some,
        frame_carries(s.frame->0, st),
    ensures
        ({
            let o = deferred_painted(s, st, g, req, d, reply);
            o.engine.frame is Some && frame_carries(o.engine.frame->0, o.store)
        }),
{
    picture_carries(
        s,
        st,
        req.src,
        false,
        req.dst,
        req.src_repeat,
        req.src_format,
        reply.src_view,
    );
    let a = deferred_picture(
        s,
        st,
        req.src,
        false,
        req.dst,
        req.src_repeat,
        req.src_format,
        reply.src_view,
    );
    picture_carries(
        a.0,
        a.1,
        req.mask,
        true,
        req.dst,
        req.mask_repeat,
        req.mask_format,
        reply.mask_view,
    );
    let b = deferred_picture(
        a.0,
        a.1,
        req.mask,
        true,
        req.dst,
        req.mask_repeat,
        req.mask_format,
        reply.mask_view,
    );
    damage_keeps_drawables(b.1, req.dst, crate::composite::quad_damage(req.rects@, d.extent));
    same_slots_carry(
        b.0.frame->0,
        b.1,
        b.1.damaged(req.dst, crate::composite::quad_damage(req.rects@, d.extent)),
    );
}

/// A command buffer of its own has everything that it refers to carry its
/// ticket.
pub proof fn paint_carries(
    st: StoreView,
    g: GroupView,
    up: UpkeepView,
    cb: u64,
    fresh: Ticket,
    submit: Result<(), VkCode>,
    id: DrawableId,
)
    requires
        up.touches.contains(id),
    ensures
        carries(
            paint_store(
                st,
                g,
                up,
                PaintReply::Recorded { cb, fresh, end: Ok(()), submit },
            ),
            id,
            g.ticket_or(fresh),
        ),
{
    let laid = st.with_layout(up.target, Layout::ShaderReadOnly);
    touched_is_pointwise(laid, up.touches, g.ticket_or(fresh));
    let touched = laid.touched(up.touches, g.ticket_or(fresh));
    damage_keeps_drawables(touched, up.target, up.damage);
    assert(touched.damaged(up.target, up.damage).get(id) == touched.get(id));
}

} // verus!
