//! What the engine declines.

use vstd::prelude::*;

use crate::batch::{direct_decision, DirectPlan};
use crate::close::{close_group, events_with, CloseReply};
use crate::command::GcFunction;
use crate::copy::copy_decision;
use crate::cow::{cow_decision, cow_flush_group, CowFlushReply};
use crate::deferred::{deferred_decision, SnapshotFits};
use crate::batch::{render_flush_group, RenderFlushReply};
use crate::engine::{EngineView, FrameCloseEvent, MAX_CLOSE_EVENTS};
use crate::error::{DrawableId, RenderError, VkCode};
use crate::geometry::{clamped, clamped_nonempty, Extent, Offset, Rect, Rectangle16};
use crate::glyphs::glyphs_decision;
use crate::image::{get_decision, get_group, put_decision, GetReply};
use crate::paint::{fill_decision, logic_fill_decision, paint_group, Decision, PaintReply};
use crate::picture::CompositeRequest;
use crate::store::StoreView;
use crate::submit::GroupView;
use crate::text::{glyphs_direct_decision, image_text_decision};
use crate::traps::{trap_decision, TrapRequest};

verus! {

/// An engine without a device declines every operation that has something to
/// do.
pub proof fn stub_declines(
    st: StoreView,
    g: GroupView,
    id: DrawableId,
    other: DrawableId,
    rects: Seq<Rect>,
    function: GcFunction,
    rects16: Seq<Rectangle16>,
    pos: Offset,
    extent: Extent,
    len: nat,
    rect: Rect,
    depth: u8,
    glyphs: nat,
    req: &CompositeRequest,
    fits: SnapshotFits,
    traps: &TrapRequest,
)
    requires
        g.entries.len() == 0,
        !g.renderer_failed,
    ensures
        ({
            let s = EngineView::initial(false, false);
            &&& fill_decision(s, st, g, id, rects) == Decision::<Seq<Rect>, ()>::Done(
                Err(RenderError::NoVk),
            )
            &&& (rects16.len() > 0 && function != GcFunction::NoOp && st.has(id)
                ==> logic_fill_decision(s, st, g, id, function, rects16) == Decision::<
                Seq<Rect>,
                (),
            >::Done(Err(RenderError::NoVk)))
            &&& (!rect.extent.spec_is_empty() ==> copy_decision(s, st, g, id, other, rect, pos)
                == Decision::<crate::copy::CopyGeometry, ()>::Done(Err(RenderError::NoVk)))
            &&& (!rect.extent.spec_is_empty() ==> cow_decision(s, st, g, id, other, rect, pos)
                == Decision::<crate::copy::CopyGeometry, ()>::Done(Err(RenderError::NoVk)))
            &&& (!extent.spec_is_empty() ==> put_decision(s, st, g, id, pos, extent, len, depth)
                == Decision::<(Rect, (u32, u32)), ()>::Done(Err(RenderError::NoVk)))
            &&& get_decision(s, st, g, id, rect, depth) == Decision::<Rect, Seq<u8>>::Done(
                Err(RenderError::NoVk),
            )
            &&& (glyphs > 0 ==> image_text_decision(s, st, g, id, glyphs) == Decision::<
                crate::store::Drawable,
                crate::text::ImageTextStats,
            >::Done(Err(RenderError::NoVk)))
            &&& (glyphs > 0 ==> glyphs_direct_decision(s, st, g, id, glyphs) == Decision::<
                crate::store::Drawable,
                crate::text::ImageTextStats,
            >::Done(Err(RenderError::NoVk)))
            &&& (req.rects@.len() > 0 ==> direct_decision(s, st, g, req) == Decision::<
                DirectPlan,
                crate::composite::CompositeStats,
            >::Done(Err(RenderError::NoVk)))
            &&& (req.rects@.len() > 0 ==> deferred_decision(s, st, g, req, fits) == Decision::<
                crate::store::Drawable,
                crate::composite::CompositeStats,
            >::Done(Err(RenderError::NoVk)))
            &&& (traps.count > 0 && !traps.bbox.extent.spec_is_empty() ==> trap_decision(
                s,
                st,
                g,
                traps,
            ) == Decision::<
                crate::store::Drawable,
                crate::composite::CompositeStats,
            >::Done(Err(RenderError::NoVk)))
        }),
{
}

/// Once the renderer has failed, nothing is painted any more.
pub proof fn failed_renderer_paints_nothing(
    s: EngineView,
    st: StoreView,
    g: GroupView,
    id: DrawableId,
    other: DrawableId,
    rects: Seq<Rect>,
    function: GcFunction,
    rects16: Seq<Rectangle16>,
    pos: Offset,
    extent: Extent,
    len: nat,
    rect: Rect,
    depth: u8,
    glyphs: nat,
    req: &CompositeRequest,
    fits: SnapshotFits,
    traps: &TrapRequest,
)
    requires
        g.renderer_failed,
    ensures
        !(fill_decision(s, st, g, id, rects) is Paint),
        !(logic_fill_decision(s, st, g, id, function, rects16) is Paint),
        !(copy_decision(s, st, g, id, other, rect, pos) is Paint),
        !(cow_decision(s, st, g, id, other, rect, pos) is Paint),
        !(put_decision(s, st, g, id, pos, extent, len, depth) is Paint),
        !(get_decision(s, st, g, id, rect, depth) is Paint),
        !(image_text_decision(s, st, g, id, glyphs) is Paint),
        !(glyphs_direct_decision(s, st, g, id, glyphs) is Paint),
        !(glyphs_decision(s, st, g, id, glyphs) is Paint),
        !(direct_decision(s, st, g, req) is Paint),
        !(deferred_decision(s, st, g, req, fits) is Paint),
        !(trap_decision(s, st, g, traps) is Paint),
{
}

/// A renderer that has failed stays so.
pub proof fn renderer_failure_is_final(
    s: EngineView,
    st: StoreView,
    g: GroupView,
    paint: PaintReply,
    cow: CowFlushReply,
    render: RenderFlushReply,
    close: CloseReply,
    get: GetReply,
    submit: Result<(), VkCode>,
)
    requires
        g.renderer_failed,
    ensures
        g.flushed(submit).renderer_failed,
        paint_group(g, paint).renderer_failed,
        cow_flush_group(s, st, g, cow).renderer_failed,
        render_flush_group(s, st, g, render).renderer_failed,
        close_group(s, st, g, close).renderer_failed,
        get_group(g, get).renderer_failed,
{
}

/// Close events never pile up beyond their limit.
pub proof fn close_events_are_bounded(list: Seq<FrameCloseEvent>, e: FrameCloseEvent)
    requires
        list.len() <= MAX_CLOSE_EVENTS,
    ensures
        events_with(list, e).len() <= MAX_CLOSE_EVENTS,
{
}

/// A fill damages only pixels of its target, and every one that some
/// rectangle covers.
pub proof fn fill_damage_is_exact(rects: Seq<Rect>, extent: Extent, px: int, py: int)
    ensures
        (exists|i: int|
            0 <= i < clamped_nonempty(rects, extent).len() && (#[trigger] clamped_nonempty(
                rects,
                extent,
            )[i]).covers(px, py)) <==> (extent.covers(px, py) && exists|j: int|
            0 <= j < rects.len() && (#[trigger] rects[j]).covers(px, py)),
    decreases rects.len(),
{
    if rects.len() > 0 {
        let head = rects.drop_last();
        let list = clamped_nonempty(rects, extent);
        let hlist = clamped_nonempty(head, extent);
        let c = clamped(rects.last(), extent);
        fill_damage_is_exact(head, extent, px, py);
        crate::geometry::clamp_keeps_shared_pixels(rects.last(), extent, px, py);
        if exists|i: int| 0 <= i < list.len() && (#[trigger] list[i]).covers(px, py) {
            let i = choose|i: int| 0 <= i < list.len() && (#[trigger] list[i]).covers(px, py);
            if i < hlist.len() {
                assert(hlist[i].covers(px, py));
                let j = choose|j: int| 0 <= j < head.len() && (#[trigger] head[j]).covers(px, py);
                assert(rects[j].covers(px, py));
            } else {
                assert(rects[rects.len() - 1].covers(px, py));
            }
        }
        if extent.covers(px, py) && exists|j: int|
            0 <= j < rects.len() && (#[trigger] rects[j]).covers(px, py) {
            let j = choose|j: int| 0 <= j < rects.len() && (#[trigger] rects[j]).covers(px, py);
            if j < head.len() {
                assert(head[j].covers(px, py));
                let i = choose|i: int| 0 <= i < hlist.len() && (#[trigger] hlist[i]).covers(px, py);
                assert(list[i].covers(px, py));
            } else {
                assert(c.covers(px, py));
                assert(list[list.len() - 1].covers(px, py));
            }
        }
    }
}

} // verus!
