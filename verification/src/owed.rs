//! What an operation owes: a device that is ready and a request that has
//! something to paint are painted, what is missing is reported by name, and
//! nothing is painted before what it needs is there.

use vstd::prelude::*;

use crate::batch::direct_decision;
use crate::close::close_event;
use crate::command::GcFunction;
use crate::composite::{composite_plan, mask_resolution, src_resolution};
use crate::copy::copy_decision;
use crate::cow::cow_decision;
use crate::deferred::{deferred_decision, grows_alias, grows_readback, SnapshotFits};
use crate::engine::{Asset, CloseReason, EngineView};
use crate::error::{DrawableId, RenderError};
use crate::fills::{clamping_keeps_cover, some_covers};
use crate::frame::{render_count, FrameView, OpView};
use crate::geometry::{
    clamp_keeps_shared_pixels, clamped_nonempty, clipped_list, copy_keeps_shared_pixels,
    copy_writes, put_rect_keeps_shared_pixels, scissors_cover_clip, Extent, Offset, Rect,
    Rectangle16,
};
use crate::glyphs::glyphs_decision;
use crate::image::{get_decision, put_decision, storage_format};
use crate::paint::{fill_decision, logic_fill_decision, paint_result, Decision, PaintReply};
use crate::picture::{known_op, CompositeRequest, ResolvedSource};
use crate::retire::retired;
use crate::store::{Format, StoreView};
use crate::submit::GroupView;
use crate::text::{glyphs_direct_decision, image_text_decision, text_target};
use crate::traps::{trap_decision, TrapRequest};
use crate::wire::{known_depth, row_stride};

verus! {

/// Whether the device works and no earlier work is open.
pub open spec fn idle(s: EngineView, g: GroupView) -> bool {
    &&& s.live
    &&& s.frame is None
    &&& s.cow is None
    &&& s.render is None
    &&& !g.renderer_failed
    &&& g.has_pool
    &&& g.entries.len() == 0
}

/// Whether everything that composites need is built.
pub open spec fn can_composite(s: EngineView) -> bool {
    &&& s.has(Asset::RenderPipelines)
    &&& s.has(Asset::SolidSrc)
    &&& s.has(Asset::SolidMask)
    &&& s.has(Asset::WhiteMask)
    &&& s.has(Asset::DstReadback)
    &&& s.has(Asset::SrcAliasReadback)
}

/// Whether everything that text needs is built.
pub open spec fn can_write(s: EngineView) -> bool {
    s.has(Asset::GlyphAtlas) && s.has(Asset::TextPipeline)
}

/// Whether everything that trapezoids and triangles need is built.
pub open spec fn can_rasterise(s: EngineView) -> bool {
    can_composite(s) && s.has(Asset::TrapPipeline) && s.has(Asset::MaskScratch)
}

/// A fill that has a pixel to fill, a raster operation fill that has a pixel to
/// change, and text with a glyph, are painted.
pub proof fn fills_and_text_are_owed(
    s: EngineView,
    st: StoreView,
    g: GroupView,
    id: DrawableId,
    rects: Seq<Rect>,
    function: GcFunction,
    rects16: Seq<Rectangle16>,
    n: int,
    glyphs: nat,
    x: int,
    y: int,
)
    requires
        idle(s, g),
        st.get(id) matches Some(d) && d.extent.covers(x, y),
    ensures
        some_covers(rects, x, y) ==> fill_decision(s, st, g, id, rects) is Paint,
        (0 <= n < rects16.len() && rects16[n].covers(x, y) && function != GcFunction::NoOp && s.has(
            Asset::LogicFill(st.get(id)->0.format),
        )) ==> logic_fill_decision(s, st, g, id, function, rects16) is Paint,
        (glyphs > 0 && can_write(s) && st.get(id)->0.format == Format::B8G8R8A8Unorm) ==> {
            &&& image_text_decision(s, st, g, id, glyphs) is Paint
            &&& glyphs_direct_decision(s, st, g, id, glyphs) is Paint
            &&& glyphs_decision(s, st, g, id, glyphs) is Paint
        },
{
    let e = st.get(id)->0.extent;
    clamping_keeps_cover(rects, e, x, y);
    scissors_cover_clip(rects16, e, x, y);
    if some_covers(rects, x, y) {
        let list = clamped_nonempty(rects, e);
        let j = choose|j: int| 0 <= j < list.len() && (#[trigger] list[j]).covers(x, y);
        assert(list.len() > 0);
    }
    if 0 <= n < rects16.len() && rects16[n].covers(x, y) {
        let list = clipped_list(rects16, e);
        assert(exists|i: int| 0 <= i < list.len() && (#[trigger] list[i]).covers(x, y));
        assert(list.len() > 0);
    }
}

/// An upload that reaches a pixel, with all its bytes, is painted, and a readback
/// that holds a pixel is read.
pub proof fn transfers_are_owed(
    s: EngineView,
    st: StoreView,
    g: GroupView,
    id: DrawableId,
    pos: Offset,
    extent: Extent,
    len: nat,
    rect: Rect,
    depth: u8,
    x: int,
    y: int,
)
    requires
        idle(s, g),
        known_depth(depth),
        st.get(id) matches Some(d) && d.extent.covers(x, y),
    ensures
        (st.get(id)->0.format == storage_format(depth) && row_stride(depth, extent.width as int)
            * extent.height <= len && 0 <= x - pos.x < extent.width && 0 <= y - pos.y
            < extent.height) ==> put_decision(s, st, g, id, pos, extent, len, depth) is Paint,
        rect.covers(x, y) ==> get_decision(s, st, g, id, rect, depth) is Paint,
{
    let e = st.get(id)->0.extent;
    put_rect_keeps_shared_pixels(pos, extent, e, x, y);
    clamp_keeps_shared_pixels(rect, e, x, y);
}

/// An upload that is left out, without an error, had no pixel to store, and a
/// readback that is empty, without an error, had no pixel to read.
pub proof fn transfers_left_out_have_no_pixel(
    s: EngineView,
    st: StoreView,
    g: GroupView,
    id: DrawableId,
    pos: Offset,
    extent: Extent,
    len: nat,
    rect: Rect,
    depth: u8,
    x: int,
    y: int,
)
    requires
        st.get(id) matches Some(d) && d.extent.covers(x, y),
    ensures
        put_decision(s, st, g, id, pos, extent, len, depth) matches Decision::Done(Ok(_)) ==> !(0
            <= x - pos.x < extent.width && 0 <= y - pos.y < extent.height),
        get_decision(s, st, g, id, rect, depth) matches Decision::Done(Ok(v)) ==> !rect.covers(
            x,
            y,
        ) && v.len() == 0,
{
    let e = st.get(id)->0.extent;
    put_rect_keeps_shared_pixels(pos, extent, e, x, y);
    clamp_keeps_shared_pixels(rect, e, x, y);
}

/// An upload whose depth does not fit the storage is refused, and so is one that
/// lacks bytes: it is told how many there have to be.
pub proof fn bad_uploads_are_refused(
    s: EngineView,
    st: StoreView,
    g: GroupView,
    id: DrawableId,
    pos: Offset,
    extent: Extent,
    len: nat,
    depth: u8,
)
    requires
        idle(s, g),
        st.has(id),
        !extent.spec_is_empty(),
    ensures
        ({
            let r = put_decision(s, st, g, id, pos, extent, len, depth);
            let fits = known_depth(depth) && st.get(id)->0.format == storage_format(depth);
            let need = row_stride(depth, extent.width as int) * extent.height;
            &&& !fits ==> r == Decision::<(Rect, (u32, u32)), ()>::Done(
                Err(RenderError::UnsupportedDepth(depth)),
            )
            &&& fits && len < need && need <= usize::MAX ==> r == Decision::<
                (Rect, (u32, u32)),
                (),
            >::Done(Err(RenderError::TruncatedSource { expected: need as usize }))
            &&& fits && len >= need ==> !refused(r)
        }),
{
}

/// Whether an operation is over with an error.
pub open spec fn refused<P, R>(d: Decision<P, R>) -> bool {
    d is Done && d->Done_0 is Err
}

/// Whether an operation is over because a drawable is gone.
pub open spec fn misses<P, R>(d: Decision<P, R>, id: DrawableId) -> bool {
    refused(d) && d->Done_0->Err_0 == RenderError::UnknownDrawable(id)
}

/// A copy that has a pixel to write, between drawables of one format, is
/// painted; drawables of different formats are refused.
pub proof fn copies_are_owed(
    s: EngineView,
    st: StoreView,
    g: GroupView,
    src: DrawableId,
    dst: DrawableId,
    rect: Rect,
    pos: Offset,
    x: int,
    y: int,
)
    requires
        idle(s, g),
        st.has(src),
        st.has(dst),
        copy_writes(rect, st.get(src)->0.extent, pos, st.get(dst)->0.extent, x, y),
    ensures
        ({
            let same = st.get(src)->0.format == st.get(dst)->0.format;
            &&& same ==> copy_decision(s, st, g, src, dst, rect, pos) is Paint
            &&& same && src != dst ==> cow_decision(s, st, g, dst, src, rect, pos) is Paint
            &&& !same ==> refused(copy_decision(s, st, g, src, dst, rect, pos))
            &&& !same || src == dst ==> refused(cow_decision(s, st, g, dst, src, rect, pos))
        }),
{
    copy_keeps_shared_pixels(rect, st.get(src)->0.extent, pos, st.get(dst)->0.extent, x, y);
}

/// A composite onto a drawable that can be painted, under an operator that the
/// engine knows, whose pictures can be bound, is painted, in a frame or outside;
/// so are primitives with a box.
pub proof fn composites_are_owed(
    s: EngineView,
    st: StoreView,
    g: GroupView,
    req: &CompositeRequest,
    fits: SnapshotFits,
    traps: &TrapRequest,
)
    requires
        idle(s, g),
    ensures
        ({
            let fine = |id: DrawableId, op: u8|
                st.get(id) matches Some(d) && !d.extent.spec_is_empty() && !(d.format is Other)
                    && known_op(op);
            &&& (can_composite(s) && req.rects@.len() > 0 && fine(req.dst, req.op)
                && src_resolution(s, st, req) is Bound && mask_resolution(s, st, req) is Bound) ==> {
                &&& direct_decision(s, st, g, req) is Paint
                &&& deferred_decision(s, st, g, req, fits) is Paint
            }
            &&& (can_rasterise(s) && traps.count > 0 && !traps.bbox.extent.spec_is_empty() && fine(
                traps.dst,
                traps.op,
            ) && traps.src != ResolvedSource::Drawable(traps.dst)) ==> trap_decision(
                s,
                st,
                g,
                traps,
            ) is Paint
        }),
{
}

/// Whatever is painted, the device works and everything that is needed is
/// built: the pipelines and one pixel images of composites, the atlas and the
/// pipeline of text, the pipelines of a raster operation.
pub proof fn nothing_is_painted_too_early(
    s: EngineView,
    st: StoreView,
    g: GroupView,
    id: DrawableId,
    function: GcFunction,
    rects16: Seq<Rectangle16>,
    glyphs: nat,
    req: &CompositeRequest,
    fits: SnapshotFits,
    traps: &TrapRequest,
)
    ensures
        direct_decision(s, st, g, req) is Paint ==> s.live && !g.renderer_failed && can_composite(
            s,
        ),
        deferred_decision(s, st, g, req, fits) is Paint ==> s.live && !g.renderer_failed
            && can_composite(s),
        trap_decision(s, st, g, traps) is Paint ==> s.live && !g.renderer_failed && can_rasterise(
            s,
        ),
        text_target(s, st, g, id) is Paint ==> s.live && !g.renderer_failed && can_write(s)
            && st.get(id)->0.format == Format::B8G8R8A8Unorm,
        logic_fill_decision(s, st, g, id, function, rects16) is Paint ==> s.live
            && !g.renderer_failed && s.has(Asset::LogicFill(st.get(id)->0.format)) && function
            != GcFunction::NoOp,
{
}

/// A composite joins an open batch only if it has the batch's destination,
/// operator, format and component alpha; any other ends the batch first.
pub proof fn batches_hold_one_kind(
    s: EngineView,
    st: StoreView,
    g: GroupView,
    req: &CompositeRequest,
)
    requires
        s.render is Some,
    ensures
        direct_decision(s, st, g, req) matches Decision::Paint(p) ==> p is Batch,
        direct_decision(s, st, g, req) is Paint ==> {
            let key = s.render->0.key;
            key.dst == req.dst && key.op == req.op && key.dst_format == req.dst_format
                && key.component_alpha == req.component_alpha
        },
{
}

/// A snapshot image is never replaced while the open frame has operations, which
/// may refer to it.
pub proof fn snapshots_in_use_are_kept(
    s: EngineView,
    st: StoreView,
    g: GroupView,
    req: &CompositeRequest,
    fits: SnapshotFits,
)
    requires
        deferred_decision(s, st, g, req, fits) is Paint,
        grows_alias(req, fits) || grows_readback(req, fits),
    ensures
        s.frame matches Some(f) ==> f.ops.len() == 0,
{
}

/// A drawable that is gone is reported by its id, by every operation that names
/// it.
pub proof fn missing_drawables_are_reported(
    s: EngineView,
    st: StoreView,
    g: GroupView,
    id: DrawableId,
    other: DrawableId,
    rects: Seq<Rect>,
    pos: Offset,
    extent: Extent,
    len: nat,
    rect: Rect,
    depth: u8,
    glyphs: nat,
    req: &CompositeRequest,
    fits: SnapshotFits,
    traps: &TrapRequest,
)
    requires
        idle(s, g),
        can_rasterise(s),
        !st.has(id),
        st.has(other),
        req.dst == id,
        traps.dst == id,
        glyphs > 0,
        !extent.spec_is_empty(),
        !rect.extent.spec_is_empty(),
        req.rects@.len() > 0,
        traps.count > 0,
        !traps.bbox.extent.spec_is_empty(),
    ensures
        ({
            &&& misses(fill_decision(s, st, g, id, rects), id)
            &&& misses(put_decision(s, st, g, id, pos, extent, len, depth), id)
            &&& misses(get_decision(s, st, g, id, rect, depth), id)
            &&& misses(copy_decision(s, st, g, id, other, rect, pos), id)
            &&& misses(copy_decision(s, st, g, other, id, rect, pos), id)
            &&& misses(cow_decision(s, st, g, id, other, rect, pos), id)
            &&& misses(cow_decision(s, st, g, other, id, rect, pos), id)
            &&& misses(image_text_decision(s, st, g, id, glyphs), id)
            &&& misses(glyphs_decision(s, st, g, id, glyphs), id)
            &&& misses(direct_decision(s, st, g, req), id)
            &&& misses(deferred_decision(s, st, g, req, fits), id)
            &&& misses(trap_decision(s, st, g, traps), id)
        }),
{
}

/// A picture whose drawable is gone is reported by its id.
pub proof fn missing_pictures_are_reported(
    s: EngineView,
    st: StoreView,
    req: &CompositeRequest,
    id: DrawableId,
)
    requires
        st.has(req.dst),
        !st.has(id),
        req.src == ResolvedSource::Drawable(id) || (src_resolution(s, st, req) is Bound && req.mask
            == ResolvedSource::Drawable(id)),
    ensures
        composite_plan(s, st, req, st.get(req.dst)->0) matches Err(e) && e
            == RenderError::UnknownDrawable(id),
{
}

/// A command buffer of its own succeeds exactly if it could be begun and
/// recorded, and the queue took it where the group was full; otherwise the
/// device's first error is passed on.
pub proof fn device_errors_are_passed_on(g: GroupView, reply: PaintReply)
    ensures
        match reply {
            PaintReply::Failed(e) => paint_result(g, reply) == Err::<(), RenderError>(e),
            PaintReply::Recorded { end: Err(e), .. } => paint_result(g, reply) == Err::<
                (),
                RenderError,
            >(RenderError::Vk(e)),
            PaintReply::Recorded { end: Ok(_), submit, .. } => {
                let full = g.entries.len() + 1 >= g.max_size;
                paint_result(g, reply) == if full && submit is Err {
                    Err::<(), RenderError>(RenderError::Vk(submit->Err_0))
                } else {
                    Ok(())
                }
            },
        },
{
}

/// An object that is retired while any work is recorded or submitted is not
/// free to go, and one that a submitted command buffer keeps is not freed before
/// every command buffer that is submitted now.
pub proof fn retired_objects_wait(s: EngineView, x: u64, n: int, m: int)
    requires
        s.frame is Some || s.submitted.len() > 0 || s.parked.len() > 0,
        0 <= n < s.submitted.len(),
        0 <= m <= s.frames.len(),
    ensures
        s.adopting(Some(x)).released == s.released,
        retired(s.adopting(Some(x)), n, m).released == retired(s, n, m).released,
{
    let t = s.adopting(Some(x));
    if s.frame is None {
        assert(t.submitted.take(n) =~= s.submitted.take(n));
    }
}

/// A retired object waits as long as any work is recorded or submitted.
pub proof fn retired_objects_wait_for_recorded_work(s: EngineView, x: u64)
    ensures
        (s.frame is Some || s.submitted.len() > 0 || s.parked.len() > 0) <==> s.adopting(
            Some(x),
        ).released == s.released,
        s.frame is Some ==> s.adopting(Some(x)).frame->0.retired == s.frame->0.retired.push(x),
{
    if !(s.frame is Some || s.submitted.len() > 0 || s.parked.len() > 0) {
        assert(s.adopting(Some(x)).released.len() == s.released.len() + 1);
    }
}

/// What is noted of a frame is what it held: its operations, its composites, its
/// pins, and whether it came to nothing.
pub proof fn close_events_tell_the_frame(f: FrameView, reason: CloseReason, aborted: bool)
    requires
        f.ops.len() <= u32::MAX,
        f.pins.len() <= u32::MAX,
    ensures
        ({
            let e = close_event(f, reason, aborted);
            &&& e.reason == reason
            &&& e.aborted == aborted
            &&& e.ops_in_frame == f.ops.len()
            &&& e.pin_count == f.pins.len()
            &&& e.glyph_uploads_in_frame == f.glyph_uploads_in_frame
            &&& e.renders_in_frame == f.ops.filter(|op: OpView| op is RenderComposite).len()
        }),
{
    renders_are_counted(f.ops);
}

proof fn renders_are_counted(ops: Seq<OpView>)
    ensures
        render_count(ops) == ops.filter(|op: OpView| op is RenderComposite).len(),
        render_count(ops) <= ops.len(),
    decreases ops.len(),
{
    reveal(Seq::filter);
    if ops.len() > 0 {
        renders_are_counted(ops.drop_last());
    }
}

} // verus!
