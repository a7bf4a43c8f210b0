//! How operations end: which error is reported, and which ticket everything that
//! was used carries.

use vstd::prelude::*;

use crate::access::old_layouts;
use crate::batch::{append_engine, append_group, append_result, append_store, BatchAppendReply};
use crate::close::{
    close_engine, close_group, close_result, close_store, events_with, frame_parked, CloseReply,
};
use crate::command::{composite_preparation, Color, Command, PipelineKey, Rgba8};
use crate::composite::{
    bound_plan, composite_target, composite_touches, own_upkeep, plan_setup, CompositePlan,
};
use crate::compositing::{asked_pixel, over_clip, request_touch};
use crate::copy::usable_ticket;
use crate::deferred::{deferred_outcome, DeferredReply, SnapshotFits};
use crate::device::{reads_snapshot, stored, white, Device, Shading};
use crate::dispatch::fill_composite;
use crate::engine::{
    staging_release, CloseReason, EngineView, FrameCloseEvent, Release, Staging, SubmittedView,
    MAX_CLOSE_EVENTS,
};
use crate::error::{DrawableId, RenderError, VkCode, VK_ERROR_OUT_OF_DEVICE_MEMORY};
use crate::frame::{
    find_glyph, frame_commands, render_count, rolled_back, scratches, AtlasEntry, FrameView,
    GlyphKey, OpView,
};
use crate::geometry::{scissors_of, Rect, Rectangle16};
use crate::glyphs::{
    frame_glyph_outcome, frame_uploading, frame_with_uploads, missing, missing_keys, FrameRunView,
    GlyphNeed, NewUpload, PackReply,
};
use crate::image::{get_engine, get_store, GetReply};
use crate::paint::{paint_parked, simple_upkeep};
use crate::picture::{known_op, Binding, CompositeRect, CompositeRequest, Gradient, ResolvedSource};
use crate::retire::{gradient_error, op_releases, GradientError};
use crate::store::{Drawable, Format, Layout, StoreView, Ticket};
use crate::submit::GroupView;
use crate::text::{text_upkeep, uploaded, GlyphImage, RunView, UploadReply};
use crate::touch::carries;
use crate::traps::{trap_commands, trap_upkeep, MaskImage, TrapRequest};

verus! {

/// A drawable that was read carries the ticket of the command buffer that read
/// it, which is the last one that waits.
pub proof fn reading_marks_its_source(
    s: EngineView,
    st: StoreView,
    g: GroupView,
    src: DrawableId,
    reply: GetReply,
)
    requires
        st.has(src),
        reply matches GetReply::Recorded { end: Ok(_), .. },
    ensures
        carries(get_store(st, g, src, reply), src, g.ticket_or(reply->fresh)),
        (reply->Recorded_submit is Ok && reply->wait is Ok) ==> get_engine(
            s,
            g,
            reply,
        ).submitted.last().ticket == g.ticket_or(reply->fresh),
{
}

/// Text that is drawn after an upload remembers the upload's ticket, and finds
/// the atlas ready to be sampled.
pub proof fn text_remembers_the_last_upload(
    s: EngineView,
    g: GroupView,
    run: RunView,
    glyph: &GlyphImage,
    entry: AtlasEntry,
    staging: Staging,
    cb: u64,
    fresh: Ticket,
    target: DrawableId,
    damage: Seq<Rect>,
    later: GroupView,
    text_cb: u64,
    text_fresh: Ticket,
)
    requires
        glyph.spec_complete(),
    ensures
        ({
            let reply = UploadReply::Staged { staging, cb: Ok(cb), fresh, end: Ok(()) };
            let s1 = uploaded(s, g, run, glyph, entry, reply).engine;
            let up = text_upkeep(s1, target, damage);
            &&& paint_parked(s1, later, up, text_cb, text_fresh).atlas_ticket == Some(
                g.ticket_or(fresh),
            )
            &&& s1.atlas.layout == Layout::ShaderReadOnly
            &&& s1.parked.last().ticket == g.ticket_or(fresh)
            &&& s1.parked.last().cb == cb
            &&& s1.parked.last().staging == Some(staging)
        }),
{
}

/// A frame gets the ticket of the open group, or a new one where no group is
/// open; it is not opened without one.
pub proof fn frames_need_a_ticket(s: EngineView, g: GroupView, fresh: Result<Ticket, VkCode>)
    ensures
        s.frame is None && g.ticket is None ==> match fresh {
            Ok(t) => usable_ticket(s, g, fresh) == Ok::<Ticket, RenderError>(t) && s.frame_opened(
                g,
                t,
            ).frame->0.ticket == t && s.frame_group(g, t).ticket == Some(t),
            Err(e) => usable_ticket(s, g, fresh) == Err::<Ticket, RenderError>(RenderError::Vk(e)),
        },
        s.frame is None && g.ticket is Some ==> usable_ticket(s, g, fresh) is Ok && s.frame_opened(
            g,
            usable_ticket(s, g, fresh)->Ok_0,
        ).frame->0.ticket == g.ticket->0 && s.frame_group(g, usable_ticket(s, g, fresh)->Ok_0) == g,
        s.frame is Some ==> usable_ticket(s, g, fresh) is Ok && s.frame_opened(
            g,
            usable_ticket(s, g, fresh)->Ok_0,
        ) == s && s.frame_group(g, usable_ticket(s, g, fresh)->Ok_0) == g,
{
}

/// A gradient that cannot be built is reported as the device error behind it.
pub proof fn gradient_errors_are_device_errors(e: GradientError)
    ensures
        gradient_error(e) matches RenderError::Vk(c) && match e {
            GradientError::Vk(inner) => c == inner,
            GradientError::NoMemoryType => c == VK_ERROR_OUT_OF_DEVICE_MEMORY,
        },
{
}

/// Closing a frame fails exactly if one of its steps fails, with the error of
/// the first that does; then the drawables are rolled back and nothing of the
/// frame counts as submitted.
pub proof fn failed_closes_report_their_first_error(
    s: EngineView,
    st: StoreView,
    g: GroupView,
    reason: CloseReason,
    reply: CloseReply,
)
    requires
        s.frame is Some,
        s.live,
    ensures
        ({
            let f = s.frame->0;
            let r = close_result(s, st, reason, reply);
            let cmds = frame_commands(st, s.text_ready(), f.ops);
            &&& r is Ok <==> reply.begin is Ok && cmds is Ok && reply.record is Ok && reply.end
                is Ok && reply.submit is Ok
            &&& reply.begin is Err ==> r->Err_0 == reply.begin->Err_0
            &&& reply.begin is Ok && cmds is Err ==> r->Err_0 == cmds->Err_0
            &&& reply.begin is Ok && cmds is Ok && reply.record is Err ==> r->Err_0
                == reply.record->Err_0
            &&& reply.begin is Ok && cmds is Ok && reply.record is Ok && reply.end is Err
                ==> r->Err_0 == RenderError::Vk(reply.end->Err_0)
            &&& reply.begin is Ok && cmds is Ok && reply.record is Ok && reply.end is Ok
                && reply.submit is Err ==> r->Err_0 == RenderError::Vk(reply.submit->Err_0)
            &&& close_engine(s, st, g, reason, reply).frame is None
            &&& reply.begin is Err ==> close_group(s, st, g, reply) == g
            &&& reply.begin is Ok && r is Err ==> close_group(s, st, g, reply).renderer_failed
            &&& r is Ok ==> close_group(s, st, g, reply).renderer_failed == g.renderer_failed
            &&& r is Err ==> close_store(s, st, reply) == rolled_back(st, f) && close_engine(
                s,
                st,
                g,
                reason,
                reply,
            ).frames == s.frames && close_engine(s, st, g, reason, reply).frame_seq == s.frame_seq
        }),
{
}

/// The layouts that are shown of an open frame are those that its composites
/// were recorded with, in their order.
pub proof fn shown_layouts_are_those_recorded(ops: Seq<OpView>, i: int)
    ensures
        old_layouts(ops).len() == render_count(ops),
        0 <= i < ops.len() ==> (ops[i] matches OpView::RenderComposite { setup, .. } ==> {
            let k = render_count(ops.take(i)) as int;
            k < old_layouts(ops).len() && old_layouts(ops)[k] == setup.old_layout
        }),
    decreases ops.len(),
{
    if ops.len() > 0 {
        let head = ops.drop_last();
        shown_layouts_are_those_recorded(head, i);
        if 0 <= i < head.len() {
            assert(head.take(i) =~= ops.take(i));
        } else if i == head.len() {
            assert(ops.take(i) =~= head);
        }
    }
}

/// A snapshot image that is large enough is not replaced: what growing it would
/// have given does not matter.
pub proof fn fitting_snapshots_stay(
    s: EngineView,
    st: StoreView,
    g: GroupView,
    req: &CompositeRequest,
    d: Drawable,
    fits: SnapshotFits,
    a: DeferredReply,
    b: DeferredReply,
)
    requires
        fits.alias || a.alias_grow == b.alias_grow,
        fits.readback || a.readback_grow == b.readback_grow,
        a == (DeferredReply { alias_grow: a.alias_grow, readback_grow: a.readback_grow, ..b }),
    ensures
        deferred_outcome(s, st, g, req, d, fits, a) == deferred_outcome(s, st, g, req, d, fits, b),
{
}

/// A command buffer of its own counts as using its target and every drawable
/// that it samples.
pub proof fn own_buffers_name_what_they_use(
    s: EngineView,
    d: Drawable,
    req: &CompositeRequest,
    p: CompositePlan,
    traps: &TrapRequest,
    staging: Option<Staging>,
    vertices: Staging,
    target: DrawableId,
    damage: Seq<Rect>,
)
    ensures
        simple_upkeep(target, damage, staging).touches.contains(target),
        text_upkeep(s, target, damage).touches.contains(target),
        own_upkeep(s, req, p).touches.contains(req.dst),
        req.src matches ResolvedSource::Drawable(id) ==> own_upkeep(s, req, p).touches.contains(id),
        req.mask matches ResolvedSource::Drawable(id) ==> own_upkeep(s, req, p).touches.contains(
            id,
        ),
        trap_upkeep(s, traps, d, vertices).touches.contains(traps.dst),
        traps.src matches ResolvedSource::Drawable(id) ==> trap_upkeep(
            s,
            traps,
            d,
            vertices,
        ).touches.contains(id),
{
    assert(seq![target][0] == target);
    let list = composite_touches(req);
    assert(list.last() == req.dst);
    assert(list.contains(req.dst));
    if let ResolvedSource::Drawable(id) = req.src {
        assert(list[0] == id);
    }
    if let ResolvedSource::Drawable(id) = req.mask {
        assert(list[list.len() - 2] == id);
    }
    let used = trap_upkeep(s, traps, d, vertices).touches;
    assert(used.last() == traps.dst);
    assert(used.contains(traps.dst));
    if let ResolvedSource::Drawable(id) = traps.src {
        assert(used[0] == id);
    }
}

/// Filling rectangles blends the colour with every pixel under them, under each
/// clip rectangle, as if there were no mask.
pub proof fn filled_rectangles_show_the_colour(
    sh: Shading,
    dev: Device,
    st: StoreView,
    gradients: Seq<Gradient>,
    op: u8,
    color: Color,
    dst: DrawableId,
    rects: Vec<CompositeRect>,
    clip: Option<Vec<Rectangle16>>,
    x: int,
    y: int,
)
    requires
        st.has(dst),
    ensures
        ({
            let d = st.get(dst)->0;
            let before = (dev.images[d.image])(x, y);
            let key = PipelineKey {
                op,
                format: d.format,
                dst_has_alpha: d.format == Format::R8Unorm || d.depth == 32,
                component_alpha: false,
            };
            asked_pixel(
                sh,
                dev,
                st,
                gradients,
                &fill_composite(op, color, dst, rects, clip),
                x,
                y,
            ) == over_clip(
                |q: CompositeRect, old: Rgba8|
                    (sh.blend)(
                        key,
                        stored(sh, color),
                        white(),
                        if reads_snapshot(op) {
                            before
                        } else {
                            old
                        },
                    ),
                rects@,
                clip,
                x,
                y,
                before,
            )
        }),
{
    let d = st.get(dst)->0;
    let before = (dev.images[d.image])(x, y);
    let key = PipelineKey {
        op,
        format: d.format,
        dst_has_alpha: d.format == Format::R8Unorm || d.depth == 32,
        component_alpha: false,
    };
    let req = fill_composite(op, color, dst, rects, clip);
    assert(request_touch(sh, dev, st, gradients, &req, d, x, y) =~= (|
        q: CompositeRect,
        old: Rgba8,
    |
        (sh.blend)(
            key,
            stored(sh, color),
            white(),
            if reads_snapshot(op) {
                before
            } else {
                old
            },
        )));
}

/// The glyphs that a run has to upload are those that neither the atlas nor the
/// frame holds, each once.
pub proof fn missing_glyphs_are_counted_once(
    s: EngineView,
    f: FrameView,
    glyphs: Seq<GlyphImage>,
    key: GlyphKey,
)
    ensures
        missing_keys(s, f, glyphs).no_duplicates(),
        missing_keys(s, f, glyphs).contains(key) <==> exists|i: int|
            0 <= i < glyphs.len() && (#[trigger] glyphs[i]).key == key && missing(
                s,
                f,
                &glyphs[i],
            ),
    decreases glyphs.len(),
{
    if glyphs.len() > 0 {
        let head = glyphs.drop_last();
        let last = glyphs.last();
        let before = missing_keys(s, f, head);
        let after = missing_keys(s, f, glyphs);
        missing_glyphs_are_counted_once(s, f, head, key);
        missing_glyphs_are_counted_once(s, f, head, last.key);
        assert(glyphs[glyphs.len() - 1] == last);
        if after != before {
            assert(after =~= before.push(last.key));
            assert(after[before.len() as int] == last.key);
            if before.contains(key) {
                let j = choose|j: int| 0 <= j < before.len() && before[j] == key;
                assert(after[j] == key);
            }
        }
        if exists|i: int|
            0 <= i < head.len() && (#[trigger] head[i]).key == key && missing(s, f, &head[i]) {
            let i = choose|i: int|
                0 <= i < head.len() && (#[trigger] head[i]).key == key && missing(s, f, &head[i]);
            assert(glyphs[i] == head[i]);
        }
        if exists|i: int|
            0 <= i < glyphs.len() && (#[trigger] glyphs[i]).key == key && missing(
                s,
                f,
                &glyphs[i],
            ) {
            let i = choose|i: int|
                0 <= i < glyphs.len() && (#[trigger] glyphs[i]).key == key && missing(
                    s,
                    f,
                    &glyphs[i],
                );
            if i < head.len() {
                assert(head[i] == glyphs[i]);
            }
        }
    }
}

/// A glyph's pixels are all there exactly if every position inside it has one.
pub proof fn complete_glyphs_have_every_pixel(glyph: &GlyphImage)
    requires
        glyph.w > 0,
        glyph.h > 0,
    ensures
        glyph.spec_complete() <==> forall|x: int, y: int|
            0 <= x < glyph.w && 0 <= y < glyph.h ==> #[trigger] pixel_index(glyph, x, y)
                < glyph.pixels@.len(),
{
    let w = glyph.w as int;
    let h = glyph.h as int;
    if glyph.spec_complete() {
        assert forall|x: int, y: int| 0 <= x < w && 0 <= y < h implies #[trigger] pixel_index(
            glyph,
            x,
            y,
        ) < glyph.pixels@.len() by {
            assert(y * w + x < w * h) by (nonlinear_arith)
                requires
                    0 <= x < w,
                    0 <= y < h,
            ;
        }
    } else {
        assert((h - 1) * w + (w - 1) == w * h - 1) by (nonlinear_arith);
        assert(pixel_index(glyph, w - 1, h - 1) >= glyph.pixels@.len());
    }
}

/// Where the pixel at a position of a glyph stands among its pixels.
pub open spec fn pixel_index(glyph: &GlyphImage, x: int, y: int) -> int {
    y * glyph.w + x
}

/// A frame remembers a glyph without pixels, so that it is not looked at again.
pub proof fn empty_glyphs_are_remembered(
    f: FrameView,
    run: FrameRunView,
    glyph: &GlyphImage,
    reply: PackReply,
)
    ensures
        find_glyph(
            frame_with_uploads(
                f,
                frame_glyph_outcome(GlyphNeed::Empty, run, glyph, reply),
            ).pending_glyph_inserts,
            glyph.key,
        ) matches Some(e) && e.w == 0 && e.h == 0,
{
    let after = frame_glyph_outcome(GlyphNeed::Empty, run, glyph, reply);
    let list = frame_with_uploads(f, after).pending_glyph_inserts;
    assert(list.last() == after.zero_inserts.last());
}

/// A composite has a target exactly if its operator is known and its drawable
/// exists, has pixels and has a format that can be drawn to.
pub proof fn composites_have_a_target(st: StoreView, dst: DrawableId, op: u8, d: Drawable)
    ensures
        composite_target(st, dst, op) == Ok::<Option<Drawable>, RenderError>(Some(d)) <==> (st.get(
            dst,
        ) == Some(d) && d.extent.covers(0, 0) && (d.format == Format::R8Unorm || d.format
            == Format::B8G8R8A8Unorm) && known_op(op)),
        composite_target(st, dst, op) is Err <==> st.get(dst) is None,
{
}

/// Every closed frame is told, up to the limit on untaken events.
pub proof fn closes_are_told(list: Seq<FrameCloseEvent>, e: FrameCloseEvent)
    ensures
        list.len() < MAX_CLOSE_EVENTS ==> events_with(list, e).len() == list.len() + 1
            && events_with(list, e).last() == e && events_with(list, e).drop_last() == list,
        list.len() >= MAX_CLOSE_EVENTS ==> events_with(list, e) == list,
{
    assert(list.push(e).drop_last() =~= list);
}

/// A submitted frame waits under its own ticket, with its command buffer, its
/// tag and the scratch images of its copies.
pub proof fn submitted_frames_wait_for_their_ticket(
    s: EngineView,
    st: StoreView,
    g: GroupView,
    reason: CloseReason,
    reply: CloseReply,
)
    requires
        s.frame is Some,
        s.live,
        close_result(s, st, reason, reply) is Ok,
    ensures
        ({
            let f = s.frame->0;
            let after = close_engine(s, st, g, reason, reply);
            &&& after.submitted.last().ticket == f.ticket
            &&& after.submitted.last().cb == reply.begin->Ok_0
            &&& after.submitted.last().generation == f.generation
            &&& after.submitted.last().scratch == scratches(f.ops)
            &&& after.frames.last().ticket == f.ticket
            &&& after.frames.last().pins == f.pins
            &&& after.frames.last().retired == f.retired
            &&& after.parked.len() == 0
        }),
{
    let f = s.frame->0;
    let cb = reply.begin->Ok_0;
    let parked = s.parking(frame_parked(f, cb));
    let all = parked.submitted + parked.parked;
    assert(all.last() == parked.parked.last());
    assert(parked.parked.last() == frame_parked(f, cb));
}

/// Every upload into a frame is counted in it.
pub proof fn frame_uploads_are_counted(f: FrameView, list: Seq<NewUpload>)
    requires
        f.glyph_uploads_in_frame + list.len() <= u32::MAX,
    ensures
        frame_uploading(f, list).glyph_uploads_in_frame == f.glyph_uploads_in_frame + list.len(),
        frame_uploading(f, list).pins.len() == f.pins.len() + list.len(),
        frame_uploading(f, list).ops.len() == f.ops.len() + list.len(),
    decreases list.len(),
{
    if list.len() > 0 {
        frame_uploads_are_counted(f, list.drop_last());
    }
}

/// A request that its clip hides counts as deferred, with no draws, and leaves
/// everything as it is.
pub proof fn hidden_requests_change_nothing(
    s: EngineView,
    st: StoreView,
    g: GroupView,
    req: &CompositeRequest,
    p: CompositePlan,
    reply: BatchAppendReply,
)
    requires
        scissors_of(req.clip, p.dst.extent).len() == 0,
        reply is Described,
    ensures
        append_result(s, g, req, p, reply) matches Ok(stats) && stats.deferred_to_batch
            && stats.recorded_draws == 0 && !stats.used_dst_readback
            && !stats.used_src_alias_scratch,
        append_engine(s, g, req, p, reply) == s,
        append_store(s, st, g, req, p, reply) == st,
        append_group(s, g, req, p, reply) == g,
{
}

/// Retiring a command buffer hands back the buffer itself, the descriptors of
/// its tag, its staging buffer, and all its scratch images and objects.
pub proof fn retired_buffers_hand_everything_back(op: SubmittedView, i: int)
    ensures
        op_releases(op).contains(Release::CommandBuffer(op.cb)),
        op_releases(op).contains(Release::Descriptors(op.generation)),
        op.staging matches Some(x) ==> op_releases(op).contains(Release::Staging(x.buffer)),
        0 <= i < op.scratch.len() ==> op_releases(op).contains(
            Release::Scratch(op.scratch[i].image),
        ),
        0 <= i < op.retired.len() ==> op_releases(op).contains(Release::Object(op.retired[i])),
        op_releases(op).len() == 2 + op.scratch.len() + op.retired.len() + if op.staging is Some {
            1int
        } else {
            0
        },
{
    let list = op_releases(op);
    let n = staging_release(op.staging).len() as int;
    let m = op.retired.len() as int;
    assert(list[0] == Release::CommandBuffer(op.cb));
    assert(list[1 + n + m] == Release::Descriptors(op.generation));
    if let Some(x) = op.staging {
        assert(list[1] == Release::Staging(x.buffer));
    }
    if 0 <= i < op.scratch.len() {
        assert(list[2 + n + m + i] == Release::Scratch(op.scratch[i].image));
    }
    if 0 <= i < op.retired.len() {
        assert(list[1 + n + i] == Release::Object(op.retired[i]));
    }
}

/// Whether a command, if it takes a snapshot, takes the whole of a drawable, in
/// its format and from the layout that it is in.
pub open spec fn snaps(c: Command, d: Drawable, current: Layout) -> bool {
    c matches Command::Snapshot { image, layout, format, extent, .. } ==> {
        &&& image == d.image
        &&& layout == current
        &&& format == d.format
        &&& extent == d.extent
    }
}

/// Every snapshot that a composite takes is of its whole destination.
pub proof fn snapshots_are_of_the_destination(
    st: StoreView,
    req: &CompositeRequest,
    d: Drawable,
    src: Binding,
    mask: Binding,
    current: Layout,
    descriptor: u64,
    i: int,
)
    ensures
        ({
            let setup = plan_setup(bound_plan(st, req, d, src, mask), current, descriptor);
            0 <= i < composite_preparation(setup).len() ==> snaps(
                composite_preparation(setup)[i],
                d,
                current,
            )
        }),
{
}

/// Every snapshot that trapezoids take is of their whole destination.
pub proof fn trap_snapshots_are_of_the_destination(
    st: StoreView,
    req: &TrapRequest,
    d: Drawable,
    src: Binding,
    mask: MaskImage,
    buffer: u64,
    descriptor: u64,
    i: int,
)
    ensures
        ({
            let cmds = trap_commands(st, req, d, src, mask, buffer, descriptor);
            0 <= i < cmds.len() ==> snaps(cmds[i], d, d.layout)
        }),
{
}

} // verus!
