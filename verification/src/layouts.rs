//! The store always tells the layout that recorded work leaves an image in.
//!
//! `true_of` relates the layouts that running all recorded commands gives to
//! what the store says. Every operation that records commands keeps it.

use vstd::prelude::*;

use crate::batch::append_commands;
use crate::command::{
    composite_commands, composite_draws, composite_layouts, composite_open, layout_run,
    layout_run_concat, layout_run_neutral, text_commands, text_layouts, Color, Command, GcFunction,
    GlyphDraw, Layouts,
};
use crate::composite::{plan_setup, CompositePlan};
use crate::copy::CopyGeometry;
use crate::cow::{
    cow_commands, cow_dst_exit, cow_exit, cow_exit_commands, cow_extended, cow_src_exit,
    cow_started, present_prefix,
};
use crate::engine::CowBatchView;
use crate::error::DrawableId;
use crate::geometry::{scissors_of, Rect};
use crate::image::{get_commands, put_commands, transfer_layouts};
use crate::paint::{
    clears, fill_commands, logic_draws, logic_fill_commands, paint_store, rendering_layouts,
    PaintReply, UpkeepView,
};
use crate::picture::{Binding, CompositeRequest};
use crate::replay::images_distinct;
use crate::store::{touched_is_pointwise, Drawable, Layout, StoreView, Ticket};
use crate::submit::GroupView;
use crate::traps::{mask_commands, trap_commands, MaskImage, TrapRequest};
use crate::undo::damage_keeps_drawables;

verus! {

/// Whether the store tells the layout of every storage image.
pub open spec fn true_of(m: Layouts, st: StoreView) -> bool {
    forall|id: DrawableId| #[trigger] st.get(id) matches Some(d) ==> m[d.image] == d.layout
}

proof fn one_image_changed(
    m: Layouts,
    end: Layouts,
    st: StoreView,
    target: DrawableId,
    layout: Layout,
)
    requires
        true_of(m, st),
        images_distinct(st),
        st.has(target),
        end[st.get(target)->0.image] == layout,
        forall|i: u64| i != st.get(target)->0.image ==> #[trigger] end[i] == m[i],
    ensures
        true_of(end, st.with_layout(target, layout)),
{
    let st1 = st.with_layout(target, layout);
    assert forall|id: DrawableId| #[trigger] st1.get(id) matches Some(d) ==> end[d.image]
        == d.layout by {
        assert(st.has(target));
        if id != target && st.has(id) {
            assert(st.get(id)->0.image != st.get(target)->0.image);
        }
    }
}

/// A command buffer of its own leaves its target to be sampled, and so says
/// the store, whatever became of the command buffer after it was recorded.
pub proof fn paint_store_is_true(
    m: Layouts,
    st: StoreView,
    g: GroupView,
    up: UpkeepView,
    reply: PaintReply,
)
    requires
        reply is Recorded,
        true_of(m, st.with_layout(up.target, Layout::ShaderReadOnly)),
    ensures
        true_of(m, paint_store(st, g, up, reply)),
{
    if let PaintReply::Recorded { cb, fresh, end, submit } = reply {
        let laid = st.with_layout(up.target, Layout::ShaderReadOnly);
        touched_is_pointwise(laid, up.touches, g.ticket_or(fresh));
        let touched = laid.touched(up.touches, g.ticket_or(fresh));
        damage_keeps_drawables(touched, up.target, up.damage);
        let done = touched.damaged(up.target, up.damage);
        assert forall|id: DrawableId| #[trigger] touched.get(id) matches Some(d) ==> m[d.image]
            == d.layout by {
            assert(laid.get(id) matches Some(d) ==> m[d.image] == d.layout);
        }
        assert forall|id: DrawableId| #[trigger] done.get(id) matches Some(d) ==> m[d.image]
            == d.layout by {
            assert(touched.get(id) == done.get(id));
        }
    }
}

/// A fill can run, and the store then tells the layout of its target.
pub proof fn fill_is_true(
    m: Layouts,
    st: StoreView,
    target: DrawableId,
    color: Color,
    rects: Seq<Rect>,
)
    requires
        true_of(m, st),
        images_distinct(st),
        st.has(target),
    ensures
        ({
            let end = layout_run(m, fill_commands(st.get(target)->0, color, rects));
            end is Some && true_of(end->0, st.with_layout(target, Layout::ShaderReadOnly))
        }),
{
    let d = st.get(target)->0;
    rendering_layouts(d, clears(color, rects), m);
    one_image_changed(
        m,
        layout_run(m, fill_commands(d, color, rects))->0,
        st,
        target,
        Layout::ShaderReadOnly,
    );
}

/// A raster operation fill can run, and the store then tells the layout of
/// its target.
pub proof fn logic_fill_is_true(
    m: Layouts,
    st: StoreView,
    target: DrawableId,
    function: GcFunction,
    opaque_alpha: bool,
    fg: u32,
    rects: Seq<Rect>,
)
    requires
        true_of(m, st),
        images_distinct(st),
        st.has(target),
    ensures
        ({
            let end = layout_run(
                m,
                logic_fill_commands(st.get(target)->0, function, opaque_alpha, fg, rects),
            );
            end is Some && true_of(end->0, st.with_layout(target, Layout::ShaderReadOnly))
        }),
{
    let d = st.get(target)->0;
    rendering_layouts(
        d,
        logic_draws(
            d.format,
            function,
            opaque_alpha,
            crate::paint::fill_pixel(d.format, opaque_alpha, fg),
            rects,
        ),
        m,
    );
    one_image_changed(
        m,
        layout_run(m, logic_fill_commands(d, function, opaque_alpha, fg, rects))->0,
        st,
        target,
        Layout::ShaderReadOnly,
    );
}

/// Uploads and readbacks can run, and the store then tells the layout of
/// their image.
pub proof fn transfers_are_true(
    m: Layouts,
    st: StoreView,
    target: DrawableId,
    buffer: u64,
    rect: Rect,
)
    requires
        true_of(m, st),
        images_distinct(st),
        st.has(target),
    ensures
        ({
            let put = layout_run(m, put_commands(st.get(target)->0, buffer, rect));
            put is Some && true_of(put->0, st.with_layout(target, Layout::ShaderReadOnly))
        }),
        ({
            let get = layout_run(m, get_commands(st.get(target)->0, buffer, rect));
            get is Some && true_of(get->0, st.with_layout(target, Layout::ShaderReadOnly))
        }),
{
    let d = st.get(target)->0;
    transfer_layouts(d, buffer, rect, m);
    one_image_changed(
        m,
        layout_run(m, put_commands(d, buffer, rect))->0,
        st,
        target,
        Layout::ShaderReadOnly,
    );
    one_image_changed(
        m,
        layout_run(m, get_commands(d, buffer, rect))->0,
        st,
        target,
        Layout::ShaderReadOnly,
    );
}

/// A composite with a command buffer of its own can run, and the store then
/// tells the layout of its destination.
pub proof fn own_composite_is_true(
    m: Layouts,
    st: StoreView,
    req: &CompositeRequest,
    p: CompositePlan,
    descriptor: u64,
)
    requires
        true_of(m, st),
        images_distinct(st),
        st.get(req.dst) == Some(p.dst),
    ensures
        ({
            let end = layout_run(
                m,
                composite_commands(
                    plan_setup(p, p.dst.layout, descriptor),
                    req.rects@,
                    scissors_of(req.clip, p.dst.extent),
                ),
            );
            end is Some && true_of(end->0, st.with_layout(req.dst, Layout::ShaderReadOnly))
        }),
{
    let c = plan_setup(p, p.dst.layout, descriptor);
    let scissors = scissors_of(req.clip, p.dst.extent);
    composite_layouts(c, req.rects@, scissors, m);
    one_image_changed(
        m,
        layout_run(m, composite_commands(c, req.rects@, scissors))->0,
        st,
        req.dst,
        Layout::ShaderReadOnly,
    );
}

/// A text run outside a frame can run, and the store then tells the layout of
/// its target.
pub proof fn text_is_true(
    m: Layouts,
    st: StoreView,
    target: DrawableId,
    foreground: Color,
    glyphs: Seq<GlyphDraw>,
    scissors: Seq<Rect>,
)
    requires
        true_of(m, st),
        images_distinct(st),
        st.has(target),
    ensures
        ({
            let d = st.get(target)->0;
            let end = layout_run(
                m,
                text_commands(d.image, d.view, d.extent, d.layout, foreground, glyphs, scissors),
            );
            end is Some && true_of(end->0, st.with_layout(target, Layout::ShaderReadOnly))
        }),
{
    let d = st.get(target)->0;
    text_layouts(d.image, d.view, d.extent, d.layout, foreground, glyphs, scissors, m);
    one_image_changed(
        m,
        layout_run(
            m,
            text_commands(d.image, d.view, d.extent, d.layout, foreground, glyphs, scissors),
        )->0,
        st,
        target,
        Layout::ShaderReadOnly,
    );
}

proof fn mask_layouts(req: &TrapRequest, mask: MaskImage, buffer: u64, m: Layouts)
    requires
        m[mask.image] == mask.layout,
    ensures
        layout_run(m, mask_commands(req, mask, buffer)) == Some(
            m.insert(mask.image, Layout::ColorAttachment).insert(
                mask.image,
                Layout::ShaderReadOnly,
            ),
        ),
{
    reveal_with_fuel(layout_run, 6);
    assert(mask_commands(req, mask, buffer).len() == 5);
}

/// Painting trapezoids or triangles can run, leaves the mask to be sampled,
/// and the store then tells the layout of the destination.
pub proof fn traps_are_true(
    m: Layouts,
    st: StoreView,
    req: &TrapRequest,
    src: Binding,
    mask: MaskImage,
    buffer: u64,
    descriptor: u64,
)
    requires
        true_of(m, st),
        images_distinct(st),
        st.has(req.dst),
        m[mask.image] == mask.layout,
        forall|id: DrawableId| #[trigger] st.get(id) matches Some(d) ==> d.image != mask.image,
    ensures
        ({
            let end = layout_run(
                m,
                trap_commands(st, req, st.get(req.dst)->0, src, mask, buffer, descriptor),
            );
            &&& end is Some
            &&& true_of(end->0, st.with_layout(req.dst, Layout::ShaderReadOnly))
            &&& (end->0)[mask.image] == Layout::ShaderReadOnly
        }),
{
    let d = st.get(req.dst)->0;
    assert(st.get(req.dst) is Some);
    let all = trap_commands(st, req, d, src, mask, buffer, descriptor);
    let clear = crate::command::optional(
        match src.spec_clear_color() {
            Some(solid) => Some(
                Command::ClearSolid { slot: crate::command::Slot::Src, solid },
            ),
            None => None,
        },
    );
    let raster = mask_commands(req, mask, buffer);
    let snap = crate::command::optional(
        if crate::picture::readback_op(req.op) {
            Some(
                Command::Snapshot {
                    of: crate::command::SnapshotKind::Readback,
                    image: d.image,
                    layout: d.layout,
                    format: d.format,
                    extent: d.extent,
                },
            )
        } else {
            None
        },
    );
    let open = Command::OpenComposite {
        image: d.image,
        view: d.view,
        extent: d.extent,
        old: d.layout,
        pipeline: crate::traps::trap_pipeline(req, d),
    };
    let draws = composite_draws(
        descriptor,
        d.extent,
        crate::traps::trap_attrs(st, req, d, src, mask),
        seq![crate::traps::trap_quad(req, d)],
        crate::traps::trap_scissors(req, d),
    );
    let close = Command::CloseComposite { image: d.image };
    let m1 = m.insert(mask.image, Layout::ColorAttachment).insert(
        mask.image,
        Layout::ShaderReadOnly,
    );
    let m2 = m1.insert(d.image, Layout::ColorAttachment);
    let m3 = m2.insert(d.image, Layout::ShaderReadOnly);
    layout_run_neutral(m, clear);
    mask_layouts(req, mask, buffer, m);
    layout_run_concat(m, clear, raster);
    assert(layout_run(m1, snap) == Some(m1)) by {
        reveal_with_fuel(layout_run, 2);
        if snap.len() > 0 {
            assert(snap.drop_last() =~= Seq::empty());
        }
    }
    layout_run_concat(m, clear + raster, snap);
    assert(layout_run(m1, seq![open]) == Some(m2)) by {
        reveal_with_fuel(layout_run, 2);
        assert(seq![open].drop_last() =~= Seq::empty());
    }
    layout_run_concat(m, clear + raster + snap, seq![open]);
    layout_run_neutral(m2, draws);
    layout_run_concat(m, clear + raster + snap + seq![open], draws);
    assert(layout_run(m2, seq![close]) == Some(m3)) by {
        reveal_with_fuel(layout_run, 2);
        assert(seq![close].drop_last() =~= Seq::empty());
    }
    layout_run_concat(m, clear + raster + snap + seq![open] + draws, seq![close]);
    assert(all =~= clear + raster + snap + seq![open] + draws + seq![close]);
    assert(layout_run(m, all) == Some(m3));
    let st1 = st.with_layout(req.dst, Layout::ShaderReadOnly);
    assert forall|id: DrawableId| #[trigger] st1.get(id) matches Some(x) ==> m3[x.image]
        == x.layout by {
        assert(st.has(req.dst));
        if id != req.dst && st.has(id) {
            assert(st.get(id)->0.image != d.image);
            assert(st.get(id)->0.image != mask.image);
        }
    }
}

/// Whether an open batch of overlay copies and the store agree: the batch
/// copies from each source once it was moved, never from its destination, and
/// the store tells what it moved them to.
pub open spec fn cow_sound(b: CowBatchView, st: StoreView) -> bool {
    &&& !b.srcs.contains(b.dst)
    &&& forall|i: int, j: int|
        #![trigger b.srcs[i], b.srcs[j]]
        0 <= i < j < b.srcs.len() ==> b.srcs[i] != b.srcs[j]
    &&& st.get(b.dst) matches Some(d) ==> d.layout == Layout::TransferDst
    &&& forall|i: int|
        0 <= i < b.srcs.len() ==> (st.get(#[trigger] b.srcs[i]) matches Some(d) ==> d.layout
            == Layout::TransferSrc)
}

/// A batch of overlay copies agrees with the store when it starts.
pub proof fn cow_start_is_sound(
    st: StoreView,
    cb: u64,
    ticket: Ticket,
    cow: DrawableId,
    src: DrawableId,
    rect: Rect,
)
    requires
        src != cow,
    ensures
        cow_sound(
            cow_started(cb, ticket, cow, src, rect),
            st.with_layout(cow, Layout::TransferDst).with_layout(
                src,
                Layout::TransferSrc,
            ).with_ticket(cow, Some(ticket)).with_ticket(src, Some(ticket)),
        ),
{
    let b = cow_started(cb, ticket, cow, src, rect);
    assert(b.srcs[0] == src);
    assert forall|i: int| 0 <= i < b.srcs.len() implies b.srcs[i] != cow by {}
}

/// A batch of overlay copies still agrees with the store when a copy joins.
pub proof fn cow_extension_is_sound(b: CowBatchView, st: StoreView, src: DrawableId, rect: Rect)
    requires
        cow_sound(b, st),
        src != b.dst,
    ensures
        cow_sound(
            cow_extended(b, src, rect),
            if b.srcs.contains(src) {
                st
            } else {
                st.with_layout(src, Layout::TransferSrc).with_ticket(src, Some(b.ticket))
            },
        ),
{
    if !b.srcs.contains(src) {
        let b1 = cow_extended(b, src, rect);
        let st1 = st.with_layout(src, Layout::TransferSrc).with_ticket(src, Some(b.ticket));
        assert forall|i: int| 0 <= i < b1.srcs.len() implies b1.srcs[i] != b.dst by {
            if i < b.srcs.len() {
                assert(b.srcs.contains(b.srcs[i]));
            }
        }
        assert forall|i: int, j: int|
            #![trigger b1.srcs[i], b1.srcs[j]]
            0 <= i < j < b1.srcs.len() implies b1.srcs[i] != b1.srcs[j] by {
            assert(b1.srcs[i] == b.srcs[i]);
            assert(b.srcs.contains(b.srcs[i]));
            if j < b.srcs.len() {
                assert(b.srcs[i] != b.srcs[j]);
            }
        }
        assert forall|i: int| 0 <= i < b1.srcs.len() implies (st1.get(
            #[trigger] b1.srcs[i],
        ) matches Some(d) ==> d.layout == Layout::TransferSrc) by {
            if i < b.srcs.len() {
                assert(b1.srcs[i] == b.srcs[i]);
                assert(st.get(b.srcs[i]) matches Some(d) ==> d.layout == Layout::TransferSrc);
            }
        }
    }
}

/// The commands that start a batch of overlay copies can run, and the store
/// then tells the layouts of both drawables.
pub proof fn cow_start_is_true(
    m: Layouts,
    st: StoreView,
    cow: DrawableId,
    src: DrawableId,
    c: CopyGeometry,
    ticket: Ticket,
)
    requires
        true_of(m, st),
        images_distinct(st),
        src != cow,
        st.get(src) == Some(c.src),
        st.get(cow) == Some(c.dst),
    ensures
        ({
            let end = layout_run(m, cow_commands(None, src, c));
            &&& end is Some
            &&& true_of(
                end->0,
                st.with_layout(cow, Layout::TransferDst).with_layout(
                    src,
                    Layout::TransferSrc,
                ).with_ticket(cow, Some(ticket)).with_ticket(src, Some(ticket)),
            )
        }),
{
    reveal_with_fuel(layout_run, 4);
    let cmds = cow_commands(None, src, c);
    assert(cmds.len() == 3);
    assert(st.has(src) && st.has(cow));
    assert(c.src.image != c.dst.image);
    let end = m.insert(c.dst.image, Layout::TransferDst).insert(c.src.image, Layout::TransferSrc);
    assert(layout_run(m, cmds) == Some(end));
    let st1 = st.with_layout(cow, Layout::TransferDst).with_layout(
        src,
        Layout::TransferSrc,
    ).with_ticket(cow, Some(ticket)).with_ticket(src, Some(ticket));
    assert forall|id: DrawableId| #[trigger] st1.get(id) matches Some(d) ==> end[d.image]
        == d.layout by {
        if id != src && id != cow && st.has(id) {
            assert(st.get(id)->0.image != c.src.image);
            assert(st.get(id)->0.image != c.dst.image);
        }
    }
}

/// The commands that a copy adds to an open batch can run, and the store then
/// tells the layouts of both drawables.
pub proof fn cow_extension_is_true(
    m: Layouts,
    st: StoreView,
    b: CowBatchView,
    src: DrawableId,
    c: CopyGeometry,
)
    requires
        true_of(m, st),
        images_distinct(st),
        src != b.dst,
        st.get(src) == Some(c.src),
        st.get(b.dst) == Some(c.dst),
        cow_sound(b, st),
    ensures
        ({
            let end = layout_run(m, cow_commands(Some(b), src, c));
            &&& end is Some
            &&& true_of(
                end->0,
                if b.srcs.contains(src) {
                    st
                } else {
                    st.with_layout(src, Layout::TransferSrc).with_ticket(src, Some(b.ticket))
                },
            )
        }),
{
    reveal_with_fuel(layout_run, 3);
    let cmds = cow_commands(Some(b), src, c);
    assert(st.has(src) && st.has(b.dst));
    assert(c.src.image != c.dst.image);
    if b.srcs.contains(src) {
        let k = choose|k: int| 0 <= k < b.srcs.len() && b.srcs[k] == src;
        assert(st.get(b.srcs[k]) is Some);
        assert(cmds.len() == 1);
        assert(layout_run(m, cmds) == Some(m));
    } else {
        assert(cmds.len() == 2);
        let end = m.insert(c.src.image, Layout::TransferSrc);
        assert(layout_run(m, cmds) == Some(end));
        let st1 = st.with_layout(src, Layout::TransferSrc).with_ticket(src, Some(b.ticket));
        assert forall|id: DrawableId| #[trigger] st1.get(id) matches Some(d) ==> end[d.image]
            == d.layout by {
            if id != src && st.has(id) {
                assert(st.get(id)->0.image != c.src.image);
            }
        }
    }
}

/// The barrier of one source at the end of a batch.
proof fn exit_barriers(m: Layouts, st: StoreView, ids: Seq<DrawableId>)
    requires
        true_of(m, st),
        images_distinct(st),
        forall|i: int| 0 <= i < ids.len() ==> st.has(#[trigger] ids[i]),
        forall|i: int, j: int|
            #![trigger ids[i], ids[j]]
            0 <= i < j < ids.len() ==> ids[i] != ids[j],
    ensures
        ({
            let end = layout_run(
                m,
                ids.map_values(|id: DrawableId| cow_src_exit(st.get(id)->0)),
            );
            &&& end is Some
            &&& true_of(end->0, st.laid_out(ids, Layout::ShaderReadOnly))
        }),
        forall|id: DrawableId| #[trigger]
            st.laid_out(ids, Layout::ShaderReadOnly).get(id) == match st.get(id) {
                Some(d) => Some(
                    Drawable {
                        layout: if ids.contains(id) {
                            Layout::ShaderReadOnly
                        } else {
                            d.layout
                        },
                        ..d
                    },
                ),
                None => None,
            },
    decreases ids.len(),
{
    let cmds = ids.map_values(|id: DrawableId| cow_src_exit(st.get(id)->0));
    if ids.len() > 0 {
        let head = ids.drop_last();
        let last = ids.last();
        let hcmds = head.map_values(|id: DrawableId| cow_src_exit(st.get(id)->0));
        assert forall|i: int| 0 <= i < head.len() implies st.has(#[trigger] head[i]) by {
            assert(st.has(ids[i]));
        }
        assert forall|i: int, j: int|
            #![trigger head[i], head[j]]
            0 <= i < j < head.len() implies head[i] != head[j] by {
            assert(ids[i] != ids[j]);
        }
        exit_barriers(m, st, head);
        let st1 = st.laid_out(head, Layout::ShaderReadOnly);
        let m1 = layout_run(m, hcmds)->0;
        assert(cmds.drop_last() =~= hcmds);
        assert(st.has(ids[ids.len() - 1]));
        assert(!head.contains(last)) by {
            if head.contains(last) {
                let k = choose|k: int| 0 <= k < head.len() && head[k] == last;
                assert(ids[k] != ids[ids.len() - 1]);
            }
        }
        let d = st.get(last)->0;
        assert(st1.get(last) == Some(d));
        assert(m1[d.image] == d.layout);
        let m2 = m1.insert(d.image, Layout::ShaderReadOnly);
        assert(layout_run(m, cmds) == Some(m2));
        let st2 = st.laid_out(ids, Layout::ShaderReadOnly);
        assert forall|id: DrawableId| ids.contains(id) <==> (head.contains(id) || id == last) by {
            if ids.contains(id) {
                let k = choose|k: int| 0 <= k < ids.len() && ids[k] == id;
                if k < head.len() {
                    assert(head[k] == id);
                }
            }
            if head.contains(id) {
                let k = choose|k: int| 0 <= k < head.len() && head[k] == id;
                assert(ids[k] == id);
            }
            if id == last {
                assert(ids[ids.len() - 1] == id);
            }
        }
        assert forall|id: DrawableId| #[trigger]
            st2.get(id) == match st.get(id) {
                Some(d) => Some(
                    Drawable {
                        layout: if ids.contains(id) {
                            Layout::ShaderReadOnly
                        } else {
                            d.layout
                        },
                        ..d
                    },
                ),
                None => None,
            } by {
            assert(st1.get(id) == match st.get(id) {
                Some(d) => Some(
                    Drawable {
                        layout: if head.contains(id) {
                            Layout::ShaderReadOnly
                        } else {
                            d.layout
                        },
                        ..d
                    },
                ),
                None => None,
            });
            assert(ids.contains(id) <==> (head.contains(id) || id == last));
        }
        assert forall|id: DrawableId| #[trigger] st2.get(id) matches Some(x) ==> m2[x.image]
            == x.layout by {
            if id != last && st.has(id) {
                assert(st.has(last));
                assert(st.get(id)->0.image != d.image);
                assert(st1.get(id) matches Some(x) ==> m1[x.image] == x.layout);
                assert(st2.get(id) == st1.get(id));
            }
        }
    } else {
        assert(cmds =~= Seq::empty());
        assert forall|id: DrawableId| !ids.contains(id) by {}
    }
}

/// The commands that end a batch of overlay copies can run, and the store
/// then tells that all its drawables are left to be sampled.
pub proof fn cow_exit_is_true(m: Layouts, st: StoreView, b: CowBatchView)
    requires
        true_of(m, st),
        images_distinct(st),
        cow_exit(st, b).1 is Ok,
        cow_sound(b, st),
    ensures
        ({
            let end = layout_run(m, cow_exit_commands(st, b));
            end is Some && true_of(end->0, cow_exit(st, b).0)
        }),
{
    present_prefix_has(st, b.srcs);
    exit_barriers(m, st, b.srcs);
    let cmds = b.srcs.map_values(|id: DrawableId| cow_src_exit(st.get(id)->0));
    let last = cow_dst_exit(st.get(b.dst)->0);
    let all = cow_exit_commands(st, b);
    assert(all.drop_last() =~= cmds);
    let st1 = st.laid_out(b.srcs, Layout::ShaderReadOnly);
    let m1 = layout_run(m, cmds)->0;
    let d = st.get(b.dst)->0;
    assert(st1.get(b.dst) == Some(d));
    let m2 = m1.insert(d.image, Layout::ShaderReadOnly);
    assert(layout_run(m, all) == Some(m2));
    assert(images_distinct(st1)) by {
        assert forall|x: DrawableId, y: DrawableId|
            #![trigger st1.get(x), st1.get(y)]
            st1.has(x) && st1.has(y) && x != y implies st1.get(x)->0.image != st1.get(y)->0.image by {
            assert(st.has(x) && st.has(y));
            assert(st.get(x)->0.image != st.get(y)->0.image);
        }
    }
    one_image_changed(m1, m2, st1, b.dst, Layout::ShaderReadOnly);
}

proof fn present_prefix_has(st: StoreView, ids: Seq<DrawableId>)
    requires
        present_prefix(st, ids) >= ids.len(),
    ensures
        forall|i: int| 0 <= i < ids.len() ==> st.has(#[trigger] ids[i]),
    decreases ids.len(),
{
    if ids.len() > 0 {
        let rest = ids.skip(1);
        present_prefix_has(st, rest);
        assert forall|i: int| 0 <= i < ids.len() implies st.has(#[trigger] ids[i]) by {
            if i > 0 {
                assert(st.has(rest[i - 1]));
            }
        }
    }
}

/// The commands that a composite adds to a batch can run, and the store then
/// tells that the destination is attached.
pub proof fn append_is_true(
    m: Layouts,
    st: StoreView,
    open: bool,
    req: &CompositeRequest,
    p: CompositePlan,
    descriptor: u64,
)
    requires
        true_of(m, st),
        images_distinct(st),
        st.get(req.dst) == Some(p.dst),
        open ==> p.dst.layout == Layout::ColorAttachment,
    ensures
        ({
            let end = layout_run(m, append_commands(open, p, descriptor, req));
            end is Some && true_of(end->0, st.with_layout(req.dst, Layout::ColorAttachment))
        }),
{
    let setup = plan_setup(p, p.dst.layout, descriptor);
    let draws = composite_draws(
        descriptor,
        p.dst.extent,
        p.attrs,
        req.rects@,
        scissors_of(req.clip, p.dst.extent),
    );
    let m1 = m.insert(p.dst.image, Layout::ColorAttachment);
    layout_run_neutral(m, draws);
    layout_run_neutral(m1, draws);
    assert(m[p.dst.image] == p.dst.layout) by {
        assert(st.get(req.dst) is Some);
    }
    if !open {
        let first = seq![composite_open(setup)];
        assert(layout_run(m, first) == Some(m1)) by {
            reveal_with_fuel(layout_run, 2);
            assert(first.drop_last() =~= Seq::empty());
        }
        layout_run_concat(m, first, draws);
        one_image_changed(m, m1, st, req.dst, Layout::ColorAttachment);
    } else {
        one_image_changed(m, m, st, req.dst, Layout::ColorAttachment);
    }
}

/// The command that ends a batch of composites can run, and the store then
/// tells that the destination is left to be sampled.
pub proof fn batch_end_is_true(m: Layouts, st: StoreView, dst: DrawableId)
    requires
        true_of(m, st),
        images_distinct(st),
        st.get(dst) matches Some(d) && d.layout == Layout::ColorAttachment,
    ensures
        ({
            let end = layout_run(
                m,
                seq![Command::CloseComposite { image: st.get(dst)->0.image }],
            );
            end is Some && true_of(end->0, st.with_layout(dst, Layout::ShaderReadOnly))
        }),
{
    let d = st.get(dst)->0;
    let cmds = seq![Command::CloseComposite { image: d.image }];
    reveal_with_fuel(layout_run, 2);
    assert(cmds.drop_last() =~= Seq::empty());
    let m1 = m.insert(d.image, Layout::ShaderReadOnly);
    assert(layout_run(m, cmds) == Some(m1));
    one_image_changed(m, m1, st, dst, Layout::ShaderReadOnly);
}

} // verus!
