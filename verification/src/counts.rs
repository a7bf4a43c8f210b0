//! What operations report of themselves is what they did: draws, snapshots,
//! glyphs, and how many requests a batch holds.

use vstd::prelude::*;

use crate::batch::{
    append_commands, append_result, batch_ends, batch_extended, batch_started, clipped_away,
    render_flush_engine, BatchAppendReply, RenderFlushReply,
};
use crate::command::{
    composite_commands, composite_draws, composite_open, composite_preparation, optional, Command,
    Slot, SnapshotKind,
};
use crate::composite::{own_result, plan_setup, plan_stats, CompositePlan, CompositeReply};
use crate::cow::{
    cow_exit, cow_extended, cow_flush_engine, cow_flush_result, cow_recorded, cow_started,
    present_wait, BatchReply, CowFlushReply,
};
use crate::engine::{bumped, EngineView, PresentBatchWait};
use crate::error::DrawableId;
use crate::frame::find_glyph;
use crate::geometry::{scissors_of, Rect};
use crate::glyphs::{frame_glyph_outcome, FrameRunView, GlyphNeed, PackReply};
use crate::paint::{paint_result, PaintReply};
use crate::picture::{readback_op, Binding, CompositeRequest};
use crate::store::{Drawable, Layout, StoreView, Ticket};
use crate::submit::GroupView;
use crate::text::{glyph_outcome, GlyphImage, GlyphReply, RunView, UploadReply};
use crate::traps::{
    mask_commands, trap_attrs, trap_commands, trap_quad, trap_scissors, trap_stats, MaskImage,
    TrapRequest,
};

verus! {

/// How many draws of composites a list of commands holds.
pub open spec fn draws_in(cmds: Seq<Command>) -> nat
    decreases cmds.len(),
{
    if cmds.len() == 0 {
        0
    } else {
        draws_in(cmds.drop_last()) + if cmds.last() is CompositeDraw {
            1nat
        } else {
            0nat
        }
    }
}

/// Whether a list of commands takes a snapshot of an image.
pub open spec fn snaps(cmds: Seq<Command>, kind: SnapshotKind) -> bool {
    exists|i: int|
        0 <= i < cmds.len() && (#[trigger] cmds[i] matches Command::Snapshot { of, .. } && of
            == kind)
}

/// A number as far as a counter of 32 bits holds it.
pub open spec fn counted(n: int) -> u32 {
    if n <= u32::MAX {
        n as u32
    } else {
        u32::MAX
    }
}

proof fn draws_concat(a: Seq<Command>, b: Seq<Command>)
    ensures
        draws_in(a + b) == draws_in(a) + draws_in(b),
    decreases b.len(),
{
    if b.len() == 0 {
        assert(a + b =~= a);
    } else {
        assert((a + b).drop_last() =~= a + b.drop_last());
        draws_concat(a, b.drop_last());
    }
}

proof fn all_draws(cmds: Seq<Command>)
    requires
        forall|i: int| 0 <= i < cmds.len() ==> #[trigger] cmds[i] is CompositeDraw,
    ensures
        draws_in(cmds) == cmds.len(),
    decreases cmds.len(),
{
    if cmds.len() > 0 {
        let head = cmds.drop_last();
        assert forall|i: int| 0 <= i < head.len() implies #[trigger] head[i] is CompositeDraw by {
            assert(head[i] == cmds[i]);
        }
        all_draws(head);
        assert(cmds[cmds.len() - 1] is CompositeDraw);
    }
}

proof fn no_draws(cmds: Seq<Command>)
    requires
        forall|i: int| 0 <= i < cmds.len() ==> !(#[trigger] cmds[i] is CompositeDraw),
    ensures
        draws_in(cmds) == 0,
    decreases cmds.len(),
{
    if cmds.len() > 0 {
        let head = cmds.drop_last();
        assert forall|i: int| 0 <= i < head.len() implies !(#[trigger] head[i]
            is CompositeDraw) by {
            assert(head[i] == cmds[i]);
        }
        no_draws(head);
        assert(!(cmds[cmds.len() - 1] is CompositeDraw));
    }
}

/// A composite with a command buffer of its own, or replayed by a frame,
/// reports as many draws as its commands hold, and the snapshots that its
/// commands take.
pub proof fn composite_reports_its_commands(
    p: CompositePlan,
    layout: Layout,
    descriptor: u64,
    req: &CompositeRequest,
)
    ensures
        ({
            let scissors = scissors_of(req.clip, p.dst.extent);
            let cmds = composite_commands(plan_setup(p, layout, descriptor), req.rects@, scissors);
            let stats = plan_stats(p, req.rects@.len(), scissors.len());
            &&& stats.recorded_draws == counted(draws_in(cmds) as int)
            &&& draws_in(cmds) == req.rects@.len() * scissors.len()
            &&& stats.used_dst_readback == snaps(cmds, SnapshotKind::Readback)
            &&& stats.used_src_alias_scratch == snaps(cmds, SnapshotKind::Alias)
            &&& !stats.deferred_to_batch
        }),
{
    let c = plan_setup(p, layout, descriptor);
    let scissors = scissors_of(req.clip, p.dst.extent);
    let prep = composite_preparation(c);
    let open = seq![composite_open(c)];
    let draws = composite_draws(descriptor, c.extent, c.attrs, req.rects@, scissors);
    let close = seq![Command::CloseComposite { image: c.image }];
    let cmds = composite_commands(c, req.rects@, scissors);
    no_draws(prep);
    no_draws(open);
    all_draws(draws);
    no_draws(close);
    draws_concat(prep, open);
    draws_concat(prep + open, draws);
    draws_concat(prep + open + draws, close);
    assert forall|i: int| 0 <= i < cmds.len() && #[trigger] cmds[i] is Snapshot implies i
        < prep.len() by {
        let rest = i - prep.len();
        if rest > 0 && rest <= draws.len() {
            assert(cmds[i] == draws[rest - 1]);
        }
    }
    let a = optional(
        match c.src_clear {
            Some(solid) => Some(Command::ClearSolid { slot: Slot::Src, solid }),
            None => None,
        },
    );
    let b = optional(
        match c.mask_clear {
            Some(solid) => Some(Command::ClearSolid { slot: Slot::Mask, solid }),
            None => None,
        },
    );
    if p.alias {
        assert(cmds[(a + b).len() as int] matches Command::Snapshot { of, .. } && of
            == SnapshotKind::Alias);
    }
    if p.readback {
        let n = (a + b).len() + if p.alias {
            1int
        } else {
            0int
        };
        assert(cmds[n] matches Command::Snapshot { of, .. } && of == SnapshotKind::Readback);
    }
}

/// A composite that paints in a command buffer of its own returns those
/// numbers.
pub proof fn own_composite_returns_its_numbers(
    g: GroupView,
    req: &CompositeRequest,
    p: CompositePlan,
    descriptor: u64,
    paint: PaintReply,
)
    requires
        scissors_of(req.clip, p.dst.extent).len() > 0,
        paint_result(g, paint) is Ok,
    ensures
        own_result(g, req, p, CompositeReply::Described { descriptor: Ok(descriptor), paint })
            matches Ok(stats) && stats.recorded_draws == counted(
            draws_in(
                composite_commands(
                    plan_setup(p, p.dst.layout, descriptor),
                    req.rects@,
                    scissors_of(req.clip, p.dst.extent),
                ),
            ) as int,
        ) && stats.used_dst_readback == p.readback && stats.used_src_alias_scratch == p.alias
            && !stats.deferred_to_batch,
{
    composite_reports_its_commands(p, p.dst.layout, descriptor, req);
}

/// A batch reports all draws of all composites that joined it so far: those it
/// held before, and those of the commands that were added.
pub proof fn batch_counts_its_draws(
    s: EngineView,
    g: GroupView,
    req: &CompositeRequest,
    p: CompositePlan,
    descriptor: u64,
    begin: BatchReply,
)
    requires
        !clipped_away(req, p),
        s.render is None ==> begin is Begun,
    ensures
        ({
            let new = draws_in(append_commands(s.render is Some, p, descriptor, req)) as int;
            let total = match s.render {
                Some(b) => b.accumulated_draws + new,
                None => new,
            };
            append_result(
                s,
                g,
                req,
                p,
                BatchAppendReply::Described { descriptor: Ok(descriptor), begin },
            ) matches Ok(stats) && stats.recorded_draws == counted(total)
                && stats.deferred_to_batch && !stats.used_dst_readback
                && !stats.used_src_alias_scratch
        }),
{
    let c = plan_setup(p, p.dst.layout, descriptor);
    let draws = composite_draws(
        descriptor,
        p.dst.extent,
        p.attrs,
        req.rects@,
        scissors_of(req.clip, p.dst.extent),
    );
    all_draws(draws);
    if s.render is None {
        no_draws(seq![composite_open(c)]);
        draws_concat(seq![composite_open(c)], draws);
    }
}

/// A batch counts the composites that joined it, and its end reports that
/// number, with its destination, its operator and whether any had a mask.
pub proof fn render_batch_counts_its_members(
    s: EngineView,
    st: StoreView,
    g: GroupView,
    req: &CompositeRequest,
    p: CompositePlan,
    cb: u64,
    ticket: Ticket,
    reply: RenderFlushReply,
)
    ensures
        batch_started(cb, ticket, req, p).coalesced_count == 1,
        batch_started(cb, ticket, req, p).key.dst == req.dst,
        batch_started(cb, ticket, req, p).key.op == req.op,
        batch_started(cb, ticket, req, p).any_mask == req.mask is Drawable,
        s.render matches Some(b) ==> {
            &&& batch_extended(b, req, p).coalesced_count == counted(b.coalesced_count + 1)
            &&& batch_extended(b, req, p).any_mask == (b.any_mask || req.mask is Drawable)
            &&& batch_extended(b, req, p).key == b.key
            &&& batch_ends(st, g, b, reply) ==> {
                let list = render_flush_engine(s, st, g, reply).render_records;
                &&& list.len() == s.render_records.len() + 1
                &&& list.last().coalesced_count == b.coalesced_count
                &&& list.last().dst == b.key.dst
                &&& list.last().op == b.key.op
                &&& list.last().has_mask == b.any_mask
            }
        },
{
}

/// A batch of overlay copies counts its copies, and its end reports that
/// number.
pub proof fn cow_batch_counts_its_copies(
    s: EngineView,
    st: StoreView,
    g: GroupView,
    cb: u64,
    ticket: Ticket,
    dst: DrawableId,
    src: DrawableId,
    rect: Rect,
    reply: CowFlushReply,
)
    ensures
        cow_started(cb, ticket, dst, src, rect).coalesced_count == 1,
        s.cow matches Some(b) ==> {
            &&& cow_extended(b, src, rect).coalesced_count == counted(b.coalesced_count + 1)
            &&& (!g.renderer_failed && cow_exit(st, b).1 is Ok && reply.signal is Ok && reply.end
                is Ok) ==> {
                let end = cow_flush_engine(s, st, g, reply);
                &&& end.cow_records == s.cow_records.push(b.coalesced_count)
                &&& cow_flush_result(s, st, g, reply) matches Ok(n) ==> n == Some(b.coalesced_count)
            }
        },
{
}

/// When a batch of overlay copies that clients wait for ends in a command
/// buffer, every one of them is told, once and in order.
pub proof fn waiting_clients_are_told(
    s: EngineView,
    st: StoreView,
    g: GroupView,
    reply: CowFlushReply,
)
    requires
        s.live,
        !g.renderer_failed,
        s.cow matches Some(b) && cow_exit(st, b).1 is Ok && b.present_completions.len() > 0,
        reply.signal is Ok,
        reply.end is Ok,
    ensures
        ({
            let b = s.cow->0;
            let end = cow_flush_engine(s, st, g, reply);
            &&& end.presents.len() == s.presents.len() + 1
            &&& end.presents.drop_last() == s.presents
            &&& end.presents.last().events == b.present_completions
            &&& reply.submit is Ok ==> end.presents.last().ticket == Some(b.ticket)
                && end.presents.last().signal == Some(reply.signal->Ok_0)
                && end.presents.last().wait == present_wait(reply.export)
            &&& reply.submit is Err ==> end.presents.last().ticket is None
                && end.presents.last().signal is None && end.presents.last().wait
                == PresentBatchWait::Ready
            &&& end.cow is None
        }),
{
    let b = s.cow->0;
    let end = cow_flush_engine(s, st, g, reply);
    let rec = cow_recorded(s, b);
    assert(rec.parked.len() > 0);
    assert(rec.parked.last().ticket == b.ticket);
    assert(end.presents.drop_last() =~= s.presents);
    if reply.submit is Ok {
        let all = rec.submitted + rec.parked;
        assert(all.last() == rec.parked.last());
    }
}

/// Trapezoids and triangles report as many draws as their commands hold.
pub proof fn traps_report_their_commands(
    st: StoreView,
    req: &TrapRequest,
    d: Drawable,
    src: Binding,
    mask: MaskImage,
    buffer: u64,
    descriptor: u64,
)
    ensures
        ({
            let cmds = trap_commands(st, req, d, src, mask, buffer, descriptor);
            &&& trap_stats(req, d).recorded_draws == counted(draws_in(cmds) as int)
            &&& trap_stats(req, d).used_dst_readback == snaps(cmds, SnapshotKind::Readback)
            &&& !trap_stats(req, d).used_src_alias_scratch
            &&& !trap_stats(req, d).deferred_to_batch
        }),
{
    let cmds = trap_commands(st, req, d, src, mask, buffer, descriptor);
    let scissors = trap_scissors(req, d);
    let draws = composite_draws(
        descriptor,
        d.extent,
        trap_attrs(st, req, d, src, mask),
        seq![trap_quad(req, d)],
        scissors,
    );
    let n = cmds.len() - draws.len() - 1;
    let a = cmds.take(n);
    let z = seq![cmds.last()];
    assert(cmds =~= a + draws + z);
    no_draws(a);
    all_draws(draws);
    no_draws(z);
    draws_concat(a, draws);
    draws_concat(a + draws, z);
    assert(seq![trap_quad(req, d)].len() == 1);
    assert(1 * scissors.len() == scissors.len());
    assert(draws.len() == scissors.len());
    let s1 = optional(
        match src.spec_clear_color() {
            Some(solid) => Some(Command::ClearSolid { slot: Slot::Src, solid }),
            None => None,
        },
    );
    let s2 = mask_commands(req, mask, buffer);
    if readback_op(req.op) {
        assert(cmds[(s1 + s2).len() as int] matches Command::Snapshot { of, .. } && of
            == SnapshotKind::Readback);
    } else {
        assert forall|i: int| 0 <= i < cmds.len() implies !(#[trigger] cmds[i] is Snapshot) by {
            if i >= n && i < n + draws.len() {
                assert(cmds[i] == draws[i - n]);
            }
        }
    }
}

/// What becomes of one glyph of a run: it is drawn, or it is left out and
/// counted, or it has no area.
pub open spec fn one_fate(before: RunView, after: RunView, has_area: bool) -> bool {
    let drawn = after.draws.len() == before.draws.len() + 1 && after.stats.glyphs_dropped
        == before.stats.glyphs_dropped;
    let dropped = after.draws == before.draws && after.stats.glyphs_dropped
        == bumped(before.stats.glyphs_dropped);
    let passed = after.draws == before.draws && after.stats.glyphs_dropped
        == before.stats.glyphs_dropped;
    if has_area {
        drawn || dropped
    } else {
        dropped || passed
    }
}

/// Every glyph of a run outside a frame has one fate, and what it adds to the
/// numbers of the run is what happened: a new place, an upload.
pub proof fn glyphs_are_counted(
    s: EngineView,
    g: GroupView,
    run: RunView,
    glyph: &GlyphImage,
    reply: GlyphReply,
)
    requires
        find_glyph(s.atlas.entries, glyph.key) matches Some(e) ==> e.w == glyph.w && e.h == glyph.h,
    ensures
        ({
            let o = glyph_outcome(s, g, run, glyph, reply).run;
            let missing = find_glyph(s.atlas.entries, glyph.key) is None && !glyph.spec_is_empty();
            &&& one_fate(run, o, !glyph.spec_is_empty())
            &&& o.stats.atlas_interns == if missing && reply is Packed {
                bumped(run.stats.atlas_interns)
            } else {
                run.stats.atlas_interns
            }
            &&& o.stats.glyph_uploads == if missing && (reply matches GlyphReply::Packed {
                upload: UploadReply::Staged { cb: Ok(_), end: Ok(_), .. },
                ..
            }) && glyph.spec_complete() {
                bumped(run.stats.glyph_uploads)
            } else {
                run.stats.glyph_uploads
            }
        }),
{
}

/// Every glyph of a run into a frame has one fate, and what it adds to the
/// numbers of the run is what happened.
pub proof fn frame_glyphs_are_counted(
    need: GlyphNeed,
    run: FrameRunView,
    glyph: &GlyphImage,
    reply: PackReply,
)
    requires
        need matches GlyphNeed::Known(e) ==> e.w == glyph.w && e.h == glyph.h,
        need is Empty ==> glyph.spec_is_empty(),
        need is Upload || need is Dropped ==> !glyph.spec_is_empty(),
    ensures
        ({
            let o = frame_glyph_outcome(need, run, glyph, reply);
            let staged = need is Upload && (reply matches PackReply::Packed { staging: Ok(_), .. });
            &&& one_fate(run.run, o.run, !glyph.spec_is_empty())
            &&& o.run.stats.atlas_interns == if need is Upload && reply is Packed {
                bumped(run.run.stats.atlas_interns)
            } else {
                run.run.stats.atlas_interns
            }
            &&& o.run.stats.glyph_uploads == if staged {
                bumped(run.run.stats.glyph_uploads)
            } else {
                run.run.stats.glyph_uploads
            }
            &&& o.uploads.len() == run.uploads.len() + if staged {
                1int
            } else {
                0int
            }
        }),
{
}

} // verus!
