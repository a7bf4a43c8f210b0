//! What is chosen from a few plain values: memory, address modes, operators,
//! settings, and when work is handed to the queue.

use vstd::prelude::*;

use crate::access::{image_bytes, scratch_bytes, staging_bytes};
use crate::close::close_committed;
use crate::command::ScratchImage;
use crate::cow::present_wait;
use crate::device::{mirrored, nearest, wrapped};
use crate::engine::{
    auto_flush_result, group_auto_flushed, CloseReason, EngineView, PresentBatchWait, SubmittedView,
};
use crate::error::{DrawableId, RenderError, VkCode};
use crate::frame::FrameView;
use crate::geometry::Extent;
use crate::memory::suitable;
use crate::picture::{
    known_op, readback_op, unbounded_op, view_binding, Binding, PictFormat, Repeat, SamplerConfig,
};
use crate::store::{Drawable, Ticket};
use crate::submit::{FlushReason, GroupView};
use crate::switches::switched_on;

verus! {

/// A memory type is taken exactly if the object allows it and no wanted
/// property is missing from it.
pub proof fn memory_has_every_wanted_property(types: Seq<u32>, type_bits: u32, want: u32, i: int)
    requires
        0 <= i < types.len() <= 32,
    ensures
        suitable(types, type_bits, want, i) <==> (type_bits & (1u32 << (i as u32)) != 0 && want
            & !types[i] == 0),
{
    let n = i as u32;
    let have = types[i];
    assert((type_bits >> n) & 1 == 1 <==> type_bits & (1u32 << n) != 0) by (bit_vector)
        requires
            n < 32,
    ;
    assert(have & want == want <==> want & !have == 0) by (bit_vector);
}

/// The pixel that a sampler reads at a position, `None` being the transparent
/// border.
pub open spec fn addressed(c: SamplerConfig, e: Extent, u: int, v: int) -> Option<(int, int)> {
    let w = e.width as int;
    let h = e.height as int;
    let inside = 0 <= u < w && 0 <= v < h;
    if w == 0 || h == 0 {
        None
    } else if inside {
        Some((u, v))
    } else {
        match c {
            SamplerConfig::Clamp => None,
            SamplerConfig::Repeat => Some((u % w, v % h)),
            SamplerConfig::Pad => Some((nearest(u, w), nearest(v, h))),
            SamplerConfig::Reflect => Some((mirrored(u, w), mirrored(v, h))),
        }
    }
}

proof fn inside_is_kept(u: int, n: int)
    requires
        0 <= u < n,
    ensures
        u % n == u,
        u % (2 * n) == u,
{
    vstd::arithmetic::div_mod::lemma_small_mod(u as nat, n as nat);
    vstd::arithmetic::div_mod::lemma_small_mod(u as nat, (2 * n) as nat);
}

/// The sampler of a view addresses the drawable as the picture repeats.
pub proof fn sampler_repeats_like_the_picture(
    id: DrawableId,
    d: Drawable,
    repeat: Repeat,
    pict: PictFormat,
    u: int,
    v: int,
)
    ensures
        view_binding(id, d, repeat, pict) matches Binding::View { sampler, extent, .. }
            && addressed(sampler, extent, u, v) == wrapped(repeat, d.extent, u, v),
{
    let w = d.extent.width as int;
    let h = d.extent.height as int;
    if 0 <= u < w && 0 <= v < h {
        inside_is_kept(u, w);
        inside_is_kept(v, h);
    }
}

/// How much of the destination an operator that the device blends keeps where
/// the source is transparent: all of it or nothing. The destination's factor is
/// zero, one, the source's alpha, or one less the source's alpha.
pub open spec fn keeps_under_transparent(op: u8) -> bool {
    let zero = op == 0 || op == 1 || op == 5 || op == 7;
    let source_alpha = op == 6 || op == 10;
    !zero && !source_alpha
}

/// An operator is applied to the whole destination exactly if it is known and
/// either changes the destination under a transparent source or is computed by
/// the shader.
pub proof fn unbounded_operators_change_the_rest(op: u8)
    ensures
        op <= 12 ==> unbounded_op(op) == !keeps_under_transparent(op),
        op > 12 ==> unbounded_op(op) == readback_op(op),
        readback_op(op) <==> known_op(op) && op > 12,
        known_op(op) && op > 13 ==> 16 <= op <= 43 && op % 16 < 12,
        16 <= op <= 43 && op % 16 < 12 ==> known_op(op),
        op <= 13 ==> known_op(op),
{
}

/// The words that switch a feature off, and no others.
pub proof fn four_words_switch_off(v: &str)
    ensures
        switched_on(None),
        switched_on(Some(v)) <==> !seq!["off"@, "0"@, "false"@, "no"@].contains(v@),
{
    let words = seq!["off"@, "0"@, "false"@, "no"@];
    assert(words[0] == "off"@ && words[1] == "0"@ && words[2] == "false"@ && words[3] == "no"@);
    if words.contains(v@) {
        let i = choose|i: int| 0 <= i < words.len() && words[i] == v@;
        assert(i == 0 || i == 1 || i == 2 || i == 3);
    }
}

/// Every waiting command buffer adds the size of its staging buffer and of each
/// of its scratch images to what is counted, whatever the order.
pub proof fn waiting_bytes_add_up(
    a: Seq<SubmittedView>,
    op: SubmittedView,
    b: Seq<SubmittedView>,
    images: Seq<ScratchImage>,
    image: ScratchImage,
)
    ensures
        staging_bytes(a + seq![op] + b) == staging_bytes(a + b) + match op.staging {
            Some(x) => x.size as int,
            None => 0,
        },
        scratch_bytes(a + seq![op] + b) == scratch_bytes(a + b) + image_bytes(op.scratch),
        image_bytes(images.push(image)) == image_bytes(images) + image.size_bytes,
        image_bytes(Seq::empty()) == 0,
        staging_bytes(Seq::empty()) == 0,
        scratch_bytes(Seq::empty()) == 0,
    decreases b.len(),
{
    assert(images.push(image).drop_last() =~= images);
    if b.len() == 0 {
        assert(a + seq![op] + b =~= a.push(op));
        assert(a.push(op).drop_last() =~= a);
        assert(a + b =~= a);
    } else {
        waiting_bytes_add_up(a, op, b.drop_last(), images, image);
        assert((a + seq![op] + b).drop_last() =~= a + seq![op] + b.drop_last());
        assert((a + b).drop_last() =~= a + b.drop_last());
        assert((a + seq![op] + b).last() == b.last());
        assert((a + b).last() == b.last());
    }
}

/// A group is handed to the queue with the command buffer that fills it, not
/// earlier and not later, and what the queue answers is reported.
pub proof fn groups_are_flushed_when_full(g: GroupView, cb: u64, reply: Result<(), VkCode>)
    requires
        g.entries.len() < g.max_size,
    ensures
        ({
            let after = group_auto_flushed(g.appended(cb), reply);
            if g.entries.len() + 1 == g.max_size {
                &&& after.entries.len() == 0
                &&& after.ticket is None
                &&& after.renderer_failed == (g.renderer_failed || reply is Err)
                &&& (auto_flush_result(g.appended(cb), reply) is Err) == (reply is Err)
                &&& forall|e: VkCode|
                    reply == Err::<(), VkCode>(e) ==> #[trigger] auto_flush_result(
                        g.appended(cb),
                        reply,
                    ) == Err::<(), RenderError>(RenderError::Vk(e))
            } else {
                &&& after.entries == g.entries.push(cb)
                &&& after.ticket == g.ticket
                &&& auto_flush_result(g.appended(cb), reply) is Ok
            }
        }),
        group_auto_flushed(g.appended(cb), reply).entries.len() < g.max_size,
{
}

/// Each flush of a group that holds anything is told once, with its reason, how
/// many command buffers went and the queue's error; an empty group is not
/// flushed at all.
pub proof fn flushes_are_told(
    s: EngineView,
    g: GroupView,
    reason: FlushReason,
    reply: Result<(), VkCode>,
)
    requires
        s.live,
        g.entries.len() <= usize::MAX,
    ensures
        g.entries.len() == 0 ==> s.flushed(g, reason, reply).outcomes == s.outcomes && g.flushed(
            reply,
        ) == g,
        g.entries.len() > 0 ==> {
            let told = s.flushed(g, reason, reply).outcomes;
            &&& told.len() == s.outcomes.len() + 1
            &&& told.drop_last() == s.outcomes
            &&& told.last().reason == reason
            &&& told.last().command_buffers == g.entries.len()
            &&& (told.last().error is Some) == (reply is Err)
            &&& reply is Err ==> told.last().error == Some(reply->Err_0)
        },
{
    if g.entries.len() > 0 {
        assert(s.flushed(g, reason, reply).outcomes.drop_last() =~= s.outcomes);
    }
}

/// Frames are counted: one more has been opened than closed exactly while one
/// is open, and each submitted frame has the next number.
pub proof fn frames_are_counted(
    s: EngineView,
    g: GroupView,
    fresh: Ticket,
    f: FrameView,
    reason: CloseReason,
)
    requires
        s.lifetime_opens < u64::MAX,
        s.lifetime_opens == s.lifetime_closes + if s.frame is Some {
            1int
        } else {
            0
        },
    ensures
        ({
            let o = s.frame_opened(g, fresh);
            o.frame is Some && o.lifetime_opens == o.lifetime_closes + 1
        }),
        s.frame is Some ==> {
            let c = close_committed(s, f, reason);
            &&& c.frame is None
            &&& c.lifetime_opens == c.lifetime_closes
            &&& c.frame_seq == (s.frame_seq + 1) % 0x1_0000_0000_0000_0000
            &&& c.frames.len() == s.frames.len() + 1
            &&& c.frames.last().frame_seq == c.frame_seq
            &&& c.frames.last().ticket == f.ticket
        },
{
}

/// A client waits for the exported fence when there is one, and is never told
/// that a copy is done because exporting the fence failed.
pub proof fn presents_wait_for_their_fence(export: Result<Option<i32>, VkCode>, fd: i32)
    ensures
        present_wait(export) == PresentBatchWait::Fd(fd) <==> export == Ok::<
            Option<i32>,
            VkCode,
        >(Some(fd)),
        export is Err ==> present_wait(export) == PresentBatchWait::Poll,
        present_wait(export) == PresentBatchWait::Ready ==> export == Ok::<
            Option<i32>,
            VkCode,
        >(None),
{
}

} // verus!
