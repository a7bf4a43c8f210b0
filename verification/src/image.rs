//! Uploads of client images and readbacks of storage images.

use vstd::prelude::*;

use crate::command::{
    barrier_to_layout, cmd_dst_to_read, cmd_src_to_read, cmd_to_transfer_src, dst_to_read,
    layout_run, scope, spec_barrier, spec_scope, src_to_read, to_transfer_src, Command, Layouts,
    ACCESS_SAMPLED_OR_ATTACHED, ACCESS_TRANSFER_WRITE, STAGE_ALL_COMMANDS, STAGE_COPY,
};
use crate::engine::{
    bump, bumped, Chore, CloseReason, EngineView, RenderEngine, Staging, SubmittedOp, SubmittedView,
};
use crate::error::{DrawableId, RenderError, VkCode};
use crate::geometry::{
    clamp_put_rect, clamp_rect, clamped, put_rect, put_rect_keeps_shared_pixels, Extent, Offset,
    Rect,
};
use crate::paint::{
    make_simple_upkeep, paint_abandoned, paint_engine, paint_group, paint_result, paint_store,
    simple_upkeep, target_check, Decision, PaintReply, Step,
};
use crate::store::{Drawable, DrawableStore, Format, Layout, StoreView, Ticket};
use crate::submit::{FlushReason, GroupView, SubmitGroup};
use crate::transfers::{
    clipping_reads_shared_part, packing_shows_pixels, readback_reads_its_rectangle, reads,
    shared_part, stages, upload_fills_its_rectangle, upload_stages_client_pixels, uploads,
    wire_shows,
};
use crate::wire::{
    canonical_wire, known_depth, pack_from_storage, pack_of_unpack, packed, row_bits, row_stride,
    storage_bpp, unpack_to_staging, unpacked, wire_len, x11_src_row_stride,
};

verus! {

/// The storage format of the images of a depth.
pub open spec fn storage_format(depth: u8) -> Format {
    if depth == 24 || depth == 32 {
        Format::B8G8R8A8Unorm
    } else {
        Format::R8Unorm
    }
}

fn format_of_depth(depth: u8) -> (r: Format)
    ensures
        r == storage_format(depth),
{
    if depth == 24 || depth == 32 {
        Format::B8G8R8A8Unorm
    } else {
        Format::R8Unorm
    }
}

fn is_known_depth(depth: u8) -> (r: bool)
    ensures
        r == known_depth(depth),
{
    depth == 1 || depth == 8 || depth == 24 || depth == 32
}

/// Why a source of `len` bytes cannot hold an image, if it cannot: every
/// scanline has to be there, whether it is visible or not.
pub open spec fn truncation(len: nat, extent: Extent, depth: u8) -> Option<RenderError> {
    let need = wire_len(depth, extent.width as int, extent.height as int);
    if need > len {
        Some(
            RenderError::TruncatedSource {
                expected: if need <= usize::MAX {
                    need as usize
                } else {
                    usize::MAX
                },
            },
        )
    } else {
        None
    }
}

fn find_truncation(len: usize, extent: Extent, depth: u8) -> (r: Option<RenderError>)
    requires
        row_bits(depth, extent.width as int) + 31 <= u32::MAX,
    ensures
        r == truncation(len as nat, extent, depth),
{
    let stride: usize = x11_src_row_stride(depth, extent.width);
    match stride.checked_mul(extent.height as usize) {
        None => {
            proof {
                assert(stride * extent.height > usize::MAX);
            }
            Some(RenderError::TruncatedSource { expected: usize::MAX })
        },
        Some(need) => if len < need {
            Some(RenderError::TruncatedSource { expected: need })
        } else {
            None
        },
    }
}

/// What an upload of a source of `len` bytes does next: it paints a rectangle
/// from the source pixel that lands in its corner.
pub open spec fn put_decision(
    s: EngineView,
    st: StoreView,
    g: GroupView,
    target: DrawableId,
    pos: Offset,
    extent: Extent,
    len: nat,
    depth: u8,
) -> Decision<(Rect, (u32, u32)), ()> {
    match s.frame_chore() {
        Some(c) => Decision::Chore(c),
        None => if extent.spec_is_empty() {
            Decision::Done(Ok(()))
        } else {
            match s.batch_chore() {
                Some(c) => Decision::Chore(c),
                None => match target_check(s, st, g, target) {
                    Err(e) => Decision::Done(Err(e)),
                    Ok(d) => if !known_depth(depth) || d.format != storage_format(depth) {
                        Decision::Done(Err(RenderError::UnsupportedDepth(depth)))
                    } else {
                        match truncation(len, extent, depth) {
                            Some(e) => Decision::Done(Err(e)),
                            None => match put_rect(pos, extent, d.extent) {
                                None => Decision::Done(Ok(())),
                                Some(x) => Decision::Paint(x),
                            },
                        }
                    },
                },
            }
        },
    }
}

/// The commands of an upload.
pub open spec fn put_commands(d: Drawable, buffer: u64, rect: Rect) -> Seq<Command> {
    seq![
        spec_barrier(
            d.image,
            d.layout,
            Layout::TransferDst,
            spec_scope(STAGE_ALL_COMMANDS, ACCESS_SAMPLED_OR_ATTACHED),
            spec_scope(STAGE_COPY, ACCESS_TRANSFER_WRITE),
        ),
        Command::CopyBufferToImage { buffer, image: d.image, to: rect.offset, extent: rect.extent },
        dst_to_read(d.image),
    ]
}

/// Records the commands of an upload.
pub fn record_put(d: &Drawable, buffer: u64, rect: Rect) -> (r: Vec<Command>)
    ensures
        r@ == put_commands(*d, buffer, rect),
        uploads(r@, *d, buffer, rect),
{
    let mut out: Vec<Command> = Vec::new();
    out.push(
        barrier_to_layout(
            d.image,
            d.layout,
            Layout::TransferDst,
            scope(STAGE_ALL_COMMANDS, ACCESS_SAMPLED_OR_ATTACHED),
            scope(STAGE_COPY, ACCESS_TRANSFER_WRITE),
        ),
    );
    out.push(
        Command::CopyBufferToImage { buffer, image: d.image, to: rect.offset, extent: rect.extent },
    );
    out.push(cmd_dst_to_read(d.image));
    proof {
        assert(out@ =~= put_commands(*d, buffer, rect));
        upload_fills_its_rectangle(*d, buffer, rect);
    }
    out
}

/// What an upload needs from the device.
pub struct PutPlan {
    /// The size of the staging buffer.
    pub staging_size: u64,
    /// What goes into the staging buffer.
    pub bytes: Vec<u8>,
    pub rect: Rect,
}

/// The device's answers to an upload.
#[derive(Clone, Copy)]
pub struct PutReply {
    pub staging: Result<Staging, VkCode>,
    /// The answers to the command buffer, where it came to one.
    pub paint: PaintReply,
}

impl RenderEngine {
    /// What an upload does next.
    pub fn put_image_plan(
        &self,
        store: &DrawableStore,
        group: &SubmitGroup,
        target: DrawableId,
        dst_pos: Offset,
        src_extent: Extent,
        src_bytes: &[u8],
        src_depth: u8,
    ) -> (r: Decision<PutPlan, ()>)
        requires
            known_depth(src_depth) ==> row_bits(src_depth, src_extent.width as int) + 31
                <= u32::MAX,
        ensures
            match put_decision(
                self@,
                store@,
                group@,
                target,
                dst_pos,
                src_extent,
                src_bytes@.len(),
                src_depth,
            ) {
                Decision::Chore(c) => r == Decision::<PutPlan, ()>::Chore(c),
                Decision::Done(x) => r == Decision::<PutPlan, ()>::Done(x),
                Decision::Paint((rect, (sx, sy))) => r matches Decision::Paint(p) && p.rect == rect
                    && p.staging_size == rect.extent.width * rect.extent.height * storage_bpp(
                    src_depth,
                ) && p.bytes@ == unpacked(
                    src_bytes@,
                    src_extent.width as int,
                    src_depth,
                    sx as int,
                    sy as int,
                    rect.extent.width as int,
                    rect.extent.height as int,
                ) && stages(
                    p.rect,
                    p.bytes@,
                    store@.get(target)->0.extent,
                    dst_pos,
                    src_extent,
                    src_bytes@,
                    src_depth,
                ),
            },
    {
        match self.close_open_frame_for_own_buffer() {
            Some(c) => {
                return Decision::Chore(c);
            },
            None => {},
        }
        if src_extent.is_empty() {
            return Decision::Done(Ok(()));
        }
        match self.batch_chore() {
            Some(c) => {
                return Decision::Chore(c);
            },
            None => {},
        }
        let d = match self.check_target(store, group, target) {
            Ok(d) => d,
            Err(e) => {
                return Decision::Done(Err(e));
            },
        };
        if !is_known_depth(src_depth) || d.format != format_of_depth(src_depth) {
            return Decision::Done(Err(RenderError::UnsupportedDepth(src_depth)));
        }
        match find_truncation(src_bytes.len(), src_extent, src_depth) {
            Some(e) => {
                return Decision::Done(Err(e));
            },
            None => {},
        }
        match clamp_put_rect(dst_pos, src_extent, d.extent) {
            None => Decision::Done(Ok(())),
            Some(placed) => {
                let rect = placed.0;
                let sx: u32 = placed.1.0;
                let sy: u32 = placed.1.1;
                proof {
                    put_rect_keeps_shared_pixels(dst_pos, src_extent, d.extent, 0, 0);
                    lemma_fewer_rows(
                        row_stride(src_depth, src_extent.width as int),
                        sy + rect.extent.height,
                        src_extent.height as int,
                    );
                }
                let bytes = match unpack_to_staging(
                    src_bytes,
                    src_extent,
                    sx,
                    sy,
                    rect.extent.width,
                    rect.extent.height,
                    src_depth,
                ) {
                    Ok(bytes) => bytes,
                    Err(e) => {
                        return Decision::Done(Err(e));
                    },
                };
                let bpp: u64 = if src_depth == 24 || src_depth == 32 {
                    4
                } else {
                    1
                };
                proof {
                    lemma_image_size(rect.extent.width, rect.extent.height, bpp as int);
                    upload_stages_client_pixels(
                        d.extent,
                        dst_pos,
                        src_extent,
                        src_bytes@,
                        src_depth,
                    );
                }
                let staging_size: u64 = rect.extent.width as u64 * rect.extent.height as u64 * bpp;
                Decision::Paint(PutPlan { staging_size, bytes, rect })
            },
        }
    }

    /// Uploads a client image. The staging buffer stays with the command
    /// buffer until that retires.
    pub fn put_image(
        &mut self,
        store: &mut DrawableStore,
        group: &mut SubmitGroup,
        target: DrawableId,
        dst_pos: Offset,
        src_extent: Extent,
        src_bytes: &[u8],
        src_depth: u8,
        reply: PutReply,
    ) -> (r: Step<()>)
        requires
            known_depth(src_depth) ==> row_bits(src_depth, src_extent.width as int) + 31
                <= u32::MAX,
        ensures
            match put_decision(
                old(self)@,
                old(store)@,
                old(group)@,
                target,
                dst_pos,
                src_extent,
                src_bytes@.len(),
                src_depth,
            ) {
                Decision::Chore(c) => r == Step::<()>::Chore(c) && final(self)@ == old(self)@
                    && final(store)@ == old(store)@ && final(group)@ == old(group)@,
                Decision::Done(x) => r == Step::Done(x) && final(self)@ == old(self)@
                    && final(store)@ == old(store)@ && final(group)@ == old(group)@,
                Decision::Paint((rect, _)) => match reply.staging {
                    Err(e) => r == Step::<()>::Done(Err(RenderError::Vk(e))) && final(self)@ == old(
                        self)@ && final(store)@ == old(store)@ && final(group)@ == old(group)@,
                    Ok(staging) => {
                        let up = simple_upkeep(target, seq![rect], Some(staging));
                        &&& final(self)@ == paint_engine(old(self)@, old(group)@, up, reply.paint)
                        &&& final(store)@ == paint_store(old(store)@, old(group)@, up, reply.paint)
                        &&& final(group)@ == paint_group(old(group)@, reply.paint)
                        &&& r == Step::Done(paint_result(old(group)@, reply.paint))
                    },
                },
            },
    {
        match self.put_image_plan(
            store,
            group,
            target,
            dst_pos,
            src_extent,
            src_bytes,
            src_depth,
        ) {
            Decision::Chore(c) => Step::Chore(c),
            Decision::Done(x) => Step::Done(x),
            Decision::Paint(plan) => {
                let staging = match reply.staging {
                    Ok(staging) => staging,
                    Err(e) => {
                        return Step::Done(Err(RenderError::Vk(e)));
                    },
                };
                let mut damage: Vec<Rect> = Vec::new();
                damage.push(plan.rect);
                proof {
                    assert(damage@ =~= seq![plan.rect]);
                }
                let up = make_simple_upkeep(target, damage, Some(staging));
                Step::Done(self.commit_paint(store, group, up, reply.paint))
            },
        }
    }
}

proof fn lemma_fewer_rows(stride: int, rows: int, all: int)
    requires
        0 <= stride,
        rows <= all,
    ensures
        stride * rows <= stride * all,
{
    assert(stride * rows <= stride * all) by (nonlinear_arith)
        requires
            0 <= stride,
            rows <= all,
    ;
}

proof fn lemma_image_size(w: u32, h: u32, bpp: int)
    requires
        bpp == 1 || bpp == 4,
        w <= i32::MAX,
        h <= i32::MAX,
    ensures
        0 <= w * h * bpp <= u64::MAX,
        0 <= w * h <= u64::MAX,
{
    assert(w * h <= 0x7fff_ffff * 0x7fff_ffff) by (nonlinear_arith)
        requires
            w <= 0x7fff_ffff,
            h <= 0x7fff_ffff,
    ;
    assert(0 <= w * h) by (nonlinear_arith)
        requires
            0 <= w,
            0 <= h,
    ;
}

/// What a readback does next: it reads a rectangle. Everything recorded
/// before has to be submitted first.
pub open spec fn get_decision(
    s: EngineView,
    st: StoreView,
    g: GroupView,
    src: DrawableId,
    rect: Rect,
    depth: u8,
) -> Decision<Rect, Seq<u8>> {
    match s.batch_chore() {
        Some(c) => Decision::Chore(c),
        None => if s.frame is Some {
            Decision::Chore(Chore::CloseFrame(CloseReason::SyncWait))
        } else if g.entries.len() > 0 {
            Decision::Chore(Chore::FlushGroup(FlushReason::SyncBoundary))
        } else {
            match target_check(s, st, g, src) {
                Err(e) => Decision::Done(Err(e)),
                Ok(d) => if !known_depth(depth) {
                    Decision::Done(Err(RenderError::UnsupportedDepth(depth)))
                } else if clamped(rect, d.extent).extent.spec_is_empty() {
                    Decision::Done(Ok(Seq::empty()))
                } else {
                    Decision::Paint(clamped(rect, d.extent))
                },
            }
        },
    }
}

/// The commands of a readback.
pub open spec fn get_commands(d: Drawable, buffer: u64, rect: Rect) -> Seq<Command> {
    seq![
        to_transfer_src(d.image, d.layout),
        Command::CopyImageToBuffer {
            image: d.image,
            buffer,
            from: rect.offset,
            extent: rect.extent,
        },
        src_to_read(d.image),
    ]
}

/// Records the commands of a readback.
pub fn record_get(d: &Drawable, buffer: u64, rect: Rect) -> (r: Vec<Command>)
    ensures
        r@ == get_commands(*d, buffer, rect),
        reads(r@, *d, buffer, rect),
{
    let mut out: Vec<Command> = Vec::new();
    out.push(cmd_to_transfer_src(d.image, d.layout));
    out.push(
        Command::CopyImageToBuffer {
            image: d.image,
            buffer,
            from: rect.offset,
            extent: rect.extent,
        },
    );
    out.push(cmd_src_to_read(d.image));
    proof {
        assert(out@ =~= get_commands(*d, buffer, rect));
        readback_reads_its_rectangle(*d, buffer, rect);
    }
    out
}

/// What a readback needs from the device.
pub struct GetPlan {
    /// The size of the staging buffer.
    pub staging_size: u64,
    pub rect: Rect,
}

/// The device's answers to a readback.
pub enum GetReply {
    /// No staging buffer, or no command buffer, could be had.
    Failed(RenderError),
    /// The commands were recorded into `cb`; see [`PaintReply`]. `submit` is
    /// the queue's answer, `wait` how waiting for the ticket ended, and
    /// `bytes` what the staging buffer then held.
    Recorded {
        staging: Staging,
        cb: u64,
        fresh: Ticket,
        end: Result<(), VkCode>,
        submit: Result<(), VkCode>,
        wait: Result<(), VkCode>,
        bytes: Vec<u8>,
    },
}

/// The bytes of a tight image.
pub open spec fn image_size(extent: Extent, depth: u8) -> int {
    extent.width * extent.height * storage_bpp(depth)
}

/// Whether the bytes of a reply are those of the rectangle that was read, and
/// few enough for their wire image to exist.
pub open spec fn reply_fits(reply: GetReply, rect: Rect, depth: u8) -> bool {
    match reply {
        GetReply::Failed(_) => true,
        GetReply::Recorded { bytes, .. } => bytes@.len() == image_size(rect.extent, depth)
            && wire_len(depth, rect.extent.width as int, rect.extent.height as int) <= usize::MAX,
    }
}

/// The store after a readback.
pub open spec fn get_store(
    st: StoreView,
    g: GroupView,
    src: DrawableId,
    reply: GetReply,
) -> StoreView {
    match reply {
        GetReply::Failed(_) => st,
        GetReply::Recorded { fresh, end, .. } => {
            let laid = st.with_layout(src, Layout::ShaderReadOnly);
            if end is Err {
                laid
            } else {
                laid.with_ticket(src, Some(g.ticket_or(fresh)))
            }
        },
    }
}

/// The group after a readback, which is always submitted.
pub open spec fn get_group(g: GroupView, reply: GetReply) -> GroupView {
    match reply {
        GetReply::Failed(_) => g,
        GetReply::Recorded { cb, fresh, end, submit, .. } => if end is Err {
            g.opened(fresh)
        } else {
            g.opened(fresh).appended(cb).flushed(submit)
        },
    }
}

/// The engine after a readback. Its command buffer has completed, so it is
/// not parked: it counts as submitted at once.
pub open spec fn get_engine(s: EngineView, g: GroupView, reply: GetReply) -> EngineView {
    match reply {
        GetReply::Failed(_) => s,
        GetReply::Recorded { staging, cb, fresh, end, submit, wait, .. } => if end is Err {
            paint_abandoned(s, Some(staging))
        } else {
            let flushed = s.flushed(
                g.opened(fresh).appended(cb),
                FlushReason::SyncBoundary,
                submit,
            );
            if submit is Err || wait is Err {
                paint_abandoned(flushed, Some(staging))
            } else {
                EngineView {
                    generation: bumped(s.generation),
                    submitted: flushed.submitted.push(
                        SubmittedView {
                            cb,
                            ticket: g.ticket_or(fresh),
                            staging: Some(staging),
                            scratch: Seq::empty(),
                            atlas_ticket: None,
                            generation: bumped(s.generation),
                            retired: Seq::empty(),
                        },
                    ),
                    ..flushed
                }
            }
        },
    }
}

/// The result of a readback.
pub open spec fn get_result(rect: Rect, depth: u8, reply: GetReply) -> Result<Seq<u8>, RenderError> {
    match reply {
        GetReply::Failed(e) => Err(e),
        GetReply::Recorded { end, submit, wait, bytes, .. } => match end {
            Err(e) => Err(RenderError::Vk(e)),
            Ok(_) => match submit {
                Err(e) => Err(RenderError::Vk(e)),
                Ok(_) => match wait {
                    Err(e) => Err(RenderError::Vk(e)),
                    Ok(_) => Ok(
                        packed(
                            bytes@,
                            rect.extent.width as int,
                            rect.extent.height as int,
                            depth,
                        ),
                    ),
                },
            },
        },
    }
}

/// Whether a step has the given outcome.
pub open spec fn step_bytes(r: Step<Vec<u8>>, x: Result<Seq<u8>, RenderError>) -> bool {
    match r {
        Step::Chore(_) => false,
        Step::Done(Ok(v)) => x == Ok::<Seq<u8>, RenderError>(v@),
        Step::Done(Err(e)) => x == Err::<Seq<u8>, RenderError>(e),
    }
}

impl RenderEngine {
    /// What a readback does next.
    pub fn get_image_plan(
        &self,
        store: &DrawableStore,
        group: &SubmitGroup,
        src: DrawableId,
        rect: Rect,
        out_depth: u8,
    ) -> (r: Decision<GetPlan, Vec<u8>>)
        ensures
            match get_decision(self@, store@, group@, src, rect, out_depth) {
                Decision::Chore(c) => r == Decision::<GetPlan, Vec<u8>>::Chore(c),
                Decision::Done(Ok(b)) => r matches Decision::Done(Ok(v)) && v@ == b,
                Decision::Done(Err(e)) => r == Decision::<GetPlan, Vec<u8>>::Done(Err(e)),
                Decision::Paint(clipped) => r matches Decision::Paint(p) && p.rect == clipped
                    && p.staging_size == image_size(clipped.extent, out_depth) && shared_part(
                    p.rect,
                    rect,
                    store@.get(src)->0.extent,
                ),
            },
    {
        match self.batch_chore() {
            Some(c) => {
                return Decision::Chore(c);
            },
            None => {},
        }
        if self.frame.is_some() {
            return Decision::Chore(Chore::CloseFrame(CloseReason::SyncWait));
        }
        if group.size() > 0 {
            return Decision::Chore(Chore::FlushGroup(FlushReason::SyncBoundary));
        }
        let d = match self.check_target(store, group, src) {
            Ok(d) => d,
            Err(e) => {
                return Decision::Done(Err(e));
            },
        };
        if !is_known_depth(out_depth) {
            return Decision::Done(Err(RenderError::UnsupportedDepth(out_depth)));
        }
        let clipped = clamp_rect(rect, d.extent);
        if clipped.extent.is_empty() {
            let none: Vec<u8> = Vec::new();
            proof {
                assert(none@ =~= Seq::empty());
            }
            return Decision::Done(Ok(none));
        }
        let bpp: u64 = if out_depth == 24 || out_depth == 32 {
            4
        } else {
            1
        };
        proof {
            lemma_image_size(clipped.extent.width, clipped.extent.height, bpp as int);
        }
        let staging_size: u64 = clipped.extent.width as u64 * clipped.extent.height as u64 * bpp;
        proof {
            clipping_reads_shared_part(rect, d.extent);
        }
        Decision::Paint(GetPlan { staging_size, rect: clipped })
    }

    /// Reads a part of a drawable back, as a wire image. Waits for the device.
    pub fn get_image(
        &mut self,
        store: &mut DrawableStore,
        group: &mut SubmitGroup,
        src: DrawableId,
        rect: Rect,
        out_depth: u8,
        reply: GetReply,
    ) -> (r: Step<Vec<u8>>)
        requires
            get_decision(old(self)@, old(store)@, old(group)@, src, rect, out_depth) matches
                Decision::Paint(clipped) ==> reply_fits(reply, clipped, out_depth),
        ensures
            match get_decision(old(self)@, old(store)@, old(group)@, src, rect, out_depth) {
                Decision::Chore(c) => r == Step::<Vec<u8>>::Chore(c) && final(self)@ == old(self)@
                    && final(store)@ == old(store)@ && final(group)@ == old(group)@,
                Decision::Done(x) => step_bytes(r, x) && final(self)@ == old(self)@ && final(
                    store)@ == old(store)@ && final(group)@ == old(group)@,
                Decision::Paint(clipped) => {
                    &&& final(self)@ == get_engine(old(self)@, old(group)@, reply)
                    &&& final(store)@ == get_store(old(store)@, old(group)@, src, reply)
                    &&& final(group)@ == get_group(old(group)@, reply)
                    &&& step_bytes(r, get_result(clipped, out_depth, reply))
                    &&& r matches Step::Done(Ok(v)) ==> reply is Recorded && wire_shows(
                        v@,
                        reply->bytes@,
                        clipped.extent.width as int,
                        clipped.extent.height as int,
                        out_depth,
                    )
                },
            },
    {
        let ghost s = self@;
        let plan = match self.get_image_plan(store, group, src, rect, out_depth) {
            Decision::Chore(c) => {
                return Step::Chore(c);
            },
            Decision::Done(x) => {
                return Step::Done(x);
            },
            Decision::Paint(plan) => plan,
        };
        match reply {
            GetReply::Failed(e) => Step::Done(Err(e)),
            GetReply::Recorded { staging, cb, fresh, end, submit, wait, bytes } => {
                let ticket = group.ticket_or_open(fresh);
                store.set_layout(src, Layout::ShaderReadOnly);
                match end {
                    Err(e) => {
                        self.abandon(Some(staging));
                        return Step::Done(Err(RenderError::Vk(e)));
                    },
                    Ok(_) => {},
                }
                group.append(cb);
                store.touch_render_fence(src, ticket);
                match self.flush_submit_group(group, FlushReason::SyncBoundary, submit) {
                    Err(e) => {
                        self.abandon(Some(staging));
                        return Step::Done(Err(RenderError::Vk(e)));
                    },
                    Ok(_) => {},
                }
                let ghost flushed = self@;
                match wait {
                    Err(e) => {
                        self.abandon(Some(staging));
                        return Step::Done(Err(RenderError::Vk(e)));
                    },
                    Ok(_) => {},
                }
                let w: u32 = plan.rect.extent.width;
                let h: u32 = plan.rect.extent.height;
                let out = pack_from_storage(bytes.as_slice(), w, h, out_depth);
                proof {
                    let n = storage_bpp(out_depth);
                    assert(w * h * n == w * n * h) by (nonlinear_arith);
                    packing_shows_pixels(bytes@, w as int, h as int, out_depth);
                }
                self.acquire_generation = bump(self.acquire_generation);
                let op = SubmittedOp {
                    cb,
                    ticket,
                    staging: Some(staging),
                    scratch: Vec::new(),
                    atlas_ticket: None,
                    generation: self.acquire_generation,
                    retired: Vec::new(),
                };
                self.submitted.push(op);
                proof {
                    assert(op@.scratch =~= Seq::empty());
                    assert(op@.retired =~= Seq::empty());
                    assert(self@.submitted =~= flushed.submitted.push(op@));
                    assert(self@ =~= get_engine(s, old(group)@, reply));
                }
                Step::Done(out)
            },
        }
    }
}

/// An upload and a readback each use the image in the layout that it is in
/// and leave it to be sampled.
pub proof fn transfer_layouts(d: Drawable, buffer: u64, rect: Rect, m: Layouts)
    requires
        m[d.image] == d.layout,
    ensures
        layout_run(m, put_commands(d, buffer, rect)) == Some(
            m.insert(d.image, Layout::TransferDst).insert(d.image, Layout::ShaderReadOnly),
        ),
        layout_run(m, get_commands(d, buffer, rect)) == Some(
            m.insert(d.image, Layout::TransferSrc).insert(d.image, Layout::ShaderReadOnly),
        ),
{
    reveal_with_fuel(layout_run, 4);
    assert(put_commands(d, buffer, rect).len() == 3);
    assert(get_commands(d, buffer, rect).len() == 3);
}

/// The bytes of an image by position: column, row, and byte of the pixel.
pub type ImageBytes = spec_fn(int, int, int) -> u8;

/// An image after tight bytes were copied into a rectangle.
pub open spec fn with_rect(img: ImageBytes, rect: Rect, bpp: int, bytes: Seq<u8>) -> ImageBytes {
    |x: int, y: int, k: int|
        if rect.covers(x, y) && 0 <= k < bpp {
            bytes[(y - rect.offset.y) * (rect.extent.width * bpp) + ((x - rect.offset.x) * bpp + k)]
        } else {
            img(x, y, k)
        }
}

/// The tight bytes of a rectangle of an image.
pub open spec fn rect_bytes(img: ImageBytes, rect: Rect, bpp: int) -> Seq<u8> {
    let rb = rect.extent.width * bpp;
    Seq::new(
        (rb * rect.extent.height) as nat,
        |i: int|
            img(
                rect.offset.x + (i % rb) / bpp,
                rect.offset.y + i / rb,
                (i % rb) % bpp,
            ),
    )
}

/// Reading a rectangle gives back the bytes that were copied into it.
pub proof fn read_back_what_was_copied(img: ImageBytes, rect: Rect, bpp: int, bytes: Seq<u8>)
    requires
        bpp == 1 || bpp == 4,
        bytes.len() == rect.extent.width * bpp * rect.extent.height,
    ensures
        rect_bytes(with_rect(img, rect, bpp, bytes), rect, bpp) == bytes,
{
    let w = rect.extent.width as int;
    let h = rect.extent.height as int;
    let rb = w * bpp;
    let out = rect_bytes(with_rect(img, rect, bpp, bytes), rect, bpp);
    assert(out.len() == bytes.len());
    assert forall|i: int| 0 <= i < out.len() implies out[i] == bytes[i] by {
        assert(0 < rb) by (nonlinear_arith)
            requires
                0 <= i < rb * h,
                0 <= rb,
                0 <= h,
        ;
        vstd::arithmetic::div_mod::lemma_fundamental_div_mod(i, rb);
        vstd::arithmetic::mul::lemma_mul_is_commutative(rb, i / rb);
        vstd::arithmetic::div_mod::lemma_div_pos_is_pos(i, rb);
        assert(i / rb < h) by (nonlinear_arith)
            requires
                i == i / rb * rb + i % rb,
                0 <= i % rb,
                i < rb * h,
                0 < rb,
        ;
        let off = i % rb;
        assert(0 <= off < rb);
        if bpp == 4 {
            assert(off / 4 * 4 + off % 4 == off);
            assert(off / 4 < w);
        } else {
            assert(off / 1 == off && off % 1 == 0);
        }
    }
    assert(out =~= bytes);
}

/// Reading back an image that was uploaded as a whole gives the uploaded wire
/// image, up to its padding: uploads keep neither padding nor unused alpha.
pub proof fn get_returns_what_put_stored(
    img: ImageBytes,
    rect: Rect,
    depth: u8,
    src: Seq<u8>,
)
    requires
        known_depth(depth),
        canonical_wire(src, rect.extent.width as int, rect.extent.height as int, depth),
    ensures
        ({
            let w = rect.extent.width as int;
            let h = rect.extent.height as int;
            let bpp = storage_bpp(depth);
            let stored = with_rect(img, rect, bpp, unpacked(src, w, depth, 0, 0, w, h));
            packed(rect_bytes(stored, rect, bpp), w, h, depth) == src
        }),
{
    let w = rect.extent.width as int;
    let h = rect.extent.height as int;
    let bpp = storage_bpp(depth);
    let bytes = unpacked(src, w, depth, 0, 0, w, h);
    assert(0 <= w * bpp * h) by (nonlinear_arith)
        requires
            0 <= w,
            0 <= h,
            0 <= bpp,
    ;
    assert(bytes.len() == w * bpp * h);
    read_back_what_was_copied(img, rect, bpp, bytes);
    pack_of_unpack(src, w, h, depth);
}

} // verus!
