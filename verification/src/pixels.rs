//! Copies put every pixel where it was asked for.

use vstd::prelude::*;

use crate::command::{
    copy_area_commands, copy_area_pixels, disjoint_copy_commands, image_copy, origin, pixel_run,
    pixel_step, self_copy_commands, Command, Pixels, RecordedCopyArea, ScratchImage,
};
use crate::copy::{
    copy_decision, copy_frame, copy_geometry, copy_record, copy_referring, CopyGeometry,
};
use crate::cow::{cow_commands, cow_copy, cow_decision};
use crate::device::{
    device_run, device_run_concat, device_run_one, device_run_two, device_step, pixel_after,
    Device, Shading,
};
use crate::engine::{CowBatchView, EngineView};
use crate::error::{DrawableId, RenderError};
use crate::frame::{frame_commands, FrameView, OpView};
use crate::geometry::{copy_keeps_shared_pixels, copy_source, copy_writes, Offset, Rect};
use crate::paint::Decision;
use crate::store::{Drawable, StoreView};
use crate::submit::GroupView;

verus! {

/// A pixel of the destination after a copy of `rect` in `src` to `pos` in
/// `dst`: the source pixel at the same distance from the corner, where both
/// lie inside, else what it was.
pub open spec fn pixel_after_copy(
    before: Map<u64, Pixels>,
    src: Drawable,
    dst: Drawable,
    rect: Rect,
    pos: Offset,
    x: int,
    y: int,
) -> int {
    if copy_writes(rect, src.extent, pos, dst.extent, x, y) {
        (before[src.image])(
            copy_source(rect.offset.x as int, pos.x as int, x),
            copy_source(rect.offset.y as int, pos.y as int, y),
        )
    } else {
        (before[dst.image])(x, y)
    }
}

/// A copy into a frame puts every pixel where it was asked for, also within
/// one drawable and also where the request reaches over an edge of either
/// image. A separate source is unchanged. A copy that is not recorded had
/// nothing to write.
pub proof fn copy_moves_pixels(
    f: FrameView,
    st: StoreView,
    src: DrawableId,
    dst: DrawableId,
    rect: Rect,
    pos: Offset,
    scratch: Option<ScratchImage>,
    m: Map<u64, Pixels>,
    x: int,
    y: int,
)
    requires
        st.has(src),
        st.has(dst),
        src != dst ==> st.get(src)->0.image != st.get(dst)->0.image && scratch is None,
        src == dst ==> (scratch matches Some(i) && i.image != st.get(src)->0.image),
    ensures
        ({
            let s = st.get(src)->0;
            let d = st.get(dst)->0;
            match copy_geometry(s, d, rect, pos) {
                None => pixel_after_copy(m, s, d, rect, pos, x, y) == (m[d.image])(x, y),
                Some(c) => {
                    let end = pixel_run(
                        m,
                        copy_area_commands(copy_record(f, st, src, dst, c, scratch)),
                    );
                    &&& (end[d.image])(x, y) == pixel_after_copy(m, s, d, rect, pos, x, y)
                    &&& src != dst ==> end[s.image] == m[s.image]
                },
            }
        }),
{
    let s = st.get(src)->0;
    let d = st.get(dst)->0;
    copy_keeps_shared_pixels(rect, s.extent, pos, d.extent, x, y);
    if let Some(c) = copy_geometry(s, d, rect, pos) {
        copy_area_pixels(copy_record(f, st, src, dst, c, scratch), m, x, y);
    }
}

/// A frame replays a copy after everything that was recorded before it.
pub proof fn copy_is_replayed_last(
    f: FrameView,
    st: StoreView,
    now: StoreView,
    text_ready: bool,
    src: DrawableId,
    dst: DrawableId,
    c: CopyGeometry,
    scratch: Option<ScratchImage>,
)
    ensures
        frame_commands(now, text_ready, copy_frame(f, st, src, dst, c, scratch).ops)
            == match frame_commands(now, text_ready, f.ops) {
            Err(e) => Err::<Seq<Command>, RenderError>(e),
            Ok(head) => Ok(
                head + copy_area_commands(
                    copy_record(copy_referring(f, st, src, dst), st, src, dst, c, scratch),
                ),
            ),
        },
{
    let ops = copy_frame(f, st, src, dst, c, scratch).ops;
    let op = OpView::CopyArea(
        copy_record(copy_referring(f, st, src, dst), st, src, dst, c, scratch),
    );
    assert(ops =~= f.ops.push(op));
    assert(ops.drop_last() =~= f.ops);
}

/// A copy to the overlay window puts every pixel where it was asked for, also
/// where the request reaches over an edge of either image. The source is
/// unchanged. A copy that is not recorded had nothing to write.
pub proof fn cow_copy_moves_pixels(
    batch: Option<CowBatchView>,
    st: StoreView,
    src: DrawableId,
    cow: DrawableId,
    rect: Rect,
    pos: Offset,
    m: Map<u64, Pixels>,
    x: int,
    y: int,
)
    requires
        st.has(src),
        st.has(cow),
        st.get(src)->0.image != st.get(cow)->0.image,
    ensures
        ({
            let s = st.get(src)->0;
            let d = st.get(cow)->0;
            match copy_geometry(s, d, rect, pos) {
                None => pixel_after_copy(m, s, d, rect, pos, x, y) == (m[d.image])(x, y),
                Some(c) => {
                    let end = pixel_run(m, cow_commands(batch, src, c));
                    &&& (end[d.image])(x, y) == pixel_after_copy(m, s, d, rect, pos, x, y)
                    &&& end[s.image] == m[s.image]
                },
            }
        }),
{
    let s = st.get(src)->0;
    let d = st.get(cow)->0;
    copy_keeps_shared_pixels(rect, s.extent, pos, d.extent, x, y);
    if let Some(c) = copy_geometry(s, d, rect, pos) {
        let cmds = cow_commands(batch, src, c);
        reveal_with_fuel(pixel_run, 4);
        assert(cmds.last() == cow_copy(c));
        assert(pixel_run(m, cmds.drop_last()) == m);
        assert(pixel_run(m, cmds) == pixel_step(m, cow_copy(c)));
    }
}

/// Whether commands copy a rectangle of one drawable to a position in another,
/// or in itself, and change no other pixel of any image but the scratch
/// image.
pub open spec fn copies(
    cmds: Seq<Command>,
    src: Drawable,
    dst: Drawable,
    rect: Rect,
    pos: Offset,
    scratch: Option<u64>,
) -> bool {
    forall|sh: Shading, dev: Device, image: u64, x: int, y: int|
        scratch != Some(image) ==> #[trigger] pixel_after(sh, dev, cmds, image, x, y) == if image
            == dst.image && copy_writes(rect, src.extent, pos, dst.extent, x, y) {
            (dev.images[src.image])(
                copy_source(rect.offset.x as int, pos.x as int, x),
                copy_source(rect.offset.y as int, pos.y as int, y),
            )
        } else {
            (dev.images[image])(x, y)
        }
}

/// A copy that joins a batch of overlay copies puts every pixel where it was
/// asked for.
pub proof fn cow_copies(
    batch: Option<CowBatchView>,
    src_id: DrawableId,
    src: Drawable,
    dst: Drawable,
    rect: Rect,
    pos: Offset,
)
    requires
        src.image != dst.image,
    ensures
        copy_geometry(src, dst, rect, pos) matches Some(c) ==> copies(
            cow_commands(batch, src_id, c),
            src,
            dst,
            rect,
            pos,
            None,
        ),
{
    if let Some(c) = copy_geometry(src, dst, rect, pos) {
        let cmds = cow_commands(batch, src_id, c);
        assert forall|sh: Shading, dev: Device, image: u64, x: int, y: int|
            None::<u64> != Some(image) implies #[trigger] pixel_after(sh, dev, cmds, image, x, y)
            == if image == dst.image && copy_writes(rect, src.extent, pos, dst.extent, x, y) {
            (dev.images[src.image])(
                copy_source(rect.offset.x as int, pos.x as int, x),
                copy_source(rect.offset.y as int, pos.y as int, y),
            )
        } else {
            (dev.images[image])(x, y)
        } by {
            copy_keeps_shared_pixels(rect, src.extent, pos, dst.extent, x, y);
            let head = cmds.drop_last();
            assert(cmds =~= head + seq![cow_copy(c)]);
            if head.len() == 2 {
                device_run_two(sh, dev, head);
            } else if head.len() == 1 {
                assert(head =~= seq![head[0]]);
                device_run_one(sh, dev, head[0]);
            } else {
                assert(head =~= Seq::empty());
            }
            device_run_concat(sh, dev, head, seq![cow_copy(c)]);
            device_run_one(sh, dev, cow_copy(c));
        }
    }
}

proof fn disjoint_copy_runs(sh: Shading, dev: Device, ca: RecordedCopyArea)
    ensures
        device_run(sh, dev, disjoint_copy_commands(ca)) == device_step(
            sh,
            dev,
            image_copy(ca.src_image, ca.dst_image, ca.src_rect.offset, ca.dst_rect),
        ),
{
    let cmds = disjoint_copy_commands(ca);
    let a = cmds.take(2);
    let b = cmds.subrange(2, 4);
    let z = seq![cmds[4]];
    assert(cmds =~= a + b + z);
    device_run_two(sh, dev, a);
    device_run_concat(sh, dev, a, b);
    device_run_two(sh, dev, b);
    device_run_concat(sh, dev, a + b, z);
    device_run_one(sh, device_run(sh, dev, b), cmds[4]);
}

proof fn self_copy_runs(sh: Shading, dev: Device, ca: RecordedCopyArea, scratch: u64)
    ensures
        device_run(sh, dev, self_copy_commands(ca, scratch)) == device_step(
            sh,
            device_step(
                sh,
                dev,
                image_copy(
                    ca.src_image,
                    scratch,
                    ca.src_rect.offset,
                    Rect { offset: origin(), extent: ca.dst_rect.extent },
                ),
            ),
            image_copy(scratch, ca.src_image, origin(), ca.dst_rect),
        ),
{
    let cmds = self_copy_commands(ca, scratch);
    let a = cmds.take(2);
    let b = cmds.subrange(2, 4);
    let e = cmds.subrange(4, 6);
    let z = seq![cmds[6]];
    assert(cmds =~= a + b + e + z);
    device_run_two(sh, dev, a);
    device_run_concat(sh, dev, a, b);
    device_run_two(sh, dev, b);
    let mid = device_run(sh, dev, b);
    device_run_concat(sh, dev, a + b, e);
    device_run_two(sh, mid, e);
    device_run_concat(sh, dev, a + b + e, z);
    device_run_one(sh, device_run(sh, mid, e), cmds[6]);
}

/// A copy that a frame replays puts every pixel where it was asked for, also
/// within one image.
pub proof fn recorded_copy_copies(
    f: FrameView,
    st: StoreView,
    src: DrawableId,
    dst: DrawableId,
    rect: Rect,
    pos: Offset,
    scratch: Option<ScratchImage>,
)
    requires
        st.has(src),
        st.has(dst),
        src != dst ==> st.get(src)->0.image != st.get(dst)->0.image && scratch is None,
        src == dst ==> (scratch matches Some(i) && i.image != st.get(src)->0.image),
    ensures
        copy_geometry(st.get(src)->0, st.get(dst)->0, rect, pos) matches Some(c) ==> copies(
            copy_area_commands(copy_record(f, st, src, dst, c, scratch)),
            st.get(src)->0,
            st.get(dst)->0,
            rect,
            pos,
            match scratch {
                Some(i) => Some(i.image),
                None => None,
            },
        ),
{
    let s = st.get(src)->0;
    let d = st.get(dst)->0;
    let spare = match scratch {
        Some(i) => Some(i.image),
        None => None,
    };
    if let Some(c) = copy_geometry(s, d, rect, pos) {
        let ca = copy_record(f, st, src, dst, c, scratch);
        let cmds = copy_area_commands(ca);
        assert forall|sh: Shading, dev: Device, image: u64, x: int, y: int|
            spare != Some(image) implies #[trigger] pixel_after(sh, dev, cmds, image, x, y)
            == if image == d.image && copy_writes(rect, s.extent, pos, d.extent, x, y) {
            (dev.images[s.image])(
                copy_source(rect.offset.x as int, pos.x as int, x),
                copy_source(rect.offset.y as int, pos.y as int, y),
            )
        } else {
            (dev.images[image])(x, y)
        } by {
            copy_keeps_shared_pixels(rect, s.extent, pos, d.extent, x, y);
            match scratch {
                Some(i) => {
                    self_copy_runs(sh, dev, ca, i.image);
                },
                None => {
                    disjoint_copy_runs(sh, dev, ca);
                },
            }
        }
    }
}

/// What a copy between two drawables does next fits what was asked for: what it
/// copies is what lies in both images, and a copy that is left out, without an
/// error, has no pixel to copy.
pub proof fn copy_decisions_fit(
    s: EngineView,
    st: StoreView,
    g: GroupView,
    src: DrawableId,
    dst: DrawableId,
    rect: Rect,
    pos: Offset,
    x: int,
    y: int,
)
    ensures
        copy_decision(s, st, g, src, dst, rect, pos) matches Decision::Paint(c) ==> st.has(src)
            && st.has(dst) && copy_geometry(st.get(src)->0, st.get(dst)->0, rect, pos) == Some(c),
        cow_decision(s, st, g, dst, src, rect, pos) matches Decision::Paint(c) ==> st.has(src)
            && st.has(dst) && copy_geometry(st.get(src)->0, st.get(dst)->0, rect, pos) == Some(c),
        (copy_decision(s, st, g, src, dst, rect, pos) matches Decision::Done(Ok(_)) && st.has(src)
            && st.has(dst)) ==> !copy_writes(
            rect,
            st.get(src)->0.extent,
            pos,
            st.get(dst)->0.extent,
            x,
            y,
        ),
        (cow_decision(s, st, g, dst, src, rect, pos) matches Decision::Done(Ok(_)) && st.has(src)
            && st.has(dst)) ==> !copy_writes(
            rect,
            st.get(src)->0.extent,
            pos,
            st.get(dst)->0.extent,
            x,
            y,
        ),
{
    if st.has(src) && st.has(dst) {
        copy_keeps_shared_pixels(
            rect,
            st.get(src)->0.extent,
            pos,
            st.get(dst)->0.extent,
            x,
            y,
        );
    }
}

} // verus!
