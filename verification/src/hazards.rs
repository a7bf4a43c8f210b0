//! No command uses an image before what used it earlier is done, and before what
//! was written to it can be seen.

use vstd::prelude::*;

use crate::command::{
    copy_area_commands, copy_area_consistent, self_copy_commands, spec_any_producer, Command,
    RecordedCopyArea, Scope, ACCESS_COLOR_ATTACHMENT_WRITE, ACCESS_SAMPLED_OR_ATTACHED,
    ACCESS_SHADER_SAMPLED_READ, ACCESS_TRANSFER_READ, ACCESS_TRANSFER_WRITE, STAGE_ALL_COMMANDS,
    STAGE_COLOR_ATTACHMENT_OUTPUT, STAGE_COPY, STAGE_FRAGMENT_SHADER,
};
use crate::copy::CopyGeometry;
use crate::cow::{cow_commands, cow_dst_exit, cow_src_exit};
use crate::engine::CowBatchView;
use crate::error::DrawableId;
use crate::geometry::Rect;
use crate::image::{get_commands, put_commands};
use crate::paint::{attach, detach};
use crate::store::{Drawable, Layout};
use crate::traps::{mask_commands, MaskImage, TrapRequest};

verus! {

/// Whether a scope takes in another: all its stages and all its accesses.
pub open spec fn takes_in(a: Scope, b: Scope) -> bool {
    (a.stage == STAGE_ALL_COMMANDS || a.stage & b.stage == b.stage) && a.access & b.access
        == b.access
}

pub open spec fn copy_read() -> Scope {
    Scope { stage: STAGE_COPY, access: ACCESS_TRANSFER_READ }
}

pub open spec fn copy_write() -> Scope {
    Scope { stage: STAGE_COPY, access: ACCESS_TRANSFER_WRITE }
}

pub open spec fn attachment_write() -> Scope {
    Scope { stage: STAGE_COLOR_ATTACHMENT_OUTPUT, access: ACCESS_COLOR_ATTACHMENT_WRITE }
}

/// How shaders use an image between operations.
pub open spec fn sampling() -> Scope {
    Scope { stage: STAGE_FRAGMENT_SHADER, access: ACCESS_SHADER_SAMPLED_READ }
}

/// How a command uses an image, apart from those that bring their own barriers.
pub open spec fn use_of(c: Command, image: u64) -> Option<Scope> {
    match c {
        Command::CopyImage { src, dst, .. } => if dst == image {
            Some(copy_write())
        } else if src == image {
            Some(copy_read())
        } else {
            None
        },
        Command::CopyBufferToImage { image: i, .. } => if i == image {
            Some(copy_write())
        } else {
            None
        },
        Command::CopyImageToBuffer { image: i, .. } => if i == image {
            Some(copy_read())
        } else {
            None
        },
        Command::BeginRendering { image: i, .. } | Command::BeginMask { image: i, .. } => if i
            == image {
            Some(attachment_write())
        } else {
            None
        },
        _ => None,
    }
}

/// What is known of one image: the uses that may follow the last barrier, and
/// the uses since.
pub ghost struct Access {
    pub open: Scope,
    pub uses: Set<Scope>,
}

/// The state of an image after a command, or `None` if the command uses it too
/// early, or a barrier does not wait for what used it.
pub open spec fn access_step(image: u64, a: Option<Access>, c: Command) -> Option<Access> {
    match a {
        None => None,
        Some(a) => match c {
            Command::Barrier { image: i, before, after, .. } => if i != image {
                Some(a)
            } else if forall|u: Scope| a.uses.contains(u) ==> #[trigger] takes_in(before, u) {
                Some(Access { open: after, uses: Set::empty() })
            } else {
                None
            },
            _ => match use_of(c, image) {
                None => Some(a),
                Some(u) => if takes_in(a.open, u) {
                    Some(Access { open: a.open, uses: a.uses.insert(u) })
                } else {
                    None
                },
            },
        },
    }
}

pub open spec fn access_run(image: u64, a: Option<Access>, cmds: Seq<Command>) -> Option<Access>
    decreases cmds.len(),
{
    if cmds.len() == 0 {
        a
    } else {
        access_step(image, access_run(image, a, cmds.drop_last()), cmds.last())
    }
}

/// An image that shaders may still sample.
pub open spec fn sampled_image() -> Access {
    Access { open: sampling(), uses: Set::empty().insert(sampling()) }
}

/// Whether commands use an image only after what used it, and leave it so that
/// shaders see what was written.
pub open spec fn safe(image: u64, cmds: Seq<Command>) -> bool {
    access_run(image, Some(sampled_image()), cmds) matches Some(a) && takes_in(a.open, sampling())
        && a.uses == Set::<Scope>::empty()
}

proof fn access_concat(image: u64, a: Option<Access>, x: Seq<Command>, y: Seq<Command>)
    ensures
        access_run(image, a, x + y) == access_run(image, access_run(image, a, x), y),
    decreases y.len(),
{
    if y.len() == 0 {
        assert(x + y =~= x);
    } else {
        assert((x + y).drop_last() =~= x + y.drop_last());
        access_concat(image, a, x, y.drop_last());
    }
}

proof fn access_one(image: u64, a: Option<Access>, c: Command)
    ensures
        access_run(image, a, seq![c]) == access_step(image, a, c),
{
    reveal_with_fuel(access_run, 2);
    assert(seq![c].drop_last() =~= Seq::empty());
}

proof fn access_two(image: u64, a: Option<Access>, cmds: Seq<Command>)
    requires
        cmds.len() == 2,
    ensures
        access_run(image, a, cmds) == access_step(
            image,
            access_step(image, a, cmds[0]),
            cmds[1],
        ),
{
    assert(cmds =~= seq![cmds[0]] + seq![cmds[1]]);
    access_concat(image, a, seq![cmds[0]], seq![cmds[1]]);
    access_one(image, a, cmds[0]);
    access_one(image, access_step(image, a, cmds[0]), cmds[1]);
}

proof fn access_three(image: u64, a: Option<Access>, cmds: Seq<Command>)
    requires
        cmds.len() == 3,
    ensures
        access_run(image, a, cmds) == access_step(
            image,
            access_step(image, access_step(image, a, cmds[0]), cmds[1]),
            cmds[2],
        ),
{
    assert(cmds =~= cmds.take(2) + seq![cmds[2]]);
    access_concat(image, a, cmds.take(2), seq![cmds[2]]);
    access_two(image, a, cmds.take(2));
    access_one(image, access_run(image, a, cmds.take(2)), cmds[2]);
}

proof fn scopes()
    ensures
        takes_in(spec_any_producer(), sampling()),
        takes_in(Scope { stage: STAGE_ALL_COMMANDS, access: ACCESS_SAMPLED_OR_ATTACHED }, sampling()),
        takes_in(Scope { stage: STAGE_ALL_COMMANDS, access: ACCESS_SHADER_SAMPLED_READ }, sampling()),
        takes_in(sampling(), sampling()),
        takes_in(copy_read(), copy_read()),
        takes_in(copy_write(), copy_write()),
        takes_in(attachment_write(), attachment_write()),
{
    assert(0x1_0000_1100u64 & 0x1_0000_0000u64 == 0x1_0000_0000u64 && 0x1_0000_0100u64
        & 0x1_0000_0000u64 == 0x1_0000_0000u64) by (bit_vector);
    assert(forall|x: u64| #[trigger] (x & x) == x) by (bit_vector);
    assert(sampling().stage & sampling().stage == sampling().stage);
    assert(sampling().access & sampling().access == sampling().access);
    assert(copy_read().stage & copy_read().stage == copy_read().stage);
    assert(copy_read().access & copy_read().access == copy_read().access);
    assert(copy_write().access & copy_write().access == copy_write().access);
    assert(attachment_write().stage & attachment_write().stage == attachment_write().stage);
    assert(attachment_write().access & attachment_write().access == attachment_write().access);
}

proof fn idle_run(image: u64, a: Access, cmds: Seq<Command>)
    requires
        forall|i: int|
            0 <= i < cmds.len() ==> !(#[trigger] cmds[i] is Barrier) && use_of(cmds[i], image)
                is None,
    ensures
        access_run(image, Some(a), cmds) == Some(a),
    decreases cmds.len(),
{
    if cmds.len() > 0 {
        let head = cmds.drop_last();
        assert forall|i: int| 0 <= i < head.len() implies !(#[trigger] head[i] is Barrier)
            && use_of(head[i], image) is None by {
            assert(head[i] == cmds[i]);
        }
        idle_run(image, a, head);
        assert(!(cmds[cmds.len() - 1] is Barrier));
    }
}

/// Rendering to a drawable waits for whatever sampled it, and is done before
/// shaders sample it again.
pub proof fn rendering_is_safe(d: Drawable, inner: Seq<Command>)
    requires
        forall|i: int|
            0 <= i < inner.len() ==> (#[trigger] inner[i] is ClearRect || inner[i] is LogicDraw),
    ensures
        safe(d.image, attach(d) + inner + detach(d)),
{
    scopes();
    let start = Some(sampled_image());
    access_two(d.image, start, attach(d));
    let on = access_run(d.image, start, attach(d));
    assert(on is Some);
    access_concat(d.image, start, attach(d), inner);
    idle_run(d.image, on->0, inner);
    access_concat(d.image, start, attach(d) + inner, detach(d));
    access_two(d.image, on, detach(d));
}

/// An upload and a readback wait for whatever sampled the image, and are done
/// before shaders sample it again.
pub proof fn transfers_are_safe(d: Drawable, buffer: u64, rect: Rect)
    ensures
        safe(d.image, put_commands(d, buffer, rect)),
        safe(d.image, get_commands(d, buffer, rect)),
{
    scopes();
    access_three(d.image, Some(sampled_image()), put_commands(d, buffer, rect));
    access_three(d.image, Some(sampled_image()), get_commands(d, buffer, rect));
}

/// A copy waits for whatever sampled its images, each of its steps waits for the
/// one before, and it is done before shaders sample the images again.
pub proof fn copies_are_safe(ca: RecordedCopyArea)
    requires
        copy_area_consistent(ca),
    ensures
        safe(ca.src_image, copy_area_commands(ca)),
        safe(ca.dst_image, copy_area_commands(ca)),
        ca.self_overlap_scratch matches Some(s) ==> access_run(
            s.image,
            Some(Access { open: sampling(), uses: Set::empty() }),
            copy_area_commands(ca),
        ) is Some,
{
    scopes();
    let cmds = copy_area_commands(ca);
    let start = Some(sampled_image());
    match ca.self_overlap_scratch {
        None => {
            let a = cmds.take(3);
            let b = cmds.skip(3);
            assert(cmds =~= a + b);
            access_concat(ca.src_image, start, a, b);
            access_three(ca.src_image, start, a);
            access_two(ca.src_image, access_run(ca.src_image, start, a), b);
            access_concat(ca.dst_image, start, a, b);
            access_three(ca.dst_image, start, a);
            access_two(ca.dst_image, access_run(ca.dst_image, start, a), b);
        },
        Some(s) => {
            self_copy_is_safe(ca, s.image);
        },
    }
}

proof fn self_copy_is_safe(ca: RecordedCopyArea, scratch: u64)
    requires
        scratch != ca.src_image,
    ensures
        safe(ca.src_image, self_copy_commands(ca, scratch)),
        access_run(
            scratch,
            Some(Access { open: sampling(), uses: Set::empty() }),
            self_copy_commands(ca, scratch),
        ) is Some,
{
    scopes();
    let cmds = self_copy_commands(ca, scratch);
    let start = Some(sampled_image());
    let blank = Some(Access { open: sampling(), uses: Set::empty() });
    let a = cmds.take(3);
    let b = cmds.subrange(3, 6);
    let z = seq![cmds[6]];
    assert(cmds =~= a + b + z);
    access_concat(ca.src_image, start, a, b);
    access_concat(ca.src_image, start, a + b, z);
    access_three(ca.src_image, start, a);
    access_three(ca.src_image, access_run(ca.src_image, start, a), b);
    access_one(ca.src_image, access_run(ca.src_image, start, a + b), cmds[6]);
    access_concat(scratch, blank, a, b);
    access_concat(scratch, blank, a + b, z);
    access_three(scratch, blank, a);
    access_three(scratch, access_run(scratch, blank, a), b);
    access_one(scratch, access_run(scratch, blank, a + b), cmds[6]);
}

/// An image in the middle of a batch of overlay copies, which has written it or
/// read it.
pub open spec fn in_cow_batch(a: Option<Access>, way: Scope) -> bool {
    a matches Some(a) && a.open == way && a.uses.subset_of(Set::empty().insert(way))
}

/// A batch of overlay copies waits for whatever sampled its images before it
/// uses them, and the barriers that end it wait for all its copies before
/// shaders sample the images again.
pub proof fn cow_batches_are_safe(
    b: CowBatchView,
    src: DrawableId,
    c: CopyGeometry,
    dst: Access,
    old: Access,
)
    requires
        c.src.image != c.dst.image,
        in_cow_batch(Some(dst), copy_write()),
        in_cow_batch(Some(old), copy_read()),
    ensures
        ({
            let start = Some(sampled_image());
            let first = cow_commands(None, src, c);
            let next = cow_commands(Some(b), src, c);
            &&& in_cow_batch(access_run(c.dst.image, start, first), copy_write())
            &&& in_cow_batch(access_run(c.src.image, start, first), copy_read())
            &&& in_cow_batch(access_run(c.dst.image, Some(dst), next), copy_write())
            &&& in_cow_batch(
                access_run(
                    c.src.image,
                    if b.srcs.contains(src) {
                        Some(old)
                    } else {
                        start
                    },
                    next,
                ),
                copy_read(),
            )
            &&& access_step(c.dst.image, Some(dst), cow_dst_exit(c.dst)) == Some(
                Access { open: sampling(), uses: Set::empty() },
            )
            &&& access_step(c.src.image, Some(old), cow_src_exit(c.src)) == Some(
                Access { open: sampling(), uses: Set::empty() },
            )
        }),
{
    scopes();
    let start = Some(sampled_image());
    let first = cow_commands(None, src, c);
    let next = cow_commands(Some(b), src, c);
    access_three(c.dst.image, start, first);
    access_three(c.src.image, start, first);
    if b.srcs.contains(src) {
        access_one(c.dst.image, Some(dst), next[0]);
        access_one(c.src.image, Some(old), next[0]);
        assert(next =~= seq![next[0]]);
    } else {
        access_two(c.dst.image, Some(dst), next);
        access_two(c.src.image, start, next);
    }
    assert forall|u: Scope| dst.uses.contains(u) implies u == copy_write() by {}
    assert forall|u: Scope| old.uses.contains(u) implies u == copy_read() by {}
}

/// Rasterising a mask waits for whatever sampled it before, and is done before
/// the composite samples it.
pub proof fn masks_are_safe(req: &TrapRequest, mask: MaskImage, buffer: u64)
    ensures
        mask.layout == Layout::Undefined ==> (access_run(
            mask.image,
            Some(Access { open: sampling(), uses: Set::empty() }),
            mask_commands(req, mask, buffer),
        ) matches Some(a) && a.open == sampling() && a.uses == Set::<Scope>::empty()),
        mask.layout != Layout::Undefined ==> safe(mask.image, mask_commands(req, mask, buffer)),
{
    scopes();
    let cmds = mask_commands(req, mask, buffer);
    let blank = Some(Access { open: sampling(), uses: Set::empty() });
    let start = Some(sampled_image());
    let a = cmds.take(3);
    let b = cmds.skip(3);
    assert(cmds =~= a + b);
    access_concat(mask.image, start, a, b);
    access_three(mask.image, start, a);
    access_two(mask.image, access_run(mask.image, start, a), b);
    access_concat(mask.image, blank, a, b);
    access_three(mask.image, blank, a);
    access_two(mask.image, access_run(mask.image, blank, a), b);
}

} // verus!
