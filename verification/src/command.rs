//! GPU commands as plain values, and what a list of them does to image
//! layouts and pixels.

use vstd::prelude::*;

use crate::geometry::{Extent, Offset, Rect};
use crate::picture::{CompositeAttrs, CompositeRect};
use crate::store::{Format, Layout};

verus! {

/// A colour as the bit patterns of its four single precision components.
/// The engine carries colours through unchanged.
#[derive(Clone, Copy, Debug, PartialEq, Eq, Structural)]
pub struct Color {
    pub r: u32,
    pub g: u32,
    pub b: u32,
    pub a: u32,
}

/// A colour as four bytes.
#[derive(Clone, Copy, Debug, PartialEq, Eq, Structural)]
pub struct Rgba8 {
    pub r: u8,
    pub g: u8,
    pub b: u8,
    pub a: u8,
}

/// One side of a barrier: pipeline stages and memory accesses, as Vulkan
/// numbers them.
#[derive(Clone, Copy, Debug, PartialEq, Eq, Structural)]
pub struct Scope {
    pub stage: u64,
    pub access: u64,
}

pub const STAGE_TOP_OF_PIPE: u64 = 0x1;

pub const STAGE_FRAGMENT_SHADER: u64 = 0x80;

pub const STAGE_COLOR_ATTACHMENT_OUTPUT: u64 = 0x400;

pub const STAGE_ALL_COMMANDS: u64 = 0x1_0000;

pub const STAGE_COPY: u64 = 0x1_0000_0000;

pub const ACCESS_NONE: u64 = 0;

pub const ACCESS_COLOR_ATTACHMENT_READ: u64 = 0x80;

pub const ACCESS_COLOR_ATTACHMENT_WRITE: u64 = 0x100;

pub const ACCESS_TRANSFER_READ: u64 = 0x800;

pub const ACCESS_TRANSFER_WRITE: u64 = 0x1000;

pub const ACCESS_SHADER_SAMPLED_READ: u64 = 0x1_0000_0000;

/// Every access by which earlier work may have used a storage image:
/// sampled reads, transfer writes and attachment writes.
pub const ACCESS_ANY_PRODUCER: u64 = 0x1_0000_1100;

/// Sampled reads and attachment writes.
pub const ACCESS_SAMPLED_OR_ATTACHED: u64 = 0x1_0000_0100;

/// The raster operation of a graphics context.
#[derive(Clone, Copy, Debug, PartialEq, Eq, Structural)]
pub enum GcFunction {
    Clear,
    And,
    AndReverse,
    Copy,
    AndInverted,
    NoOp,
    Xor,
    Or,
    Nor,
    Equiv,
    Invert,
    OrReverse,
    CopyInverted,
    OrInverted,
    Nand,
    SetBits,
}

/// One recorded GPU command.
#[derive(Clone, Copy, Debug, PartialEq, Eq, Structural)]
pub enum Command {
    /// Moves an image from one layout to another.
    Barrier { image: u64, old: Layout, new: Layout, before: Scope, after: Scope },
    /// Copies pixels from one image to another.
    CopyImage { src: u64, dst: u64, from: Offset, to: Offset, extent: Extent },
    /// Copies the start of a buffer, tightly packed, into an image.
    CopyBufferToImage { buffer: u64, image: u64, to: Offset, extent: Extent },
    /// Copies a part of an image, tightly packed, to the start of a buffer.
    CopyImageToBuffer { image: u64, buffer: u64, from: Offset, extent: Extent },
    /// Starts rendering to a whole image, keeping its contents.
    BeginRendering { image: u64, view: u64, extent: Extent },
    /// Ends rendering to an image.
    EndRendering { image: u64 },
    /// Fills a rectangle of the attached image.
    ClearRect { color: Color, rect: Rect },
    /// Fills a rectangle of the attached image through a raster operation.
    LogicDraw {
        format: Format,
        function: GcFunction,
        opaque_alpha: bool,
        pixel: Rgba8,
        rect: Rect,
    },
    /// Clears one of the engine's one pixel images and leaves it to be
    /// sampled.
    ClearSolid { slot: Slot, solid: Color },
    /// Copies an image into one of the engine's snapshot images and leaves
    /// the image in the layout it was in.
    Snapshot { of: SnapshotKind, image: u64, layout: Layout, format: Format, extent: Extent },
    /// Moves an image from `old` to an attachment and binds the composite
    /// pipeline to it.
    OpenComposite { image: u64, view: u64, extent: Extent, old: Layout, pipeline: PipelineKey },
    /// Draws one quad of a composite under one scissor.
    CompositeDraw {
        descriptor: u64,
        dst_extent: Extent,
        attrs: CompositeAttrs,
        quad: CompositeRect,
        scissor: Rect,
    },
    /// Ends a composite and leaves the image to be sampled.
    CloseComposite { image: u64 },
    /// Copies a glyph from a buffer into the atlas.
    UploadGlyph { buffer: u64, atlas_x: u32, atlas_y: u32, w: u32, h: u32 },
    /// Moves an image from `old` to an attachment and binds the text pipeline
    /// to it.
    OpenText { image: u64, view: u64, extent: Extent, old: Layout, foreground: Color },
    /// Draws one glyph of a text run under one scissor.
    GlyphQuad { glyph: GlyphDraw, scissor: Rect },
    /// Ends a text run and leaves the image to be sampled.
    CloseText { image: u64 },
    /// Starts rendering to a whole mask image, cleared.
    BeginMask { image: u64, view: u64, extent: Extent },
    /// Rasterises trapezoids or triangles into the mask.
    TrapDraw {
        kind: TrapPrimKind,
        buffer: u64,
        count: u32,
        mask_extent: Extent,
        bbox: Rect,
    },
}

/// Which texture slot of a composite draw.
#[derive(Clone, Copy, Debug, PartialEq, Eq, Structural)]
pub enum Slot {
    Src,
    Mask,
}

/// Which snapshot of the destination.
#[derive(Clone, Copy, Debug, PartialEq, Eq, Structural)]
pub enum SnapshotKind {
    /// The one that stands in for the destination as source or mask.
    Alias,
    /// The one that the operator reads.
    Readback,
}

/// What selects a composite pipeline.
#[derive(Clone, Copy, Debug, PartialEq, Eq, Structural)]
pub struct PipelineKey {
    pub op: u8,
    pub format: Format,
    pub dst_has_alpha: bool,
    pub component_alpha: bool,
}

/// The primitives of a mask.
#[derive(Clone, Copy, Debug, PartialEq, Eq, Structural)]
pub enum TrapPrimKind {
    Trapezoid,
    Triangle,
}

/// A glyph of a text run: where it lies in the atlas and where it goes.
#[derive(Clone, Copy, Debug, PartialEq, Eq, Structural)]
pub struct GlyphDraw {
    pub atlas_x: u32,
    pub atlas_y: u32,
    pub w: u32,
    pub h: u32,
    pub dst_x: i32,
    pub dst_y: i32,
}

/// What images are left in by the commands run so far.
pub type Layouts = Map<u64, Layout>;

/// The layouts after one command, or `None` if the command uses an image in
/// a layout that it is not in. A barrier may always discard an image.
pub open spec fn layout_step(m: Layouts, c: Command) -> Option<Layouts> {
    match c {
        Command::Barrier { image, old, new, .. } => if old == Layout::Undefined || m[image]
            == old {
            Some(m.insert(image, new))
        } else {
            None
        },
        Command::CopyImage { src, dst, .. } => if m[src] == Layout::TransferSrc && m[dst]
            == Layout::TransferDst {
            Some(m)
        } else {
            None
        },
        Command::CopyBufferToImage { image, .. } => if m[image] == Layout::TransferDst {
            Some(m)
        } else {
            None
        },
        Command::CopyImageToBuffer { image, .. } => if m[image] == Layout::TransferSrc {
            Some(m)
        } else {
            None
        },
        Command::BeginRendering { image, .. } | Command::EndRendering { image } => if m[image]
            == Layout::ColorAttachment {
            Some(m)
        } else {
            None
        },
        Command::Snapshot { image, layout, .. } => if m[image] == layout {
            Some(m)
        } else {
            None
        },
        Command::OpenComposite { image, old, .. } | Command::OpenText { image, old, .. } => if old
            == Layout::Undefined || m[image] == old {
            Some(m.insert(image, Layout::ColorAttachment))
        } else {
            None
        },
        Command::CloseComposite { image } | Command::CloseText { image } => if m[image]
            == Layout::ColorAttachment {
            Some(m.insert(image, Layout::ShaderReadOnly))
        } else {
            None
        },
        Command::BeginMask { image, .. } => if m[image] == Layout::ColorAttachment {
            Some(m)
        } else {
            None
        },
        Command::ClearRect { .. } | Command::LogicDraw { .. } | Command::ClearSolid { .. }
        | Command::CompositeDraw { .. } | Command::UploadGlyph { .. }
        | Command::GlyphQuad { .. } | Command::TrapDraw { .. } => Some(m),
    }
}

/// The layouts after a list of commands, or `None` if one of them uses an
/// image in a layout that it is not in.
pub open spec fn layout_run(m: Layouts, cmds: Seq<Command>) -> Option<Layouts>
    decreases cmds.len(),
{
    if cmds.len() == 0 {
        Some(m)
    } else {
        match layout_run(m, cmds.drop_last()) {
            None => None,
            Some(x) => layout_step(x, cmds.last()),
        }
    }
}

/// Running two lists one after the other is running their concatenation.
pub proof fn layout_run_concat(m: Layouts, a: Seq<Command>, b: Seq<Command>)
    ensures
        layout_run(m, a + b) == match layout_run(m, a) {
            None => None,
            Some(x) => layout_run(x, b),
        },
    decreases b.len(),
{
    if b.len() == 0 {
        assert(a + b =~= a);
    } else {
        assert((a + b).drop_last() =~= a + b.drop_last());
        layout_run_concat(m, a, b.drop_last());
    }
}

/// Whether the command leaves every layout alone and asks for none.
pub open spec fn layout_neutral(c: Command) -> bool {
    c is ClearRect || c is LogicDraw || c is ClearSolid || c is CompositeDraw || c is UploadGlyph
        || c is GlyphQuad || c is TrapDraw
}

/// Commands that touch no layout can always run.
pub proof fn layout_run_neutral(m: Layouts, cmds: Seq<Command>)
    requires
        forall|i: int| 0 <= i < cmds.len() ==> layout_neutral(#[trigger] cmds[i]),
    ensures
        layout_run(m, cmds) == Some(m),
    decreases cmds.len(),
{
    if cmds.len() > 0 {
        layout_run_neutral(m, cmds.drop_last());
    }
}

/// The pixels of an image, by position.
pub type Pixels = spec_fn(int, int) -> int;

/// The images after one command, as far as copies between images change them.
pub open spec fn pixel_step(m: Map<u64, Pixels>, c: Command) -> Map<u64, Pixels> {
    match c {
        Command::CopyImage { src, dst, from, to, extent } => {
            let s = m[src];
            let d = m[dst];
            m.insert(
                dst,
                |x: int, y: int|
                    if (Rect { offset: to, extent }).covers(x, y) {
                        s(x - to.x + from.x, y - to.y + from.y)
                    } else {
                        d(x, y)
                    },
            )
        },
        _ => m,
    }
}

/// The images after a list of commands.
pub open spec fn pixel_run(m: Map<u64, Pixels>, cmds: Seq<Command>) -> Map<u64, Pixels>
    decreases cmds.len(),
{
    if cmds.len() == 0 {
        m
    } else {
        pixel_step(pixel_run(m, cmds.drop_last()), cmds.last())
    }
}

/// An image that holds a copy while an area moves within one image.
#[derive(Clone, Copy, Debug, PartialEq, Eq, Structural)]
pub struct ScratchImage {
    pub image: u64,
    pub size_bytes: u64,
}

/// A copy that waits in an open frame.
#[derive(Clone, Copy, Debug, PartialEq, Eq, Structural)]
pub struct RecordedCopyArea {
    pub dst_id: usize,
    pub src_id: usize,
    pub src_rect: Rect,
    pub dst_rect: Rect,
    pub format: Format,
    pub src_extent: Extent,
    pub dst_extent: Extent,
    pub src_image: u64,
    pub dst_image: u64,
    pub src_old_layout: Layout,
    pub dst_old_layout: Layout,
    /// Present exactly when source and destination are one image.
    pub self_overlap_scratch: Option<ScratchImage>,
}

/// The wait for whatever used a storage image before.
pub open spec fn spec_any_producer() -> Scope {
    Scope { stage: STAGE_ALL_COMMANDS, access: ACCESS_ANY_PRODUCER }
}

pub fn any_producer() -> (r: Scope)
    ensures
        r == spec_any_producer(),
{
    Scope { stage: STAGE_ALL_COMMANDS, access: ACCESS_ANY_PRODUCER }
}

pub open spec fn spec_scope(stage: u64, access: u64) -> Scope {
    Scope { stage, access }
}

pub fn scope(stage: u64, access: u64) -> (r: Scope)
    ensures
        r == spec_scope(stage, access),
{
    Scope { stage, access }
}

/// The barrier between two layouts of an image.
pub open spec fn spec_barrier(
    image: u64,
    old: Layout,
    new: Layout,
    before: Scope,
    after: Scope,
) -> Command {
    Command::Barrier { image, old, new, before, after }
}

/// A barrier that moves `image` from `old` to `new`.
pub fn barrier_to_layout(image: u64, old: Layout, new: Layout, before: Scope, after: Scope) -> (r:
    Command)
    ensures
        r == spec_barrier(image, old, new, before, after),
{
    Command::Barrier { image, old, new, before, after }
}

/// The barrier that lets a copy read from an image.
pub open spec fn to_transfer_src(image: u64, old: Layout) -> Command {
    spec_barrier(
        image,
        old,
        Layout::TransferSrc,
        spec_any_producer(),
        spec_scope(STAGE_COPY, ACCESS_TRANSFER_READ),
    )
}

/// The barrier that lets a copy write to an image.
pub open spec fn to_transfer_dst(image: u64, old: Layout) -> Command {
    spec_barrier(
        image,
        old,
        Layout::TransferDst,
        spec_any_producer(),
        spec_scope(STAGE_COPY, ACCESS_TRANSFER_WRITE),
    )
}

/// The barrier that lets shaders sample an image that copies have read.
pub open spec fn src_to_read(image: u64) -> Command {
    spec_barrier(
        image,
        Layout::TransferSrc,
        Layout::ShaderReadOnly,
        spec_scope(STAGE_COPY, ACCESS_TRANSFER_READ),
        spec_scope(STAGE_FRAGMENT_SHADER, ACCESS_SHADER_SAMPLED_READ),
    )
}

/// The barrier that lets shaders sample an image that copies have written.
pub open spec fn dst_to_read(image: u64) -> Command {
    spec_barrier(
        image,
        Layout::TransferDst,
        Layout::ShaderReadOnly,
        spec_scope(STAGE_COPY, ACCESS_TRANSFER_WRITE),
        spec_scope(STAGE_FRAGMENT_SHADER, ACCESS_SHADER_SAMPLED_READ),
    )
}

pub fn cmd_to_transfer_src(image: u64, old: Layout) -> (r: Command)
    ensures
        r == to_transfer_src(image, old),
{
    barrier_to_layout(
        image,
        old,
        Layout::TransferSrc,
        any_producer(),
        scope(STAGE_COPY, ACCESS_TRANSFER_READ),
    )
}

pub fn cmd_to_transfer_dst(image: u64, old: Layout) -> (r: Command)
    ensures
        r == to_transfer_dst(image, old),
{
    barrier_to_layout(
        image,
        old,
        Layout::TransferDst,
        any_producer(),
        scope(STAGE_COPY, ACCESS_TRANSFER_WRITE),
    )
}

pub fn cmd_src_to_read(image: u64) -> (r: Command)
    ensures
        r == src_to_read(image),
{
    barrier_to_layout(
        image,
        Layout::TransferSrc,
        Layout::ShaderReadOnly,
        scope(STAGE_COPY, ACCESS_TRANSFER_READ),
        scope(STAGE_FRAGMENT_SHADER, ACCESS_SHADER_SAMPLED_READ),
    )
}

pub fn cmd_dst_to_read(image: u64) -> (r: Command)
    ensures
        r == dst_to_read(image),
{
    barrier_to_layout(
        image,
        Layout::TransferDst,
        Layout::ShaderReadOnly,
        scope(STAGE_COPY, ACCESS_TRANSFER_WRITE),
        scope(STAGE_FRAGMENT_SHADER, ACCESS_SHADER_SAMPLED_READ),
    )
}

/// The copy of a source area to a place in the destination.
pub open spec fn image_copy(src: u64, dst: u64, from: Offset, to: Rect) -> Command {
    Command::CopyImage { src, dst, from, to: to.offset, extent: to.extent }
}

pub open spec fn origin() -> Offset {
    Offset { x: 0, y: 0 }
}

/// The commands of a copy within one image: by way of the scratch image.
pub open spec fn self_copy_commands(ca: RecordedCopyArea, scratch: u64) -> Seq<Command> {
    seq![
        to_transfer_src(ca.src_image, ca.src_old_layout),
        spec_barrier(
            scratch,
            Layout::Undefined,
            Layout::TransferDst,
            spec_scope(STAGE_TOP_OF_PIPE, ACCESS_NONE),
            spec_scope(STAGE_COPY, ACCESS_TRANSFER_WRITE),
        ),
        image_copy(
            ca.src_image,
            scratch,
            ca.src_rect.offset,
            Rect { offset: origin(), extent: ca.dst_rect.extent },
        ),
        spec_barrier(
            scratch,
            Layout::TransferDst,
            Layout::TransferSrc,
            spec_scope(STAGE_COPY, ACCESS_TRANSFER_WRITE),
            spec_scope(STAGE_COPY, ACCESS_TRANSFER_READ),
        ),
        spec_barrier(
            ca.src_image,
            Layout::TransferSrc,
            Layout::TransferDst,
            spec_scope(STAGE_COPY, ACCESS_TRANSFER_READ),
            spec_scope(STAGE_COPY, ACCESS_TRANSFER_WRITE),
        ),
        image_copy(scratch, ca.src_image, origin(), ca.dst_rect),
        dst_to_read(ca.src_image),
    ]
}

/// The commands of a copy between two images.
pub open spec fn disjoint_copy_commands(ca: RecordedCopyArea) -> Seq<Command> {
    seq![
        to_transfer_src(ca.src_image, ca.src_old_layout),
        to_transfer_dst(ca.dst_image, ca.dst_old_layout),
        image_copy(ca.src_image, ca.dst_image, ca.src_rect.offset, ca.dst_rect),
        src_to_read(ca.src_image),
        dst_to_read(ca.dst_image),
    ]
}

/// The commands that replay a recorded copy.
pub open spec fn copy_area_commands(ca: RecordedCopyArea) -> Seq<Command> {
    match ca.self_overlap_scratch {
        Some(scratch) => self_copy_commands(ca, scratch.image),
        None => disjoint_copy_commands(ca),
    }
}

/// Appends the commands that replay a recorded copy.
pub fn emit_recorded_copy_area_into_cb(out: &mut Vec<Command>, ca: &RecordedCopyArea)
    ensures
        final(out)@ == old(out)@ + copy_area_commands(*ca),
{
    let ghost before = out@;
    match ca.self_overlap_scratch {
        Some(scratch) => {
            out.push(cmd_to_transfer_src(ca.src_image, ca.src_old_layout));
            out.push(
                barrier_to_layout(
                    scratch.image,
                    Layout::Undefined,
                    Layout::TransferDst,
                    scope(STAGE_TOP_OF_PIPE, ACCESS_NONE),
                    scope(STAGE_COPY, ACCESS_TRANSFER_WRITE),
                ),
            );
            out.push(
                Command::CopyImage {
                    src: ca.src_image,
                    dst: scratch.image,
                    from: ca.src_rect.offset,
                    to: Offset { x: 0, y: 0 },
                    extent: ca.dst_rect.extent,
                },
            );
            out.push(
                barrier_to_layout(
                    scratch.image,
                    Layout::TransferDst,
                    Layout::TransferSrc,
                    scope(STAGE_COPY, ACCESS_TRANSFER_WRITE),
                    scope(STAGE_COPY, ACCESS_TRANSFER_READ),
                ),
            );
            out.push(
                barrier_to_layout(
                    ca.src_image,
                    Layout::TransferSrc,
                    Layout::TransferDst,
                    scope(STAGE_COPY, ACCESS_TRANSFER_READ),
                    scope(STAGE_COPY, ACCESS_TRANSFER_WRITE),
                ),
            );
            out.push(
                Command::CopyImage {
                    src: scratch.image,
                    dst: ca.src_image,
                    from: Offset { x: 0, y: 0 },
                    to: ca.dst_rect.offset,
                    extent: ca.dst_rect.extent,
                },
            );
            out.push(cmd_dst_to_read(ca.src_image));
            proof {
                assert(out@ =~= before + self_copy_commands(*ca, scratch.image));
            }
        },
        None => {
            out.push(cmd_to_transfer_src(ca.src_image, ca.src_old_layout));
            out.push(cmd_to_transfer_dst(ca.dst_image, ca.dst_old_layout));
            out.push(
                Command::CopyImage {
                    src: ca.src_image,
                    dst: ca.dst_image,
                    from: ca.src_rect.offset,
                    to: ca.dst_rect.offset,
                    extent: ca.dst_rect.extent,
                },
            );
            out.push(cmd_src_to_read(ca.src_image));
            out.push(cmd_dst_to_read(ca.dst_image));
            proof {
                assert(out@ =~= before + disjoint_copy_commands(*ca));
            }
        },
    }
}

/// Whether a recorded copy names its images consistently: a scratch image of
/// its own for a copy within one image, two images otherwise.
pub open spec fn copy_area_consistent(ca: RecordedCopyArea) -> bool {
    match ca.self_overlap_scratch {
        Some(scratch) => ca.src_image == ca.dst_image && ca.src_old_layout == ca.dst_old_layout
            && scratch.image != ca.src_image,
        None => ca.src_image != ca.dst_image,
    }
}

/// Replaying a copy uses every image in the layout that it is in, and leaves
/// source and destination to be sampled; other images keep their layout.
pub proof fn copy_area_layouts(ca: RecordedCopyArea, m: Layouts)
    requires
        copy_area_consistent(ca),
        m[ca.src_image] == ca.src_old_layout,
        m[ca.dst_image] == ca.dst_old_layout,
    ensures
        layout_run(m, copy_area_commands(ca)) is Some,
        ({
            let end = layout_run(m, copy_area_commands(ca))->0;
            &&& end[ca.src_image] == Layout::ShaderReadOnly
            &&& end[ca.dst_image] == Layout::ShaderReadOnly
            &&& forall|i: u64|
                i != ca.src_image && i != ca.dst_image && (ca.self_overlap_scratch matches Some(s)
                    ==> i != s.image) ==> #[trigger] end[i] == m[i]
        }),
{
    let cmds = copy_area_commands(ca);
    reveal_with_fuel(layout_run, 8);
    match ca.self_overlap_scratch {
        Some(scratch) => {
            assert(cmds.len() == 7);
        },
        None => {
            assert(cmds.len() == 5);
        },
    }
}

/// After a copy the destination rectangle holds what the source area held
/// before, also where the two overlap in one image; every other pixel of the
/// destination, and a separate source image, are unchanged.
pub proof fn copy_area_pixels(ca: RecordedCopyArea, m: Map<u64, Pixels>, x: int, y: int)
    requires
        copy_area_consistent(ca),
    ensures
        ({
            let end = pixel_run(m, copy_area_commands(ca));
            &&& (end[ca.dst_image])(x, y) == if ca.dst_rect.covers(x, y) {
                (m[ca.src_image])(
                    x - ca.dst_rect.offset.x + ca.src_rect.offset.x,
                    y - ca.dst_rect.offset.y + ca.src_rect.offset.y,
                )
            } else {
                (m[ca.dst_image])(x, y)
            }
            &&& ca.src_image != ca.dst_image ==> end[ca.src_image] == m[ca.src_image]
        }),
{
    let cmds = copy_area_commands(ca);
    reveal_with_fuel(pixel_run, 8);
    match ca.self_overlap_scratch {
        Some(scratch) => {
            assert(cmds.len() == 7);
        },
        None => {
            assert(cmds.len() == 5);
        },
    }
}

/// The draws of a composite: under each scissor, every quad.
pub open spec fn composite_draws(
    descriptor: u64,
    dst_extent: Extent,
    attrs: CompositeAttrs,
    quads: Seq<CompositeRect>,
    scissors: Seq<Rect>,
) -> Seq<Command> {
    Seq::new(
        quads.len() * scissors.len(),
        |i: int|
            Command::CompositeDraw {
                descriptor,
                dst_extent,
                attrs,
                quad: quads[i % (quads.len() as int)],
                scissor: scissors[i / (quads.len() as int)],
            },
    )
}

/// The draws of a text run: under each scissor, every glyph.
pub open spec fn glyph_quads(glyphs: Seq<GlyphDraw>, scissors: Seq<Rect>) -> Seq<Command> {
    Seq::new(
        glyphs.len() * scissors.len(),
        |i: int|
            Command::GlyphQuad {
                glyph: glyphs[i % (glyphs.len() as int)],
                scissor: scissors[i / (glyphs.len() as int)],
            },
    )
}

proof fn lemma_pair_index(n: int, row: int, off: int)
    requires
        0 <= off < n,
        0 <= row,
    ensures
        (n * row + off) / n == row,
        (n * row + off) % n == off,
        0 <= n * row,
{
    vstd::arithmetic::mul::lemma_mul_is_commutative(n, row);
    vstd::arithmetic::div_mod::lemma_fundamental_div_mod_converse(n * row + off, n, row, off);
    assert(0 <= n * row) by (nonlinear_arith)
        requires
            0 <= n,
            0 <= row,
    ;
}

/// Appends the draws of a composite.
pub fn push_composite_draws(
    out: &mut Vec<Command>,
    descriptor: u64,
    dst_extent: Extent,
    attrs: CompositeAttrs,
    quads: &Vec<CompositeRect>,
    scissors: &Vec<Rect>,
)
    ensures
        final(out)@ == old(out)@ + composite_draws(
            descriptor,
            dst_extent,
            attrs,
            quads@,
            scissors@,
        ),
{
    let ghost start = out@;
    let ghost draw = |i: int|
        Command::CompositeDraw {
            descriptor,
            dst_extent,
            attrs,
            quad: quads@[i % (quads@.len() as int)],
            scissor: scissors@[i / (quads@.len() as int)],
        };
    let mut row: usize = 0;
    proof {
        assert(start + Seq::new((quads@.len() * 0) as nat, draw) =~= start);
    }
    while row < scissors.len()
        invariant
            row <= scissors.len(),
            draw == (|i: int|
                Command::CompositeDraw {
                    descriptor,
                    dst_extent,
                    attrs,
                    quad: quads@[i % (quads@.len() as int)],
                    scissor: scissors@[i / (quads@.len() as int)],
                }),
            out@ == start + Seq::new((quads@.len() * row) as nat, draw),
        decreases scissors.len() - row,
    {
        let mut off: usize = 0;
        while off < quads.len()
            invariant
                row < scissors.len(),
                off <= quads.len(),
                draw == (|i: int|
                    Command::CompositeDraw {
                        descriptor,
                        dst_extent,
                        attrs,
                        quad: quads@[i % (quads@.len() as int)],
                        scissor: scissors@[i / (quads@.len() as int)],
                    }),
                out@ == start + Seq::new((quads@.len() * row + off) as nat, draw),
            decreases quads.len() - off,
        {
            proof {
                lemma_pair_index(quads@.len() as int, row as int, off as int);
            }
            let c = Command::CompositeDraw {
                descriptor,
                dst_extent,
                attrs,
                quad: quads[off],
                scissor: scissors[row],
            };
            out.push(c);
            proof {
                assert(c == draw(quads@.len() * row + off));
                assert(out@ =~= start + Seq::new((quads@.len() * row + off + 1) as nat, draw));
            }
            off = off + 1;
        }
        proof {
            assert(quads@.len() * row + quads@.len() == quads@.len() * (row + 1))
                by (nonlinear_arith);
        }
        row = row + 1;
    }
    proof {
        assert(out@ =~= start + composite_draws(descriptor, dst_extent, attrs, quads@, scissors@));
    }
}

/// Appends the draws of a text run.
pub fn push_glyph_quads(out: &mut Vec<Command>, glyphs: &Vec<GlyphDraw>, scissors: &Vec<Rect>)
    ensures
        final(out)@ == old(out)@ + glyph_quads(glyphs@, scissors@),
{
    let ghost start = out@;
    let ghost draw = |i: int|
        Command::GlyphQuad {
            glyph: glyphs@[i % (glyphs@.len() as int)],
            scissor: scissors@[i / (glyphs@.len() as int)],
        };
    let mut row: usize = 0;
    proof {
        assert(start + Seq::new((glyphs@.len() * 0) as nat, draw) =~= start);
    }
    while row < scissors.len()
        invariant
            row <= scissors.len(),
            draw == (|i: int|
                Command::GlyphQuad {
                    glyph: glyphs@[i % (glyphs@.len() as int)],
                    scissor: scissors@[i / (glyphs@.len() as int)],
                }),
            out@ == start + Seq::new((glyphs@.len() * row) as nat, draw),
        decreases scissors.len() - row,
    {
        let mut off: usize = 0;
        while off < glyphs.len()
            invariant
                row < scissors.len(),
                off <= glyphs.len(),
                draw == (|i: int|
                    Command::GlyphQuad {
                        glyph: glyphs@[i % (glyphs@.len() as int)],
                        scissor: scissors@[i / (glyphs@.len() as int)],
                    }),
                out@ == start + Seq::new((glyphs@.len() * row + off) as nat, draw),
            decreases glyphs.len() - off,
        {
            proof {
                lemma_pair_index(glyphs@.len() as int, row as int, off as int);
            }
            let c = Command::GlyphQuad { glyph: glyphs[off], scissor: scissors[row] };
            out.push(c);
            proof {
                assert(c == draw(glyphs@.len() * row + off));
                assert(out@ =~= start + Seq::new((glyphs@.len() * row + off + 1) as nat, draw));
            }
            off = off + 1;
        }
        proof {
            assert(glyphs@.len() * row + glyphs@.len() == glyphs@.len() * (row + 1))
                by (nonlinear_arith);
        }
        row = row + 1;
    }
    proof {
        assert(out@ =~= start + glyph_quads(glyphs@, scissors@));
    }
}

/// The number of draws that `quads` quads under `scissors` scissors take, as
/// far as a counter holds it.
pub open spec fn draw_count(quads: nat, scissors: nat) -> u32 {
    if quads * scissors <= u32::MAX {
        (quads * scissors) as u32
    } else {
        u32::MAX
    }
}

/// Counts draws.
pub fn count_draws(quads: usize, scissors: usize) -> (r: u32)
    ensures
        r == draw_count(quads as nat, scissors as nat),
{
    match quads.checked_mul(scissors) {
        Some(n) => if n <= 0xffff_ffff {
            n as u32
        } else {
            u32::MAX
        },
        None => u32::MAX,
    }
}

/// One command or none.
pub open spec fn optional(c: Option<Command>) -> Seq<Command> {
    match c {
        Some(c) => seq![c],
        None => Seq::empty(),
    }
}

fn push_optional(out: &mut Vec<Command>, c: Option<Command>)
    ensures
        final(out)@ == old(out)@ + optional(c),
{
    let ghost start = out@;
    match c {
        Some(c) => {
            out.push(c);
            proof {
                assert(out@ =~= start + seq![c]);
            }
        },
        None => {
            proof {
                assert(out@ =~= start + Seq::empty());
            }
        },
    }
}

/// Everything that the commands of a composite depend on.
#[derive(Clone, Copy, Debug, PartialEq, Eq, Structural)]
pub struct CompositeSetup {
    pub image: u64,
    pub view: u64,
    pub extent: Extent,
    pub old_layout: Layout,
    pub pipeline: PipelineKey,
    pub attrs: CompositeAttrs,
    pub descriptor: u64,
    /// The colour that the source's one pixel image is cleared to.
    pub src_clear: Option<Color>,
    pub mask_clear: Option<Color>,
    /// Whether the destination is also source or mask.
    pub alias: bool,
    /// Whether the operator reads the destination.
    pub readback: bool,
}

/// The commands before the draws of a composite.
pub open spec fn composite_preparation(c: CompositeSetup) -> Seq<Command> {
    optional(
        match c.src_clear {
            Some(solid) => Some(Command::ClearSolid { slot: Slot::Src, solid }),
            None => None,
        },
    ) + optional(
        match c.mask_clear {
            Some(solid) => Some(Command::ClearSolid { slot: Slot::Mask, solid }),
            None => None,
        },
    ) + optional(
        if c.alias {
            Some(
                Command::Snapshot {
                    of: SnapshotKind::Alias,
                    image: c.image,
                    layout: c.old_layout,
                    format: c.pipeline.format,
                    extent: c.extent,
                },
            )
        } else {
            None
        },
    ) + optional(
        if c.readback {
            Some(
                Command::Snapshot {
                    of: SnapshotKind::Readback,
                    image: c.image,
                    layout: c.old_layout,
                    format: c.pipeline.format,
                    extent: c.extent,
                },
            )
        } else {
            None
        },
    )
}

/// The command that opens a composite.
pub open spec fn composite_open(c: CompositeSetup) -> Command {
    Command::OpenComposite {
        image: c.image,
        view: c.view,
        extent: c.extent,
        old: c.old_layout,
        pipeline: c.pipeline,
    }
}

/// The commands of a composite.
pub open spec fn composite_commands(
    c: CompositeSetup,
    quads: Seq<CompositeRect>,
    scissors: Seq<Rect>,
) -> Seq<Command> {
    composite_preparation(c) + seq![composite_open(c)] + composite_draws(
        c.descriptor,
        c.extent,
        c.attrs,
        quads,
        scissors,
    ) + seq![Command::CloseComposite { image: c.image }]
}

/// Appends the commands of a composite.
pub fn record_render_composite(
    out: &mut Vec<Command>,
    c: &CompositeSetup,
    quads: &Vec<CompositeRect>,
    scissors: &Vec<Rect>,
)
    ensures
        final(out)@ == old(out)@ + composite_commands(*c, quads@, scissors@),
{
    let ghost start = out@;
    push_optional(
        out,
        match c.src_clear {
            Some(solid) => Some(Command::ClearSolid { slot: Slot::Src, solid }),
            None => None,
        },
    );
    push_optional(
        out,
        match c.mask_clear {
            Some(solid) => Some(Command::ClearSolid { slot: Slot::Mask, solid }),
            None => None,
        },
    );
    push_optional(
        out,
        if c.alias {
            Some(
                Command::Snapshot {
                    of: SnapshotKind::Alias,
                    image: c.image,
                    layout: c.old_layout,
                    format: c.pipeline.format,
                    extent: c.extent,
                },
            )
        } else {
            None
        },
    );
    push_optional(
        out,
        if c.readback {
            Some(
                Command::Snapshot {
                    of: SnapshotKind::Readback,
                    image: c.image,
                    layout: c.old_layout,
                    format: c.pipeline.format,
                    extent: c.extent,
                },
            )
        } else {
            None
        },
    );
    proof {
        assert(out@ =~= start + composite_preparation(*c));
    }
    out.push(
        Command::OpenComposite {
            image: c.image,
            view: c.view,
            extent: c.extent,
            old: c.old_layout,
            pipeline: c.pipeline,
        },
    );
    push_composite_draws(out, c.descriptor, c.extent, c.attrs, quads, scissors);
    out.push(Command::CloseComposite { image: c.image });
    proof {
        assert(out@ =~= start + composite_commands(*c, quads@, scissors@));
    }
}

/// A composite uses its destination in the layout that it is in and leaves it
/// to be sampled; other images keep their layout.
pub proof fn composite_layouts(
    c: CompositeSetup,
    quads: Seq<CompositeRect>,
    scissors: Seq<Rect>,
    m: Layouts,
)
    requires
        m[c.image] == c.old_layout,
    ensures
        layout_run(m, composite_commands(c, quads, scissors)) == Some(
            m.insert(c.image, Layout::ColorAttachment).insert(c.image, Layout::ShaderReadOnly),
        ),
{
    let prep = composite_preparation(c);
    let draws = composite_draws(c.descriptor, c.extent, c.attrs, quads, scissors);
    let m1 = m.insert(c.image, Layout::ColorAttachment);
    assert(layout_run(m, prep) == Some(m)) by {
        layout_run_still(m, prep);
    }
    reveal_with_fuel(layout_run, 2);
    layout_run_concat(m, prep, seq![composite_open(c)]);
    layout_run_concat(m, prep + seq![composite_open(c)], draws);
    layout_run_neutral(m1, draws);
    layout_run_concat(
        m,
        prep + seq![composite_open(c)] + draws,
        seq![Command::CloseComposite { image: c.image }],
    );
    assert(seq![composite_open(c)].drop_last() =~= Seq::empty());
    assert(seq![Command::CloseComposite { image: c.image }].drop_last() =~= Seq::empty());
}

/// Commands that leave the layouts alone under `m` can all run.
proof fn layout_run_still(m: Layouts, cmds: Seq<Command>)
    requires
        forall|i: int| 0 <= i < cmds.len() ==> layout_step(m, #[trigger] cmds[i]) == Some(m),
    ensures
        layout_run(m, cmds) == Some(m),
    decreases cmds.len(),
{
    if cmds.len() > 0 {
        layout_run_still(m, cmds.drop_last());
    }
}

/// The draw commands of a composite are as many as its draw count says.
pub proof fn composite_draws_are_counted(
    c: CompositeSetup,
    quads: Seq<CompositeRect>,
    scissors: Seq<Rect>,
)
    requires
        quads.len() * scissors.len() <= u32::MAX,
    ensures
        composite_draws(c.descriptor, c.extent, c.attrs, quads, scissors).len() == draw_count(
            quads.len(),
            scissors.len(),
        ),
{
}

/// The commands of a text run.
pub open spec fn text_commands(
    image: u64,
    view: u64,
    extent: Extent,
    old: Layout,
    foreground: Color,
    glyphs: Seq<GlyphDraw>,
    scissors: Seq<Rect>,
) -> Seq<Command> {
    seq![Command::OpenText { image, view, extent, old, foreground }] + glyph_quads(glyphs, scissors)
        + seq![Command::CloseText { image }]
}

/// Appends the commands of a text run.
pub fn record_text_run_scissored(
    out: &mut Vec<Command>,
    image: u64,
    view: u64,
    extent: Extent,
    old_layout: Layout,
    foreground: Color,
    glyphs: &Vec<GlyphDraw>,
    scissors: &Vec<Rect>,
)
    ensures
        final(out)@ == old(out)@ + text_commands(
            image,
            view,
            extent,
            old_layout,
            foreground,
            glyphs@,
            scissors@,
        ),
{
    let ghost start = out@;
    out.push(Command::OpenText { image, view, extent, old: old_layout, foreground });
    push_glyph_quads(out, glyphs, scissors);
    out.push(Command::CloseText { image });
    proof {
        assert(out@ =~= start + text_commands(
            image,
            view,
            extent,
            old_layout,
            foreground,
            glyphs@,
            scissors@,
        ));
    }
}

/// A text run uses its target in the layout that it is in and leaves it to be
/// sampled; other images keep their layout.
pub proof fn text_layouts(
    image: u64,
    view: u64,
    extent: Extent,
    old: Layout,
    foreground: Color,
    glyphs: Seq<GlyphDraw>,
    scissors: Seq<Rect>,
    m: Layouts,
)
    requires
        m[image] == old,
    ensures
        layout_run(m, text_commands(image, view, extent, old, foreground, glyphs, scissors))
            == Some(m.insert(image, Layout::ColorAttachment).insert(image, Layout::ShaderReadOnly)),
{
    let open = seq![Command::OpenText { image, view, extent, old, foreground }];
    let quads = glyph_quads(glyphs, scissors);
    let m1 = m.insert(image, Layout::ColorAttachment);
    reveal_with_fuel(layout_run, 2);
    assert(open.drop_last() =~= Seq::empty());
    assert(seq![Command::CloseText { image }].drop_last() =~= Seq::empty());
    layout_run_concat(m, open, quads);
    layout_run_neutral(m1, quads);
    layout_run_concat(m, open + quads, seq![Command::CloseText { image }]);
}

} // verus!
