//! An open frame: operations that are recorded now and submitted together
//! later, with what is needed to commit them or to undo them.

use vstd::prelude::*;

use crate::command::{
    composite_commands, copy_area_commands, emit_recorded_copy_area_into_cb,
    record_render_composite, record_text_run_scissored, text_commands, Color, Command,
    CompositeSetup, GlyphDraw, RecordedCopyArea, ScratchImage,
};
use crate::error::{DrawableId, RenderError};
use crate::geometry::{build_render_clip_scissors, scissors_of, Rect, Rectangle16};
use crate::picture::CompositeRect;
use crate::store::{Drawable, DrawableStore, Layout, StoreView, Ticket};

verus! {

/// A glyph of a font or glyph set.
#[derive(Clone, Copy, Debug, PartialEq, Eq, Structural)]
pub struct GlyphKey {
    pub font_xid: u32,
    pub codepoint: u32,
}

/// Where a glyph lies in the atlas.
#[derive(Clone, Copy, Debug, PartialEq, Eq, Structural)]
pub struct AtlasEntry {
    pub atlas_x: u32,
    pub atlas_y: u32,
    pub w: u32,
    pub h: u32,
}

/// A glyph and where it lies.
#[derive(Clone, Copy, Debug, PartialEq, Eq, Structural)]
pub struct GlyphInsert {
    pub key: GlyphKey,
    pub entry: AtlasEntry,
}

/// What a frame knows of the layout of one drawable: the layout before the
/// frame and the layout after the operations recorded so far.
#[derive(Clone, Copy, Debug, PartialEq, Eq, Structural)]
pub struct LayoutEntry {
    pub id: DrawableId,
    pub pre: Layout,
    pub cur: Layout,
}

/// The ticket that a drawable had before the frame.
#[derive(Clone, Copy, Debug, PartialEq, Eq, Structural)]
pub struct TouchEntry {
    pub id: DrawableId,
    pub prior: Option<Ticket>,
}

/// What a frame knows of the layout of the atlas.
#[derive(Clone, Copy, Debug, PartialEq, Eq, Structural)]
pub struct AtlasOverlay {
    pub pre: Layout,
    pub cur: Layout,
}

/// A glyph upload that waits in a frame.
#[derive(Clone, Copy, Debug, PartialEq, Eq, Structural)]
pub struct RecordedGlyphUpload {
    /// The pinned staging buffer that holds the glyph.
    pub buffer: u64,
    pub insert: GlyphInsert,
}

/// A text run that waits in a frame.
pub struct RecordedCompositeGlyphs {
    pub dst_id: DrawableId,
    pub old_layout: Layout,
    pub foreground: Color,
    pub glyphs: Vec<GlyphDraw>,
    pub scissors: Vec<Rect>,
}

/// A composite that waits in a frame.
pub struct RecordedRenderComposite {
    pub dst_id: DrawableId,
    pub setup: CompositeSetup,
    pub rects: Vec<CompositeRect>,
    pub clip: Option<Vec<Rectangle16>>,
}

/// An operation that waits in a frame.
pub enum RecordedOp {
    GlyphUpload(RecordedGlyphUpload),
    CompositeGlyphs(RecordedCompositeGlyphs),
    RenderComposite(RecordedRenderComposite),
    CopyArea(RecordedCopyArea),
}

/// An operation that waits in a frame, as a value.
pub ghost enum OpView {
    GlyphUpload(RecordedGlyphUpload),
    CompositeGlyphs {
        dst_id: DrawableId,
        old_layout: Layout,
        foreground: Color,
        glyphs: Seq<GlyphDraw>,
        scissors: Seq<Rect>,
    },
    RenderComposite {
        dst_id: DrawableId,
        setup: CompositeSetup,
        rects: Seq<CompositeRect>,
        scissors: Seq<Rect>,
    },
    CopyArea(RecordedCopyArea),
}

impl View for RecordedOp {
    type V = OpView;

    open spec fn view(&self) -> OpView {
        match *self {
            RecordedOp::GlyphUpload(u) => OpView::GlyphUpload(u),
            RecordedOp::CompositeGlyphs(g) => OpView::CompositeGlyphs {
                dst_id: g.dst_id,
                old_layout: g.old_layout,
                foreground: g.foreground,
                glyphs: g.glyphs@,
                scissors: g.scissors@,
            },
            RecordedOp::RenderComposite(c) => OpView::RenderComposite {
                dst_id: c.dst_id,
                setup: c.setup,
                rects: c.rects@,
                scissors: scissors_of(c.clip, c.setup.extent),
            },
            RecordedOp::CopyArea(ca) => OpView::CopyArea(ca),
        }
    }
}

/// The operations of a list, as values.
pub open spec fn op_views(ops: Seq<RecordedOp>) -> Seq<OpView> {
    ops.map_values(|o: RecordedOp| o@)
}

/// The frame that paint operations are recorded into.
pub struct OpenFrame {
    /// The ticket that the frame will be submitted under.
    pub ticket: Ticket,
    /// The tag of every descriptor that the frame uses.
    pub generation: u64,
    pub ops: Vec<RecordedOp>,
    pub layouts: Vec<LayoutEntry>,
    pub touched: Vec<TouchEntry>,
    pub atlas_layout: Option<AtlasOverlay>,
    /// The ticket of the atlas before the frame, once the frame uses it.
    pub atlas_prev_ticket: Option<Option<Ticket>>,
    /// The staging buffers that the frame keeps alive.
    pub pins: Vec<u64>,
    /// Retired objects that the frame keeps alive.
    pub retired: Vec<u64>,
    /// The glyphs that the atlas holds once the frame is submitted.
    pub pending_glyph_inserts: Vec<GlyphInsert>,
    pub glyph_uploads_in_frame: u32,
}

#[verifier::ext_equal]
pub ghost struct FrameView {
    pub ticket: Ticket,
    pub generation: u64,
    pub ops: Seq<OpView>,
    pub layouts: Seq<LayoutEntry>,
    pub touched: Seq<TouchEntry>,
    pub atlas_layout: Option<AtlasOverlay>,
    pub atlas_prev_ticket: Option<Option<Ticket>>,
    pub pins: Seq<u64>,
    pub retired: Seq<u64>,
    pub pending_glyph_inserts: Seq<GlyphInsert>,
    pub glyph_uploads_in_frame: u32,
}

impl View for OpenFrame {
    type V = FrameView;

    open spec fn view(&self) -> FrameView {
        FrameView {
            ticket: self.ticket,
            generation: self.generation,
            ops: op_views(self.ops@),
            layouts: self.layouts@,
            touched: self.touched@,
            atlas_layout: self.atlas_layout,
            atlas_prev_ticket: self.atlas_prev_ticket,
            pins: self.pins@,
            retired: self.retired@,
            pending_glyph_inserts: self.pending_glyph_inserts@,
            glyph_uploads_in_frame: self.glyph_uploads_in_frame,
        }
    }
}

/// The first entry for a drawable.
pub open spec fn find_layout(list: Seq<LayoutEntry>, id: DrawableId) -> Option<LayoutEntry>
    decreases list.len(),
{
    if list.len() == 0 {
        None
    } else if list[0].id == id {
        Some(list[0])
    } else {
        find_layout(list.skip(1), id)
    }
}

/// The first entry for a drawable.
pub open spec fn find_touch(list: Seq<TouchEntry>, id: DrawableId) -> Option<TouchEntry>
    decreases list.len(),
{
    if list.len() == 0 {
        None
    } else if list[0].id == id {
        Some(list[0])
    } else {
        find_touch(list.skip(1), id)
    }
}

/// The list with the recorded layout of one drawable replaced.
pub open spec fn set_cur(list: Seq<LayoutEntry>, id: DrawableId, layout: Layout) -> Seq<
    LayoutEntry,
> {
    list.map_values(
        |e: LayoutEntry|
            if e.id == id {
                LayoutEntry { cur: layout, ..e }
            } else {
                e
            },
    )
}

/// The newest entry of a glyph.
pub open spec fn find_glyph(list: Seq<GlyphInsert>, key: GlyphKey) -> Option<AtlasEntry>
    decreases list.len(),
{
    if list.len() == 0 {
        None
    } else if list.last().key == key {
        Some(list.last().entry)
    } else {
        find_glyph(list.drop_last(), key)
    }
}

/// The oldest entry of a glyph.
pub open spec fn find_first_glyph(list: Seq<GlyphInsert>, key: GlyphKey) -> Option<AtlasEntry>
    decreases list.len(),
{
    if list.len() == 0 {
        None
    } else if list[0].key == key {
        Some(list[0].entry)
    } else {
        find_first_glyph(list.skip(1), key)
    }
}

pub fn lookup_glyph(list: &Vec<GlyphInsert>, key: GlyphKey) -> (r: Option<AtlasEntry>)
    ensures
        r == find_glyph(list@, key),
{
    let mut i: usize = list.len();
    proof {
        assert(list@.take(i as int) == list@);
    }
    while i > 0
        invariant
            i <= list.len(),
            find_glyph(list@, key) == find_glyph(list@.take(i as int), key),
        decreases i,
    {
        let g = list[i - 1];
        proof {
            assert(list@.take(i as int).drop_last() == list@.take(i - 1));
        }
        if g.key == key {
            return Some(g.entry);
        }
        i = i - 1;
    }
    None
}

pub fn lookup_first_glyph(list: &Vec<GlyphInsert>, key: GlyphKey) -> (r: Option<AtlasEntry>)
    ensures
        r == find_first_glyph(list@, key),
{
    let mut i: usize = 0;
    proof {
        assert(list@.skip(0) == list@);
    }
    while i < list.len()
        invariant
            i <= list.len(),
            find_first_glyph(list@, key) == find_first_glyph(list@.skip(i as int), key),
        decreases list.len() - i,
    {
        let g = list[i];
        proof {
            assert(list@.skip(i as int).skip(1) == list@.skip(i + 1));
        }
        if g.key == key {
            return Some(g.entry);
        }
        i = i + 1;
    }
    None
}

impl FrameView {
    /// A frame that nothing was recorded into yet.
    pub open spec fn fresh(ticket: Ticket, generation: u64) -> FrameView {
        FrameView {
            ticket,
            generation,
            ops: Seq::empty(),
            layouts: Seq::empty(),
            touched: Seq::empty(),
            atlas_layout: None,
            atlas_prev_ticket: None,
            pins: Seq::empty(),
            retired: Seq::empty(),
            pending_glyph_inserts: Seq::empty(),
            glyph_uploads_in_frame: 0,
        }
    }

    /// The layout that the operations recorded so far leave a drawable in,
    /// `stored` being the layout before the frame.
    pub open spec fn current_layout(self, id: DrawableId, stored: Layout) -> Layout {
        match find_layout(self.layouts, id) {
            Some(e) => e.cur,
            None => stored,
        }
    }

    /// The frame once it refers to a drawable that has this layout and ticket
    /// in the store. Only the first reference is noted.
    pub open spec fn referring(
        self,
        id: DrawableId,
        layout: Layout,
        ticket: Option<Ticket>,
    ) -> FrameView {
        FrameView {
            touched: if find_touch(self.touched, id) is Some {
                self.touched
            } else {
                self.touched.push(TouchEntry { id, prior: ticket })
            },
            layouts: if find_layout(self.layouts, id) is Some {
                self.layouts
            } else {
                self.layouts.push(LayoutEntry { id, pre: layout, cur: layout })
            },
            ..self
        }
    }

    /// The frame with one more operation, which leaves `id` in `layout`.
    pub open spec fn recorded(self, op: OpView, id: DrawableId, layout: Layout) -> FrameView {
        FrameView {
            ops: self.ops.push(op),
            layouts: set_cur(self.layouts, id, layout),
            ..self
        }
    }

    /// The frame once it refers to an atlas with this layout and ticket.
    pub open spec fn using_atlas(self, layout: Layout, ticket: Option<Ticket>) -> FrameView {
        if self.atlas_prev_ticket is Some {
            self
        } else {
            FrameView {
                atlas_prev_ticket: Some(ticket),
                atlas_layout: Some(AtlasOverlay { pre: layout, cur: layout }),
                ..self
            }
        }
    }

    /// The frame with one more glyph upload. The upload leaves the atlas to be
    /// sampled.
    pub open spec fn uploading(self, buffer: u64, insert: GlyphInsert) -> FrameView {
        FrameView {
            pins: self.pins.push(buffer),
            ops: self.ops.push(OpView::GlyphUpload(RecordedGlyphUpload { buffer, insert })),
            pending_glyph_inserts: self.pending_glyph_inserts.push(insert),
            glyph_uploads_in_frame: if self.glyph_uploads_in_frame < u32::MAX {
                (self.glyph_uploads_in_frame + 1) as u32
            } else {
                u32::MAX
            },
            atlas_layout: match self.atlas_layout {
                Some(o) => Some(AtlasOverlay { cur: Layout::ShaderReadOnly, ..o }),
                None => None,
            },
            ..self
        }
    }
}

impl OpenFrame {
    /// A frame that nothing was recorded into yet.
    pub fn new(ticket: Ticket, generation: u64) -> (r: OpenFrame)
        ensures
            r@ == FrameView::fresh(ticket, generation),
    {
        let r = OpenFrame {
            ticket,
            generation,
            ops: Vec::new(),
            layouts: Vec::new(),
            touched: Vec::new(),
            atlas_layout: None,
            atlas_prev_ticket: None,
            pins: Vec::new(),
            retired: Vec::new(),
            pending_glyph_inserts: Vec::new(),
            glyph_uploads_in_frame: 0,
        };
        proof {
            assert(r@ =~= FrameView::fresh(ticket, generation));
        }
        r
    }

    pub fn find_layout(&self, id: DrawableId) -> (r: Option<LayoutEntry>)
        ensures
            r == find_layout(self@.layouts, id),
    {
        let mut i: usize = 0;
        proof {
            assert(self.layouts@.skip(0) == self.layouts@);
        }
        while i < self.layouts.len()
            invariant
                i <= self.layouts.len(),
                find_layout(self.layouts@, id) == find_layout(self.layouts@.skip(i as int), id),
            decreases self.layouts.len() - i,
        {
            let e = self.layouts[i];
            proof {
                assert(self.layouts@.skip(i as int).skip(1) == self.layouts@.skip(i + 1));
            }
            if e.id == id {
                return Some(e);
            }
            i = i + 1;
        }
        None
    }

    fn find_touch(&self, id: DrawableId) -> (r: Option<TouchEntry>)
        ensures
            r == find_touch(self@.touched, id),
    {
        let mut i: usize = 0;
        proof {
            assert(self.touched@.skip(0) == self.touched@);
        }
        while i < self.touched.len()
            invariant
                i <= self.touched.len(),
                find_touch(self.touched@, id) == find_touch(self.touched@.skip(i as int), id),
            decreases self.touched.len() - i,
        {
            let e = self.touched[i];
            proof {
                assert(self.touched@.skip(i as int).skip(1) == self.touched@.skip(i + 1));
            }
            if e.id == id {
                return Some(e);
            }
            i = i + 1;
        }
        None
    }

    /// The layout that the operations recorded so far leave a drawable in.
    pub fn current_layout(&self, id: DrawableId, stored: Layout) -> (r: Layout)
        ensures
            r == self@.current_layout(id, stored),
    {
        match self.find_layout(id) {
            Some(e) => e.cur,
            None => stored,
        }
    }

    /// Notes a reference to a drawable that has this layout and ticket in the
    /// store.
    pub fn refer(&mut self, id: DrawableId, layout: Layout, ticket: Option<Ticket>)
        ensures
            final(self)@ == old(self)@.referring(id, layout, ticket),
    {
        if self.find_touch(id).is_none() {
            self.touched.push(TouchEntry { id, prior: ticket });
        }
        if self.find_layout(id).is_none() {
            self.layouts.push(LayoutEntry { id, pre: layout, cur: layout });
        }
        proof {
            assert(self@ =~= old(self)@.referring(id, layout, ticket));
        }
    }

    fn set_cur(&mut self, id: DrawableId, layout: Layout)
        ensures
            final(self)@ == (FrameView {
                layouts: set_cur(old(self)@.layouts, id, layout),
                ..old(self)@
            }),
    {
        let ghost start = self@;
        let ghost goal = set_cur(start.layouts, id, layout);
        let mut i: usize = 0;
        while i < self.layouts.len()
            invariant
                i <= self.layouts.len(),
                goal == set_cur(start.layouts, id, layout),
                self.layouts@ == goal.take(i as int) + start.layouts.skip(i as int),
                self.layouts@.len() == start.layouts.len(),
                self@ == (FrameView { layouts: self.layouts@, ..start }),
            decreases self.layouts.len() - i,
        {
            let e = self.layouts[i];
            if e.id == id {
                self.layouts.set(i, LayoutEntry { cur: layout, ..e });
            }
            proof {
                assert(self.layouts@ =~= goal.take(i + 1) + start.layouts.skip(i + 1));
                assert(self@ =~= (FrameView { layouts: self.layouts@, ..start }));
            }
            i = i + 1;
        }
        proof {
            assert(self.layouts@ =~= goal);
        }
    }

    /// Records an operation that leaves `id` in `layout`.
    pub fn record(&mut self, op: RecordedOp, id: DrawableId, layout: Layout)
        ensures
            final(self)@ == old(self)@.recorded(op@, id, layout),
    {
        let ghost start = self@;
        self.ops.push(op);
        proof {
            assert(self@ =~= (FrameView { ops: start.ops.push(op@), ..start }));
        }
        self.set_cur(id, layout);
        proof {
            assert(self@ =~= start.recorded(op@, id, layout));
        }
    }

    /// Notes that an operation recorded last also leaves `id` in `layout`.
    pub fn also_leaves(&mut self, id: DrawableId, layout: Layout)
        ensures
            final(self)@ == (FrameView {
                layouts: set_cur(old(self)@.layouts, id, layout),
                ..old(self)@
            }),
    {
        self.set_cur(id, layout);
    }

    /// Notes the first use of an atlas that has this layout and ticket.
    pub fn use_atlas(&mut self, layout: Layout, ticket: Option<Ticket>)
        ensures
            final(self)@ == old(self)@.using_atlas(layout, ticket),
    {
        if self.atlas_prev_ticket.is_none() {
            self.atlas_prev_ticket = Some(ticket);
            self.atlas_layout = Some(AtlasOverlay { pre: layout, cur: layout });
        }
        proof {
            assert(self@ =~= old(self)@.using_atlas(layout, ticket));
        }
    }

    /// Records a glyph upload from a buffer, which the frame keeps alive.
    pub fn upload(&mut self, buffer: u64, insert: GlyphInsert)
        ensures
            final(self)@ == old(self)@.uploading(buffer, insert),
    {
        self.pins.push(buffer);
        self.ops.push(RecordedOp::GlyphUpload(RecordedGlyphUpload { buffer, insert }));
        self.pending_glyph_inserts.push(insert);
        if self.glyph_uploads_in_frame < u32::MAX {
            self.glyph_uploads_in_frame = self.glyph_uploads_in_frame + 1;
        }
        match self.atlas_layout {
            Some(o) => {
                self.atlas_layout = Some(AtlasOverlay { cur: Layout::ShaderReadOnly, ..o });
            },
            None => {},
        }
        proof {
            assert(self@ =~= old(self)@.uploading(buffer, insert));
        }
    }
}

/// The store after each drawable that the list names got the layout from
/// before the frame, or the layout that the frame leaves it in.
pub open spec fn with_layouts(st: StoreView, list: Seq<LayoutEntry>, undo: bool) -> StoreView {
    StoreView {
        slots: Seq::new(
            st.slots.len(),
            |i: int|
                match st.slots[i] {
                    Some(d) => Some(
                        Drawable {
                            layout: match find_layout(list, i as DrawableId) {
                                Some(e) => if undo {
                                    e.pre
                                } else {
                                    e.cur
                                },
                                None => d.layout,
                            },
                            ..d
                        },
                    ),
                    None => None,
                },
        ),
        ..st
    }
}

/// The store after each drawable that the list names got its ticket from
/// before the frame back.
pub open spec fn with_tickets(st: StoreView, list: Seq<TouchEntry>) -> StoreView {
    StoreView {
        slots: Seq::new(
            st.slots.len(),
            |i: int|
                match st.slots[i] {
                    Some(d) => Some(
                        Drawable {
                            last_render_ticket: match find_touch(list, i as DrawableId) {
                                Some(e) => e.prior,
                                None => d.last_render_ticket,
                            },
                            ..d
                        },
                    ),
                    None => None,
                },
        ),
        ..st
    }
}

fn write_layouts(store: &mut DrawableStore, list: &Vec<LayoutEntry>, undo: bool)
    ensures
        final(store)@ == with_layouts(old(store)@, list@, undo),
{
    let ghost start = store@;
    let len: usize = store.slots.len();
    let mut i: usize = list.len();
    proof {
        assert(store@ =~= with_layouts(start, list@.skip(i as int), undo));
    }
    while i > 0
        invariant
            i <= list.len(),
            len == start.slots.len(),
            store@ == with_layouts(start, list@.skip(i as int), undo),
        decreases i,
    {
        let e = list[i - 1];
        let ghost before = store@;
        store.set_layout(
            e.id,
            if undo {
                e.pre
            } else {
                e.cur
            },
        );
        proof {
            let rest = list@.skip(i as int);
            let more = list@.skip(i - 1);
            assert(more.skip(1) =~= rest);
            assert(store@ =~= with_layouts(start, more, undo)) by {
                assert(store@.slots =~= with_layouts(start, more, undo).slots);
            }
        }
        i = i - 1;
    }
    proof {
        assert(list@.skip(0) =~= list@);
    }
}

fn write_tickets(store: &mut DrawableStore, list: &Vec<TouchEntry>)
    ensures
        final(store)@ == with_tickets(old(store)@, list@),
{
    let ghost start = store@;
    let len: usize = store.slots.len();
    let mut i: usize = list.len();
    proof {
        assert(store@ =~= with_tickets(start, list@.skip(i as int)));
    }
    while i > 0
        invariant
            i <= list.len(),
            len == start.slots.len(),
            store@ == with_tickets(start, list@.skip(i as int)),
        decreases i,
    {
        let e = list[i - 1];
        store.set_ticket(e.id, e.prior);
        proof {
            let rest = list@.skip(i as int);
            let more = list@.skip(i - 1);
            assert(more.skip(1) =~= rest);
            assert(store@ =~= with_tickets(start, more)) by {
                assert(store@.slots =~= with_tickets(start, more).slots);
            }
        }
        i = i - 1;
    }
    proof {
        assert(list@.skip(0) =~= list@);
    }
}

/// The store after a frame was undone.
pub open spec fn rolled_back(st: StoreView, frame: FrameView) -> StoreView {
    with_tickets(with_layouts(st, frame.layouts, true), frame.touched)
}

/// Undoes what a frame did to the drawables that it refers to: each gets the
/// layout and the ticket back that it had before the frame.
pub fn rollback_pre_submit(store: &mut DrawableStore, open_frame: &mut OpenFrame)
    ensures
        final(store)@ == rolled_back(old(store)@, old(open_frame)@),
        final(open_frame)@ == (FrameView {
            layouts: Seq::empty(),
            touched: Seq::empty(),
            ..old(open_frame)@
        }),
{
    write_layouts(store, &open_frame.layouts, true);
    write_tickets(store, &open_frame.touched);
    open_frame.layouts.clear();
    open_frame.touched.clear();
    proof {
        assert(open_frame@ =~= (FrameView {
            layouts: Seq::empty(),
            touched: Seq::empty(),
            ..old(open_frame)@
        }));
    }
}

/// The store after a frame was submitted.
pub open spec fn committed(st: StoreView, frame: FrameView) -> StoreView {
    with_layouts(st, frame.layouts, false)
}

/// Gives each drawable that a submitted frame refers to the layout that the
/// frame leaves it in.
pub fn commit_layouts(store: &mut DrawableStore, open_frame: &OpenFrame)
    ensures
        final(store)@ == committed(old(store)@, open_frame@),
{
    write_layouts(store, &open_frame.layouts, false);
}

/// The commands of one recorded operation, or why it cannot be replayed:
/// glyphs need an atlas and a text pipeline, a text run its target.
pub open spec fn op_commands(st: StoreView, text_ready: bool, op: OpView) -> Result<
    Seq<Command>,
    RenderError,
> {
    match op {
        OpView::GlyphUpload(u) => if text_ready {
            Ok(
                seq![
                    Command::UploadGlyph {
                        buffer: u.buffer,
                        atlas_x: u.insert.entry.atlas_x,
                        atlas_y: u.insert.entry.atlas_y,
                        w: u.insert.entry.w,
                        h: u.insert.entry.h,
                    },
                ],
            )
        } else {
            Err(RenderError::NoVk)
        },
        OpView::CompositeGlyphs { dst_id, old_layout, foreground, glyphs, scissors } => if !text_ready {
            Err(RenderError::NoVk)
        } else {
            match st.get(dst_id) {
                Some(d) => Ok(
                    text_commands(
                        d.image,
                        d.view,
                        d.extent,
                        old_layout,
                        foreground,
                        glyphs,
                        scissors,
                    ),
                ),
                None => Err(RenderError::UnknownDrawable(dst_id)),
            }
        },
        OpView::RenderComposite { setup, rects, scissors, .. } => Ok(
            composite_commands(setup, rects, scissors),
        ),
        OpView::CopyArea(ca) => Ok(copy_area_commands(ca)),
    }
}

/// The commands of a list of recorded operations, or the first reason why
/// they cannot be replayed.
pub open spec fn frame_commands(st: StoreView, text_ready: bool, ops: Seq<OpView>) -> Result<
    Seq<Command>,
    RenderError,
>
    decreases ops.len(),
{
    if ops.len() == 0 {
        Ok(Seq::empty())
    } else {
        match frame_commands(st, text_ready, ops.drop_last()) {
            Err(e) => Err(e),
            Ok(head) => match op_commands(st, text_ready, ops.last()) {
                Err(e) => Err(e),
                Ok(cmds) => Ok(head + cmds),
            },
        }
    }
}

/// Appends the commands of one recorded operation.
fn emit_recorded_op_into_cb(
    store: &DrawableStore,
    text_ready: bool,
    out: &mut Vec<Command>,
    op: &RecordedOp,
) -> (r: Result<(), RenderError>)
    ensures
        match op_commands(store@, text_ready, op@) {
            Ok(cmds) => r is Ok && final(out)@ == old(out)@ + cmds,
            Err(e) => r == Err::<(), RenderError>(e),
        },
{
    let ghost start = out@;
    match op {
        RecordedOp::GlyphUpload(u) => {
            if !text_ready {
                return Err(RenderError::NoVk);
            }
            out.push(
                Command::UploadGlyph {
                    buffer: u.buffer,
                    atlas_x: u.insert.entry.atlas_x,
                    atlas_y: u.insert.entry.atlas_y,
                    w: u.insert.entry.w,
                    h: u.insert.entry.h,
                },
            );
            proof {
                assert(out@ =~= start + op_commands(store@, text_ready, op@)->Ok_0);
            }
            Ok(())
        },
        RecordedOp::CompositeGlyphs(g) => {
            if !text_ready {
                return Err(RenderError::NoVk);
            }
            match store.get(g.dst_id) {
                Some(d) => {
                    record_text_run_scissored(
                        out,
                        d.image,
                        d.view,
                        d.extent,
                        g.old_layout,
                        g.foreground,
                        &g.glyphs,
                        &g.scissors,
                    );
                    Ok(())
                },
                None => Err(RenderError::UnknownDrawable(g.dst_id)),
            }
        },
        RecordedOp::RenderComposite(c) => {
            let scissors = build_render_clip_scissors(&c.clip, c.setup.extent);
            record_render_composite(out, &c.setup, &c.rects, &scissors);
            Ok(())
        },
        RecordedOp::CopyArea(ca) => {
            emit_recorded_copy_area_into_cb(out, ca);
            Ok(())
        },
    }
}

/// The commands that replay a frame, in the order in which its operations
/// were recorded.
pub fn emit_frame(store: &DrawableStore, text_ready: bool, frame: &OpenFrame) -> (r: Result<
    Vec<Command>,
    RenderError,
>)
    ensures
        match frame_commands(store@, text_ready, frame@.ops) {
            Ok(cmds) => r is Ok && r->Ok_0@ == cmds,
            Err(e) => r == Err::<Vec<Command>, RenderError>(e),
        },
{
    let mut out: Vec<Command> = Vec::new();
    let ghost ops = frame@.ops;
    let mut i: usize = 0;
    proof {
        assert(out@ =~= Seq::empty());
        assert(ops.take(0) =~= Seq::empty());
    }
    while i < frame.ops.len()
        invariant
            i <= frame.ops.len(),
            ops == op_views(frame.ops@),
            frame_commands(store@, text_ready, ops.take(i as int)) == Ok::<_, RenderError>(out@),
        decreases frame.ops.len() - i,
    {
        proof {
            assert(ops.take(i + 1).drop_last() =~= ops.take(i as int));
            assert(ops.take(i + 1).last() == frame.ops@[i as int]@);
        }
        match emit_recorded_op_into_cb(store, text_ready, &mut out, &frame.ops[i]) {
            Ok(_) => {},
            Err(e) => {
                proof {
                    frame_commands_error(store@, text_ready, ops, i + 1, e);
                }
                return Err(e);
            },
        }
        i = i + 1;
    }
    proof {
        assert(ops.take(i as int) =~= ops);
    }
    Ok(out)
}

/// A prefix that cannot be replayed decides what the whole list gives.
proof fn frame_commands_error(
    st: StoreView,
    text_ready: bool,
    ops: Seq<OpView>,
    n: int,
    e: RenderError,
)
    requires
        0 <= n <= ops.len(),
        frame_commands(st, text_ready, ops.take(n)) == Err::<Seq<Command>, RenderError>(e),
    ensures
        frame_commands(st, text_ready, ops) == Err::<Seq<Command>, RenderError>(e),
    decreases ops.len() - n,
{
    if n == ops.len() {
        assert(ops.take(n) =~= ops);
    } else {
        assert(ops.take(n + 1).drop_last() =~= ops.take(n));
        frame_commands_error(st, text_ready, ops, n + 1, e);
    }
}

/// The scratch images of the copies of a list, in order.
pub open spec fn scratches(ops: Seq<OpView>) -> Seq<ScratchImage>
    decreases ops.len(),
{
    if ops.len() == 0 {
        Seq::empty()
    } else {
        let head = scratches(ops.drop_last());
        match ops.last() {
            OpView::CopyArea(ca) => match ca.self_overlap_scratch {
                Some(s) => head.push(s),
                None => head,
            },
            _ => head,
        }
    }
}

/// Collects the scratch images of the copies of a frame.
pub fn frame_scratches(frame: &OpenFrame) -> (r: Vec<ScratchImage>)
    ensures
        r@ == scratches(frame@.ops),
{
    let mut out: Vec<ScratchImage> = Vec::new();
    let ghost ops = frame@.ops;
    let mut i: usize = 0;
    proof {
        assert(out@ =~= Seq::empty());
        assert(ops.take(0) =~= Seq::empty());
    }
    while i < frame.ops.len()
        invariant
            i <= frame.ops.len(),
            ops == op_views(frame.ops@),
            out@ == scratches(ops.take(i as int)),
        decreases frame.ops.len() - i,
    {
        proof {
            assert(ops.take(i + 1).drop_last() =~= ops.take(i as int));
            assert(ops.take(i + 1).last() == frame.ops@[i as int]@);
        }
        match &frame.ops[i] {
            RecordedOp::CopyArea(ca) => match ca.self_overlap_scratch {
                Some(s) => {
                    out.push(s);
                },
                None => {},
            },
            _ => {},
        }
        i = i + 1;
    }
    proof {
        assert(ops.take(i as int) =~= ops);
    }
    out
}

/// The number of composites in a list.
pub open spec fn render_count(ops: Seq<OpView>) -> nat
    decreases ops.len(),
{
    if ops.len() == 0 {
        0
    } else {
        render_count(ops.drop_last()) + if ops.last() is RenderComposite {
            1nat
        } else {
            0nat
        }
    }
}

pub open spec fn saturated(n: nat) -> u32 {
    if n <= u32::MAX {
        n as u32
    } else {
        u32::MAX
    }
}

/// Counts the composites of a frame.
pub fn count_renders(frame: &OpenFrame) -> (r: u32)
    ensures
        r == saturated(render_count(frame@.ops)),
{
    let mut n: usize = 0;
    let ghost ops = frame@.ops;
    let mut i: usize = 0;
    proof {
        assert(ops.take(0) =~= Seq::empty());
    }
    while i < frame.ops.len()
        invariant
            i <= frame.ops.len(),
            n <= i,
            ops == op_views(frame.ops@),
            n == render_count(ops.take(i as int)),
        decreases frame.ops.len() - i,
    {
        proof {
            assert(ops.take(i + 1).drop_last() =~= ops.take(i as int));
            assert(ops.take(i + 1).last() == frame.ops@[i as int]@);
        }
        match &frame.ops[i] {
            RecordedOp::RenderComposite(_) => {
                n = n + 1;
            },
            _ => {},
        }
        i = i + 1;
    }
    proof {
        assert(ops.take(i as int) =~= ops);
    }
    if n <= 0xffff_ffff {
        n as u32
    } else {
        u32::MAX
    }
}

} // verus!
