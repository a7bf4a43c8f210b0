//! Text runs: glyphs are looked up in the atlas, uploaded if they are new,
//! and drawn in one go.

use vstd::prelude::*;

use crate::command::{
    record_text_run_scissored, text_commands, Color, Command, GlyphDraw,
};
use crate::compositing::{clips_all, no_scissor_clips_all};
use crate::engine::{
    bump, bumped, AtlasView, Chore, EngineView, RenderEngine, Staging, SubmittedOp, SubmittedView,
};
use crate::error::{DrawableId, RenderError, VkCode};
use crate::frame::{find_glyph, lookup_glyph, AtlasEntry, GlyphInsert, GlyphKey};
use crate::geometry::{
    build_render_clip_scissors, clamp_rect, clamped, scissors_of, Extent, Offset, Rect, Rectangle16,
};
use crate::lettering::{letters, text_draws_its_glyphs};
use crate::paint::{
    paint_abandoned, paint_engine, paint_group, paint_result, paint_store, target_check, Decision,
    PaintReply, Upkeep, UpkeepView,
};
use crate::store::{Drawable, DrawableStore, Format, Layout, StoreView, Ticket};
use crate::submit::{GroupView, SubmitGroup};

verus! {

/// A rasterised glyph and where it goes.
pub struct GlyphImage {
    pub key: GlyphKey,
    pub w: u32,
    pub h: u32,
    /// One alpha byte per pixel, row by row.
    pub pixels: Vec<u8>,
    pub dst_x: i32,
    pub dst_y: i32,
}

impl GlyphImage {
    pub open spec fn spec_is_empty(&self) -> bool {
        self.w == 0 || self.h == 0
    }

    /// Whether every pixel is there.
    pub open spec fn spec_complete(&self) -> bool {
        self.pixels@.len() >= self.w * self.h
    }

    fn is_empty(&self) -> (r: bool)
        ensures
            r == self.spec_is_empty(),
    {
        self.w == 0 || self.h == 0
    }

    /// Whether every pixel is there.
    pub fn is_complete(&self) -> (r: bool)
        ensures
            r == self.spec_complete(),
    {
        proof {
            assert(0 <= self.w * self.h <= 0xffff_ffff * 0xffff_ffff) by (nonlinear_arith)
                requires
                    0 <= self.w <= 0xffff_ffff,
                    0 <= self.h <= 0xffff_ffff,
            ;
        }
        let need: u64 = self.w as u64 * self.h as u64;
        self.pixels.len() as u64 >= need
    }

    /// The size of the staging buffer of an upload.
    pub fn upload_size(&self) -> (r: u64)
        ensures
            r == if self.w * self.h > 0 {
                self.w * self.h
            } else {
                1
            },
    {
        proof {
            assert(0 <= self.w * self.h <= 0xffff_ffff * 0xffff_ffff) by (nonlinear_arith)
                requires
                    0 <= self.w <= 0xffff_ffff,
                    0 <= self.h <= 0xffff_ffff,
            ;
        }
        let need: u64 = self.w as u64 * self.h as u64;
        if need > 0 {
            need
        } else {
            1
        }
    }
}

/// What a text run did.
#[derive(Clone, Copy, Debug, PartialEq, Eq, Structural)]
pub struct ImageTextStats {
    /// The glyphs that got a place in the atlas.
    pub atlas_interns: u64,
    /// The glyphs that were uploaded.
    pub glyph_uploads: u64,
    /// The glyphs that were left out.
    pub glyphs_dropped: u64,
}

pub open spec fn no_text() -> ImageTextStats {
    ImageTextStats { atlas_interns: 0, glyph_uploads: 0, glyphs_dropped: 0 }
}

pub fn empty_text_stats() -> (r: ImageTextStats)
    ensures
        r == no_text(),
{
    ImageTextStats { atlas_interns: 0, glyph_uploads: 0, glyphs_dropped: 0 }
}

/// The smallest box around the glyphs drawn so far.
#[derive(Clone, Copy, Debug, PartialEq, Eq, Structural)]
pub struct DamageBox {
    pub min_x: i32,
    pub min_y: i32,
    pub max_x: i32,
    pub max_y: i32,
}

/// The box around nothing.
pub open spec fn no_box() -> DamageBox {
    DamageBox { min_x: i32::MAX, min_y: i32::MAX, max_x: i32::MIN, max_y: i32::MIN }
}

/// The far edge of a glyph, as far as a coordinate holds it.
pub open spec fn far_edge(pos: i32, len: u32) -> i32 {
    let far = pos + (len as i32);
    if far > i32::MAX {
        i32::MAX
    } else if far < i32::MIN {
        i32::MIN
    } else {
        far as i32
    }
}

fn add_edge(pos: i32, len: u32) -> (r: i32)
    ensures
        r == far_edge(pos, len),
{
    let far: i64 = pos as i64 + (len as i32) as i64;
    if far > 0x7fff_ffff {
        i32::MAX
    } else if far < -0x8000_0000 {
        i32::MIN
    } else {
        far as i32
    }
}

pub open spec fn smaller(a: i32, b: i32) -> i32 {
    if b < a {
        b
    } else {
        a
    }
}

pub open spec fn larger(a: i32, b: i32) -> i32 {
    if b > a {
        b
    } else {
        a
    }
}

/// The box once it holds one more glyph.
pub open spec fn box_with(b: DamageBox, x: i32, y: i32, e: AtlasEntry) -> DamageBox {
    DamageBox {
        min_x: smaller(b.min_x, x),
        min_y: smaller(b.min_y, y),
        max_x: larger(b.max_x, far_edge(x, e.w)),
        max_y: larger(b.max_y, far_edge(y, e.h)),
    }
}

fn extend_box(b: DamageBox, x: i32, y: i32, e: AtlasEntry) -> (r: DamageBox)
    ensures
        r == box_with(b, x, y, e),
{
    let fx: i32 = add_edge(x, e.w);
    let fy: i32 = add_edge(y, e.h);
    DamageBox {
        min_x: if x < b.min_x {
            x
        } else {
            b.min_x
        },
        min_y: if y < b.min_y {
            y
        } else {
            b.min_y
        },
        max_x: if fx > b.max_x {
            fx
        } else {
            b.max_x
        },
        max_y: if fy > b.max_y {
            fy
        } else {
            b.max_y
        },
    }
}

/// The part of the box at non-negative coordinates, if it has any area.
pub open spec fn box_rect(b: DamageBox) -> Option<Rect> {
    let dx = larger(b.min_x, 0);
    let dy = larger(b.min_y, 0);
    if b.max_x > b.min_x && b.max_y > b.min_y && b.max_x > dx && b.max_y > dy {
        Some(
            Rect {
                offset: Offset { x: dx, y: dy },
                extent: Extent { width: (b.max_x - dx) as u32, height: (b.max_y - dy) as u32 },
            },
        )
    } else {
        None
    }
}

fn rect_of_box(b: DamageBox) -> (r: Option<Rect>)
    ensures
        r == box_rect(b),
{
    let dx: i32 = if b.min_x < 0 {
        0
    } else {
        b.min_x
    };
    let dy: i32 = if b.min_y < 0 {
        0
    } else {
        b.min_y
    };
    if b.max_x > b.min_x && b.max_y > b.min_y && b.max_x > dx && b.max_y > dy {
        Some(
            Rect {
                offset: Offset { x: dx, y: dy },
                extent: Extent { width: (b.max_x - dx) as u32, height: (b.max_y - dy) as u32 },
            },
        )
    } else {
        None
    }
}

/// The damage of a text run, clipped to the target if its size is given.
pub open spec fn text_damage(b: DamageBox, clip: Option<Extent>) -> Seq<Rect> {
    match box_rect(b) {
        None => Seq::empty(),
        Some(r) => match clip {
            Some(e) => seq![clamped(r, e)],
            None => seq![r],
        },
    }
}

pub fn damage_of_box(b: DamageBox, clip: Option<Extent>) -> (r: Vec<Rect>)
    ensures
        r@ == text_damage(b, clip),
{
    let mut out: Vec<Rect> = Vec::new();
    match rect_of_box(b) {
        None => {},
        Some(r) => match clip {
            Some(e) => {
                out.push(clamp_rect(r, e));
            },
            None => {
                out.push(r);
            },
        },
    }
    proof {
        assert(out@ =~= text_damage(b, clip));
    }
    out
}

/// The glyphs of a text run that were looked at so far.
pub struct TextRun {
    pub draws: Vec<GlyphDraw>,
    pub bounds: DamageBox,
    pub stats: ImageTextStats,
}

#[verifier::ext_equal]
pub ghost struct RunView {
    pub draws: Seq<GlyphDraw>,
    pub bounds: DamageBox,
    pub stats: ImageTextStats,
}

impl View for TextRun {
    type V = RunView;

    open spec fn view(&self) -> RunView {
        RunView { draws: self.draws@, bounds: self.bounds, stats: self.stats }
    }
}

pub open spec fn glyph_draw(e: AtlasEntry, x: i32, y: i32) -> GlyphDraw {
    GlyphDraw { atlas_x: e.atlas_x, atlas_y: e.atlas_y, w: e.w, h: e.h, dst_x: x, dst_y: y }
}

impl RunView {
    pub open spec fn start() -> RunView {
        RunView { draws: Seq::empty(), bounds: no_box(), stats: no_text() }
    }

    /// The run with one more glyph, unless the glyph has no area.
    pub open spec fn drawing(self, e: AtlasEntry, x: i32, y: i32) -> RunView {
        if e.w == 0 || e.h == 0 {
            self
        } else {
            RunView {
                draws: self.draws.push(glyph_draw(e, x, y)),
                bounds: box_with(self.bounds, x, y, e),
                ..self
            }
        }
    }

    pub open spec fn dropping(self) -> RunView {
        RunView {
            stats: ImageTextStats {
                glyphs_dropped: bumped(self.stats.glyphs_dropped),
                ..self.stats
            },
            ..self
        }
    }

    pub open spec fn interning(self) -> RunView {
        RunView {
            stats: ImageTextStats {
                atlas_interns: bumped(self.stats.atlas_interns),
                ..self.stats
            },
            ..self
        }
    }

    pub open spec fn uploading(self) -> RunView {
        RunView {
            stats: ImageTextStats {
                glyph_uploads: bumped(self.stats.glyph_uploads),
                ..self.stats
            },
            ..self
        }
    }
}

impl TextRun {
    pub fn new() -> (r: TextRun)
        ensures
            r@ == RunView::start(),
    {
        let r = TextRun {
            draws: Vec::new(),
            bounds: DamageBox {
                min_x: i32::MAX,
                min_y: i32::MAX,
                max_x: i32::MIN,
                max_y: i32::MIN,
            },
            stats: empty_text_stats(),
        };
        proof {
            assert(r@ =~= RunView::start());
        }
        r
    }

    pub fn draw(&mut self, e: AtlasEntry, x: i32, y: i32)
        ensures
            final(self)@ == old(self)@.drawing(e, x, y),
    {
        if e.w == 0 || e.h == 0 {
            return;
        }
        self.bounds = extend_box(self.bounds, x, y, e);
        self.draws.push(
            GlyphDraw {
                atlas_x: e.atlas_x,
                atlas_y: e.atlas_y,
                w: e.w,
                h: e.h,
                dst_x: x,
                dst_y: y,
            },
        );
        proof {
            assert(self@ =~= old(self)@.drawing(e, x, y));
        }
    }

    pub fn drop_glyph(&mut self)
        ensures
            final(self)@ == old(self)@.dropping(),
    {
        self.stats.glyphs_dropped = bump(self.stats.glyphs_dropped);
        proof {
            assert(self@ =~= old(self)@.dropping());
        }
    }

    pub fn intern(&mut self)
        ensures
            final(self)@ == old(self)@.interning(),
    {
        self.stats.atlas_interns = bump(self.stats.atlas_interns);
        proof {
            assert(self@ =~= old(self)@.interning());
        }
    }

    pub fn note_upload(&mut self)
        ensures
            final(self)@ == old(self)@.uploading(),
    {
        self.stats.glyph_uploads = bump(self.stats.glyph_uploads);
        proof {
            assert(self@ =~= old(self)@.uploading());
        }
    }
}

/// The atlas entry of a glyph without area.
pub open spec fn zero_entry() -> AtlasEntry {
    AtlasEntry { atlas_x: 0, atlas_y: 0, w: 0, h: 0 }
}

/// The device's answers to the upload of one glyph.
#[derive(Clone, Copy)]
pub enum UploadReply {
    /// No staging buffer could be had.
    NoStaging,
    /// The staging buffer was filled; `cb` is the command buffer that was
    /// begun for the upload, and `end` is how its recording ended.
    Staged { staging: Staging, cb: Result<u64, RenderError>, fresh: Ticket, end: Result<(), VkCode> },
}

/// What became of a glyph that the atlas does not hold.
#[derive(Clone, Copy)]
pub enum GlyphReply {
    /// The atlas has no room for it.
    Full,
    /// It got a place in the atlas.
    Packed { atlas_x: u32, atlas_y: u32, upload: UploadReply },
}

/// The atlas with one more glyph.
pub open spec fn atlas_with(a: AtlasView, insert: GlyphInsert) -> AtlasView {
    AtlasView { entries: a.entries.push(insert), ..a }
}

/// The state after one glyph of a run.
pub ghost struct GlyphOutcome {
    pub engine: EngineView,
    pub group: GroupView,
    pub run: RunView,
}

/// The engine once the upload of a glyph is parked.
pub open spec fn upload_parked(
    s: EngineView,
    ticket: Ticket,
    cb: u64,
    staging: Staging,
    insert: GlyphInsert,
) -> EngineView {
    EngineView {
        generation: bumped(s.generation),
        parked: s.parked.push(
            SubmittedView {
                cb,
                ticket,
                staging: Some(staging),
                scratch: Seq::empty(),
                atlas_ticket: None,
                generation: bumped(s.generation),
                retired: Seq::empty(),
            },
        ),
        atlas: AtlasView {
            entries: s.atlas.entries.push(insert),
            layout: Layout::ShaderReadOnly,
            last_upload_ticket: Some(ticket),
            ..s.atlas
        },
        ..s
    }
}

/// The upload of a glyph in a command buffer of its own. If it fails, the glyph
/// is left out, its staging buffer may be freed, and the run goes on.
pub open spec fn uploaded(
    s: EngineView,
    g: GroupView,
    run: RunView,
    glyph: &GlyphImage,
    entry: AtlasEntry,
    reply: UploadReply,
) -> GlyphOutcome {
    let interned = run.interning();
    match reply {
        UploadReply::NoStaging => GlyphOutcome { engine: s, group: g, run: interned.dropping() },
        UploadReply::Staged { staging, cb, fresh, end } => if !glyph.spec_complete() || cb is Err {
            GlyphOutcome {
                engine: paint_abandoned(s, Some(staging)),
                group: g,
                run: interned.dropping(),
            }
        } else if end is Err {
            GlyphOutcome {
                engine: paint_abandoned(s, Some(staging)),
                group: g.opened(fresh),
                run: interned.dropping(),
            }
        } else {
            GlyphOutcome {
                engine: upload_parked(
                    s,
                    g.ticket_or(fresh),
                    cb->Ok_0,
                    staging,
                    GlyphInsert { key: glyph.key, entry },
                ),
                group: g.opened(fresh).appended(cb->Ok_0),
                run: interned.uploading().drawing(entry, glyph.dst_x, glyph.dst_y),
            }
        },
    }
}

/// One glyph of a run outside a frame: it is drawn if the atlas holds it or
/// it can be uploaded.
pub open spec fn glyph_outcome(
    s: EngineView,
    g: GroupView,
    run: RunView,
    glyph: &GlyphImage,
    reply: GlyphReply,
) -> GlyphOutcome {
    match find_glyph(s.atlas.entries, glyph.key) {
        Some(e) => GlyphOutcome {
            engine: s,
            group: g,
            run: run.drawing(e, glyph.dst_x, glyph.dst_y),
        },
        None => match reply {
            GlyphReply::Full => GlyphOutcome { engine: s, group: g, run: run.dropping() },
            GlyphReply::Packed { atlas_x, atlas_y, upload } => if glyph.spec_is_empty() {
                GlyphOutcome {
                    engine: EngineView {
                        atlas: atlas_with(
                            s.atlas,
                            GlyphInsert { key: glyph.key, entry: zero_entry() },
                        ),
                        ..s
                    },
                    group: g,
                    run,
                }
            } else {
                uploaded(
                    s,
                    g,
                    run,
                    glyph,
                    AtlasEntry { atlas_x, atlas_y, w: glyph.w, h: glyph.h },
                    upload,
                )
            },
        },
    }
}

/// A glyph whose upload fails is left out and counted, and nothing else is
/// lost: what was to be drawn stays, and neither the atlas nor the group gets
/// anything.
pub proof fn failed_upload_costs_one_glyph(
    s: EngineView,
    g: GroupView,
    run: RunView,
    glyph: &GlyphImage,
    atlas_x: u32,
    atlas_y: u32,
    upload: UploadReply,
)
    requires
        find_glyph(s.atlas.entries, glyph.key) is None,
        !glyph.spec_is_empty(),
        upload matches UploadReply::Staged { cb, end, .. } ==> cb is Err || end is Err,
    ensures
        ({
            let o = glyph_outcome(
                s,
                g,
                run,
                glyph,
                GlyphReply::Packed { atlas_x, atlas_y, upload },
            );
            &&& o.run.draws == run.draws
            &&& o.run.bounds == run.bounds
            &&& o.run.stats.glyphs_dropped == bumped(run.stats.glyphs_dropped)
            &&& o.run.stats.glyph_uploads == run.stats.glyph_uploads
            &&& o.engine.atlas == s.atlas
            &&& o.engine.parked == s.parked
            &&& o.group.entries == g.entries
        }),
{
}

impl RenderEngine {
    /// Where a glyph lies in the atlas.
    pub fn glyph_entry(&self, key: GlyphKey) -> (r: Option<AtlasEntry>)
        ensures
            r == find_glyph(self@.atlas.entries, key),
    {
        lookup_glyph(&self.atlas.entries, key)
    }

    /// Adds one glyph to a run outside a frame. `reply` matters only for a
    /// glyph that the atlas does not hold, and its upload only for one that
    /// has an area. A glyph that cannot be uploaded is left out.
    pub fn text_glyph(
        &mut self,
        group: &mut SubmitGroup,
        run: &mut TextRun,
        glyph: &GlyphImage,
        reply: GlyphReply,
    )
        ensures
            ({
                let o = glyph_outcome(old(self)@, old(group)@, old(run)@, glyph, reply);
                &&& final(self)@ == o.engine
                &&& final(group)@ == o.group
                &&& final(run)@ == o.run
            }),
    {
        let ghost s = self@;
        match self.glyph_entry(glyph.key) {
            Some(e) => {
                run.draw(e, glyph.dst_x, glyph.dst_y);
                return;
            },
            None => {},
        }
        let (atlas_x, atlas_y, upload) = match reply {
            GlyphReply::Full => {
                run.drop_glyph();
                return;
            },
            GlyphReply::Packed { atlas_x, atlas_y, upload } => (atlas_x, atlas_y, upload),
        };
        if glyph.is_empty() {
            let insert = GlyphInsert {
                key: glyph.key,
                entry: AtlasEntry { atlas_x: 0, atlas_y: 0, w: 0, h: 0 },
            };
            self.atlas.entries.push(insert);
            proof {
                assert(self@.atlas =~= atlas_with(s.atlas, insert));
                assert(self@ =~= (EngineView { atlas: atlas_with(s.atlas, insert), ..s }));
            }
            return;
        }
        run.intern();
        let entry = AtlasEntry { atlas_x, atlas_y, w: glyph.w, h: glyph.h };
        match upload {
            UploadReply::NoStaging => {
                run.drop_glyph();
            },
            UploadReply::Staged { staging, cb, fresh, end } => {
                if !glyph.is_complete() {
                    self.abandon(Some(staging));
                    run.drop_glyph();
                    return;
                }
                let cb: u64 = match cb {
                    Ok(cb) => cb,
                    Err(_) => {
                        self.abandon(Some(staging));
                        run.drop_glyph();
                        return;
                    },
                };
                let ticket = group.ticket_or_open(fresh);
                if end.is_err() {
                    self.abandon(Some(staging));
                    run.drop_glyph();
                    return;
                }
                group.append(cb);
                run.note_upload();
                self.acquire_generation = bump(self.acquire_generation);
                let op = SubmittedOp {
                    cb,
                    ticket,
                    staging: Some(staging),
                    scratch: Vec::new(),
                    atlas_ticket: None,
                    generation: self.acquire_generation,
                    retired: Vec::new(),
                };
                self.pending_group_ops.push(op);
                self.atlas.layout = Layout::ShaderReadOnly;
                self.atlas.last_upload_ticket = Some(ticket);
                let insert = GlyphInsert { key: glyph.key, entry };
                self.atlas.entries.push(insert);
                run.draw(entry, glyph.dst_x, glyph.dst_y);
                proof {
                    let goal = upload_parked(s, ticket, cb, staging, insert);
                    assert(op@ =~= goal.parked.last());
                    assert(self@.parked =~= goal.parked);
                    assert(self@.atlas =~= goal.atlas);
                    assert(self@ =~= goal);
                }
            },
        }
    }
}

/// What a text operation outside a frame does next, once it is known to have
/// glyphs and no open work is in its way.
pub open spec fn text_target(s: EngineView, st: StoreView, g: GroupView, target: DrawableId) -> Decision<
    Drawable,
    ImageTextStats,
> {
    match target_check(s, st, g, target) {
        Err(e) => Decision::Done(Err(e)),
        Ok(d) => if d.format != Format::B8G8R8A8Unorm {
            Decision::Done(Ok(no_text()))
        } else {
            match s.text_asset() {
                Some(asset) => Decision::Chore(Chore::Build(asset)),
                None => Decision::Paint(d),
            }
        },
    }
}

/// What core text does next.
pub open spec fn image_text_decision(
    s: EngineView,
    st: StoreView,
    g: GroupView,
    target: DrawableId,
    glyphs: nat,
) -> Decision<Drawable, ImageTextStats> {
    match s.frame_chore() {
        Some(c) => Decision::Chore(c),
        None => if glyphs == 0 {
            Decision::Done(Ok(no_text()))
        } else {
            match s.batch_chore() {
                Some(c) => Decision::Chore(c),
                None => text_target(s, st, g, target),
            }
        },
    }
}

/// What RENDER text outside a frame does next.
pub open spec fn glyphs_direct_decision(
    s: EngineView,
    st: StoreView,
    g: GroupView,
    target: DrawableId,
    glyphs: nat,
) -> Decision<Drawable, ImageTextStats> {
    if glyphs == 0 {
        Decision::Done(Ok(no_text()))
    } else {
        match s.own_buffer_chore() {
            Some(c) => Decision::Chore(c),
            None => text_target(s, st, g, target),
        }
    }
}

/// The upkeep of the draw that ends a run.
pub open spec fn text_upkeep(s: EngineView, target: DrawableId, damage: Seq<Rect>) -> UpkeepView {
    UpkeepView {
        target,
        touches: seq![target],
        damage,
        staging: None,
        atlas_ticket: s.atlas.last_upload_ticket,
        generation: None,
    }
}

/// What comes of the draw that ends a run.
pub open spec fn text_result(r: Result<(), RenderError>, stats: ImageTextStats) -> Result<
    ImageTextStats,
    RenderError,
> {
    match r {
        Ok(_) => Ok(stats),
        Err(e) => Err(e),
    }
}

impl RenderEngine {
    pub fn check_text_target(
        &self,
        store: &DrawableStore,
        group: &SubmitGroup,
        target: DrawableId,
    ) -> (r: Decision<Drawable, ImageTextStats>)
        ensures
            r == text_target(self@, store@, group@, target),
    {
        let d = match self.check_target(store, group, target) {
            Ok(d) => d,
            Err(e) => {
                return Decision::Done(Err(e));
            },
        };
        if d.format != Format::B8G8R8A8Unorm {
            return Decision::Done(Ok(empty_text_stats()));
        }
        match self.ensure_text_assets() {
            Some(asset) => Decision::Chore(Chore::Build(asset)),
            None => Decision::Paint(d),
        }
    }

    /// What core text does next; its glyphs then go through
    /// [`RenderEngine::text_glyph`].
    pub fn image_text_plan(
        &self,
        store: &DrawableStore,
        group: &SubmitGroup,
        target: DrawableId,
        glyphs: usize,
    ) -> (r: Decision<Drawable, ImageTextStats>)
        ensures
            r == image_text_decision(self@, store@, group@, target, glyphs as nat),
    {
        match self.close_open_frame_for_own_buffer() {
            Some(c) => {
                return Decision::Chore(c);
            },
            None => {},
        }
        if glyphs == 0 {
            return Decision::Done(Ok(empty_text_stats()));
        }
        match self.batch_chore() {
            Some(c) => {
                return Decision::Chore(c);
            },
            None => {},
        }
        self.check_text_target(store, group, target)
    }

    /// What RENDER text outside a frame does next; its glyphs then go through
    /// [`RenderEngine::text_glyph`].
    pub fn composite_glyphs_direct_plan(
        &self,
        store: &DrawableStore,
        group: &SubmitGroup,
        target: DrawableId,
        glyphs: usize,
    ) -> (r: Decision<Drawable, ImageTextStats>)
        ensures
            r == glyphs_direct_decision(self@, store@, group@, target, glyphs as nat),
    {
        if glyphs == 0 {
            return Decision::Done(Ok(empty_text_stats()));
        }
        match self.own_buffer_chore() {
            Some(c) => {
                return Decision::Chore(c);
            },
            None => {},
        }
        self.check_text_target(store, group, target)
    }

    /// The commands that draw a run onto `d`; none if there is nothing to
    /// draw or nothing is visible.
    pub fn text_run_commands(
        &self,
        d: &Drawable,
        foreground: Color,
        run: &TextRun,
        clip: &Option<Vec<Rectangle16>>,
    ) -> (r: Option<Vec<Command>>)
        ensures
            ({
                let scissors = scissors_of(*clip, d.extent);
                if run@.draws.len() == 0 || scissors.len() == 0 {
                    r is None
                } else {
                    r is Some && r->0@ == text_commands(
                        d.image,
                        d.view,
                        d.extent,
                        d.layout,
                        foreground,
                        run@.draws,
                        scissors,
                    )
                }
            }),
            match r {
                None => run@.draws.len() == 0 || clips_all(*clip, d.extent),
                Some(v) => letters(v@, *d, foreground, run@.draws, *clip),
            },
    {
        proof {
            if scissors_of(*clip, d.extent).len() == 0 {
                no_scissor_clips_all(*clip, d.extent);
            }
            text_draws_its_glyphs(*d, d.layout, foreground, run@.draws, *clip);
        }
        let scissors = build_render_clip_scissors(clip, d.extent);
        if run.draws.len() == 0 || scissors.len() == 0 {
            return None;
        }
        let mut out: Vec<Command> = Vec::new();
        record_text_run_scissored(
            &mut out,
            d.image,
            d.view,
            d.extent,
            d.layout,
            foreground,
            &run.draws,
            &scissors,
        );
        proof {
            assert(out@ =~= text_commands(
                d.image,
                d.view,
                d.extent,
                d.layout,
                foreground,
                run@.draws,
                scissors@,
            ));
        }
        Some(out)
    }

    fn finish_text(
        &mut self,
        store: &mut DrawableStore,
        group: &mut SubmitGroup,
        target: DrawableId,
        run: &TextRun,
        damage: Vec<Rect>,
        reply: PaintReply,
    ) -> (r: Result<ImageTextStats, RenderError>)
        ensures
            ({
                let up = text_upkeep(old(self)@, target, damage@);
                &&& final(self)@ == paint_engine(old(self)@, old(group)@, up, reply)
                &&& final(store)@ == paint_store(old(store)@, old(group)@, up, reply)
                &&& final(group)@ == paint_group(old(group)@, reply)
                &&& r == text_result(paint_result(old(group)@, reply), run@.stats)
            }),
    {
        let mut touches: Vec<DrawableId> = Vec::new();
        touches.push(target);
        let up = Upkeep {
            target,
            touches,
            damage,
            staging: None,
            atlas_ticket: self.atlas.last_upload_ticket,
            generation: None,
        };
        proof {
            assert(up@ =~= text_upkeep(old(self)@, target, damage@));
        }
        match self.commit_paint(store, group, up, reply) {
            Ok(_) => Ok(run.stats),
            Err(e) => Err(e),
        }
    }

    /// Ends core text: its glyphs are drawn in one command buffer, if there
    /// are any. `reply` matters only then.
    pub fn image_text(
        &mut self,
        store: &mut DrawableStore,
        group: &mut SubmitGroup,
        target: DrawableId,
        run: &TextRun,
        reply: PaintReply,
    ) -> (r: Result<ImageTextStats, RenderError>)
        ensures
            if run@.draws.len() == 0 {
                r == Ok::<ImageTextStats, RenderError>(run@.stats) && final(self)@ == old(self)@
                    && final(store)@ == old(store)@ && final(group)@ == old(group)@
            } else {
                let up = text_upkeep(old(self)@, target, text_damage(run@.bounds, None));
                &&& final(self)@ == paint_engine(old(self)@, old(group)@, up, reply)
                &&& final(store)@ == paint_store(old(store)@, old(group)@, up, reply)
                &&& final(group)@ == paint_group(old(group)@, reply)
                &&& r == text_result(paint_result(old(group)@, reply), run@.stats)
            },
    {
        if run.draws.len() == 0 {
            return Ok(run.stats);
        }
        let damage = damage_of_box(run.bounds, None);
        self.finish_text(store, group, target, run, damage, reply)
    }

    /// Ends RENDER text outside a frame: its glyphs are drawn under the clip
    /// in one command buffer, if anything is visible. `reply` matters only
    /// then.
    pub fn composite_glyphs_direct(
        &mut self,
        store: &mut DrawableStore,
        group: &mut SubmitGroup,
        target: DrawableId,
        d: &Drawable,
        run: &TextRun,
        clip: &Option<Vec<Rectangle16>>,
        reply: PaintReply,
    ) -> (r: Result<ImageTextStats, RenderError>)
        ensures
            if run@.draws.len() == 0 || scissors_of(*clip, d.extent).len() == 0 {
                r == Ok::<ImageTextStats, RenderError>(run@.stats) && final(self)@ == old(self)@
                    && final(store)@ == old(store)@ && final(group)@ == old(group)@
            } else {
                let up = text_upkeep(
                    old(self)@,
                    target,
                    text_damage(run@.bounds, Some(d.extent)),
                );
                &&& final(self)@ == paint_engine(old(self)@, old(group)@, up, reply)
                &&& final(store)@ == paint_store(old(store)@, old(group)@, up, reply)
                &&& final(group)@ == paint_group(old(group)@, reply)
                &&& r == text_result(paint_result(old(group)@, reply), run@.stats)
            },
    {
        if run.draws.len() == 0 {
            return Ok(run.stats);
        }
        let scissors = build_render_clip_scissors(clip, d.extent);
        if scissors.len() == 0 {
            return Ok(run.stats);
        }
        let damage = damage_of_box(run.bounds, Some(d.extent));
        self.finish_text(store, group, target, run, damage, reply)
    }
}

} // verus!
