//! RENDER text recorded into the open frame.
//!
//! A frame pins the staging buffer of every glyph that it uploads, up to a
//! ceiling. A run that would exceed the ceiling closes the frame first; what
//! still exceeds it in a fresh frame is left out.

use vstd::prelude::*;

use crate::command::Color;
use crate::copy::usable_ticket;
use crate::engine::{bumped, Chore, EngineView, Release, RenderEngine, Staging};
use crate::error::{DrawableId, RenderError, VkCode};
use crate::frame::{
    find_first_glyph, find_glyph, lookup_first_glyph, lookup_glyph, AtlasEntry, FrameView,
    GlyphInsert, GlyphKey, OpView, OpenFrame, RecordedCompositeGlyphs, RecordedOp,
};
use crate::geometry::{build_render_clip_scissors, scissors_of, Rect, Rectangle16};
use crate::paint::Decision;
use crate::recorded::{draws_run_last, held, run_is_recorded, uploads_ops};
use crate::store::{Drawable, DrawableStore, Layout, StoreView, Ticket};
use crate::submit::{GroupView, SubmitGroup};
use crate::text::{
    damage_of_box, empty_text_stats, no_text, text_damage, text_target, zero_entry, GlyphImage,
    ImageTextStats, RunView, TextRun,
};

verus! {

/// What RENDER text into the open frame does next.
pub open spec fn glyphs_decision(
    s: EngineView,
    st: StoreView,
    g: GroupView,
    dst: DrawableId,
    glyphs: nat,
) -> Decision<Drawable, ImageTextStats> {
    if glyphs == 0 {
        Decision::Done(Ok(no_text()))
    } else {
        match s.batch_chore() {
            Some(c) => Decision::Chore(c),
            None => text_target(s, st, g, dst),
        }
    }
}

/// Whether a glyph has to be uploaded: it has area, and neither the atlas nor
/// an upload that the frame already holds knows it.
pub open spec fn missing(s: EngineView, f: FrameView, glyph: &GlyphImage) -> bool {
    !glyph.spec_is_empty() && find_glyph(s.atlas.entries, glyph.key) is None && find_first_glyph(
        f.pending_glyph_inserts,
        glyph.key,
    ) is None
}

/// The glyphs of a run that have to be uploaded, each once.
pub open spec fn missing_keys(s: EngineView, f: FrameView, glyphs: Seq<GlyphImage>) -> Seq<GlyphKey>
    decreases glyphs.len(),
{
    if glyphs.len() == 0 {
        Seq::empty()
    } else {
        let head = missing_keys(s, f, glyphs.drop_last());
        let last = glyphs.last();
        if missing(s, f, &last) && !head.contains(last.key) {
            head.push(last.key)
        } else {
            head
        }
    }
}

/// How RENDER text into a frame begins.
pub enum GlyphsBegin {
    /// Open work goes first; nothing has changed.
    Chore(Chore),
    /// The operation is over.
    Done(Result<ImageTextStats, RenderError>),
    /// The frame would pin too much: it has to be closed, and the run begun
    /// again.
    Ceiling,
    /// The glyphs can be recorded.
    Ready(Drawable),
}

/// The engine once its frame refers to the target of a run and to the atlas.
pub open spec fn begun(s: EngineView, st: StoreView, dst: DrawableId) -> EngineView {
    let referring = s.referring(st, dst);
    EngineView {
        frame: Some(
            referring.frame->0.using_atlas(s.atlas.layout, s.atlas.last_render_ticket),
        ),
        ..referring
    }
}

fn contains_key(list: &Vec<GlyphKey>, key: GlyphKey) -> (r: bool)
    ensures
        r == list@.contains(key),
{
    let mut i: usize = 0;
    while i < list.len()
        invariant
            i <= list.len(),
            forall|j: int| 0 <= j < i ==> list@[j] != key,
        decreases list.len() - i,
    {
        if list[i] == key {
            return true;
        }
        i = i + 1;
    }
    false
}

impl RenderEngine {
    /// How many glyphs of a run have to be uploaded.
    fn count_missing(&self, f: &OpenFrame, glyphs: &Vec<GlyphImage>) -> (r: usize)
        ensures
            r == missing_keys(self@, f@, glyphs@).len(),
    {
        let mut keys: Vec<GlyphKey> = Vec::new();
        let mut i: usize = 0;
        proof {
            assert(keys@ =~= Seq::empty());
            assert(glyphs@.take(0) =~= Seq::empty());
        }
        while i < glyphs.len()
            invariant
                i <= glyphs.len(),
                keys@ == missing_keys(self@, f@, glyphs@.take(i as int)),
            decreases glyphs.len() - i,
        {
            let glyph = &glyphs[i];
            proof {
                assert(glyphs@.take(i + 1).drop_last() =~= glyphs@.take(i as int));
                assert(glyphs@.take(i + 1).last() == glyphs@[i as int]);
            }
            if !(glyph.w == 0 || glyph.h == 0) && lookup_glyph(
                &self.atlas.entries,
                glyph.key,
            ).is_none() && lookup_first_glyph(&f.pending_glyph_inserts, glyph.key).is_none()
                && !contains_key(&keys, glyph.key) {
                keys.push(glyph.key);
            }
            i = i + 1;
        }
        proof {
            assert(glyphs@.take(i as int) =~= glyphs@);
        }
        keys.len()
    }

    /// What RENDER text into the open frame does next.
    pub fn composite_glyphs_via_frame_builder_plan(
        &self,
        store: &DrawableStore,
        group: &SubmitGroup,
        dst: DrawableId,
        glyphs: usize,
    ) -> (r: Decision<Drawable, ImageTextStats>)
        ensures
            r == glyphs_decision(self@, store@, group@, dst, glyphs as nat),
    {
        if glyphs == 0 {
            return Decision::Done(Ok(empty_text_stats()));
        }
        match self.batch_chore() {
            Some(c) => {
                return Decision::Chore(c);
            },
            None => {},
        }
        self.check_text_target(store, group, dst)
    }

    /// Begins RENDER text: the open frame, opened if needed, refers to the
    /// target and to the atlas. If its pins and the glyphs to be uploaded
    /// exceed the ceiling, the frame has to be closed and the run begun again;
    /// `reopened` says that this was done.
    pub fn composite_glyphs_begin(
        &mut self,
        store: &mut DrawableStore,
        group: &mut SubmitGroup,
        dst: DrawableId,
        glyphs: &Vec<GlyphImage>,
        ceiling: usize,
        reopened: bool,
        fresh: Result<Ticket, VkCode>,
    ) -> (r: GlyphsBegin)
        ensures
            match glyphs_decision(old(self)@, old(store)@, old(group)@, dst, glyphs@.len()) {
                Decision::Chore(c) => r == GlyphsBegin::Chore(c) && final(self)@ == old(self)@
                    && final(store)@ == old(store)@ && final(group)@ == old(group)@,
                Decision::Done(x) => r == GlyphsBegin::Done(x) && final(self)@ == old(self)@
                    && final(store)@ == old(store)@ && final(group)@ == old(group)@,
                Decision::Paint(d) => match usable_ticket(old(self)@, old(group)@, fresh) {
                    Err(e) => r == GlyphsBegin::Done(Err(e)) && final(self)@ == old(self)@
                        && final(store)@ == old(store)@ && final(group)@ == old(group)@,
                    Ok(t) => {
                        let opened = old(self)@.frame_opened(old(group)@, t);
                        let s = begun(opened, old(store)@, dst);
                        &&& final(self)@ == s
                        &&& final(store)@ == opened.referred_store(old(store)@, dst)
                        &&& final(group)@ == old(self)@.frame_group(old(group)@, t)
                        &&& r == if !reopened && s.frame->0.pins.len() + missing_keys(
                            s,
                            s.frame->0,
                            glyphs@,
                        ).len() > ceiling {
                            GlyphsBegin::Ceiling
                        } else {
                            GlyphsBegin::Ready(d)
                        }
                    },
                },
            },
    {
        let d = match self.composite_glyphs_via_frame_builder_plan(
            store,
            group,
            dst,
            glyphs.len(),
        ) {
            Decision::Chore(c) => {
                return GlyphsBegin::Chore(c);
            },
            Decision::Done(x) => {
                return GlyphsBegin::Done(x);
            },
            Decision::Paint(d) => d,
        };
        let t: Ticket = match self.usable_ticket(group, fresh) {
            Ok(t) => t,
            Err(e) => {
                return GlyphsBegin::Done(Err(e));
            },
        };
        self.open_frame(group, t);
        let ghost opened = self@;
        self.refer_in_frame(store, dst);
        let layout = self.atlas.layout;
        let ticket = self.atlas.last_render_ticket;
        match &mut self.frame {
            None => {},
            Some(f) => {
                f.use_atlas(layout, ticket);
            },
        }
        proof {
            assert(self@ =~= begun(opened, old(store)@, dst));
        }
        match &self.frame {
            None => {},
            Some(f) => {
                let misses: usize = self.count_missing(f, glyphs);
                let pins: usize = f.pins.len();
                if !reopened && (pins > ceiling || misses > ceiling - pins) {
                    return GlyphsBegin::Ceiling;
                }
            },
        }
        GlyphsBegin::Ready(d)
    }
}

/// A glyph that waits to be uploaded by the frame.
#[derive(Clone, Copy, Debug, PartialEq, Eq, Structural)]
pub struct NewUpload {
    pub insert: GlyphInsert,
    pub staging: Staging,
}

/// The glyphs of a run into a frame that were looked at so far.
pub struct FrameRun {
    pub run: TextRun,
    pub uploads: Vec<NewUpload>,
    pub zero_inserts: Vec<GlyphInsert>,
}

#[verifier::ext_equal]
pub ghost struct FrameRunView {
    pub run: RunView,
    pub uploads: Seq<NewUpload>,
    pub zero_inserts: Seq<GlyphInsert>,
}

impl View for FrameRun {
    type V = FrameRunView;

    open spec fn view(&self) -> FrameRunView {
        FrameRunView {
            run: self.run@,
            uploads: self.uploads@,
            zero_inserts: self.zero_inserts@,
        }
    }
}

impl FrameRunView {
    pub open spec fn start() -> FrameRunView {
        FrameRunView { run: RunView::start(), uploads: Seq::empty(), zero_inserts: Seq::empty() }
    }
}

impl FrameRun {
    pub fn new() -> (r: FrameRun)
        ensures
            r@ == FrameRunView::start(),
    {
        let r = FrameRun { run: TextRun::new(), uploads: Vec::new(), zero_inserts: Vec::new() };
        proof {
            assert(r@ =~= FrameRunView::start());
        }
        r
    }
}

/// The place of a glyph that waits to be uploaded.
pub open spec fn find_upload(list: Seq<NewUpload>, key: GlyphKey) -> Option<AtlasEntry>
    decreases list.len(),
{
    if list.len() == 0 {
        None
    } else if list[0].insert.key == key {
        Some(list[0].insert.entry)
    } else {
        find_upload(list.skip(1), key)
    }
}

fn lookup_upload(list: &Vec<NewUpload>, key: GlyphKey) -> (r: Option<AtlasEntry>)
    ensures
        r == find_upload(list@, key),
{
    let mut i: usize = 0;
    proof {
        assert(list@.skip(0) == list@);
    }
    while i < list.len()
        invariant
            i <= list.len(),
            find_upload(list@, key) == find_upload(list@.skip(i as int), key),
        decreases list.len() - i,
    {
        let u = list[i];
        proof {
            assert(list@.skip(i as int).skip(1) == list@.skip(i + 1));
        }
        if u.insert.key == key {
            return Some(u.insert.entry);
        }
        i = i + 1;
    }
    None
}

/// Where a glyph lies, or will lie, in the atlas: in the atlas itself, among
/// the uploads of the frame, or among those of the run.
pub open spec fn known_glyph(s: EngineView, f: FrameView, run: FrameRunView, key: GlyphKey) -> Option<
    AtlasEntry,
> {
    match find_glyph(s.atlas.entries, key) {
        Some(e) => Some(e),
        None => match find_first_glyph(f.pending_glyph_inserts, key) {
            Some(e) => Some(e),
            None => find_upload(run.uploads, key),
        },
    }
}

/// What one glyph of a run into a frame asks for.
#[derive(Clone, Copy, Debug, PartialEq, Eq, Structural)]
pub enum GlyphNeed {
    /// Nothing: it is drawn from where it lies.
    Known(AtlasEntry),
    /// Nothing: it has no area.
    Empty,
    /// Nothing: it is left out, being one upload too many or incomplete.
    Dropped,
    /// A place in the atlas and a staging buffer.
    Upload,
}

/// What one glyph of a run into a frame asks for. It is left out before a
/// place in the atlas is taken for it.
pub open spec fn glyph_need(
    s: EngineView,
    f: FrameView,
    run: FrameRunView,
    glyph: &GlyphImage,
    ceiling: usize,
) -> GlyphNeed {
    match known_glyph(s, f, run, glyph.key) {
        Some(e) => GlyphNeed::Known(e),
        None => if glyph.spec_is_empty() {
            GlyphNeed::Empty
        } else if run.uploads.len() + 1 + f.pins.len() > ceiling || !glyph.spec_complete() {
            GlyphNeed::Dropped
        } else {
            GlyphNeed::Upload
        },
    }
}

/// What became of a glyph that needs an upload.
#[derive(Clone, Copy)]
pub enum PackReply {
    /// The atlas has no room for it.
    Full,
    /// It got a place in the atlas, and a filled staging buffer or none.
    Packed { atlas_x: u32, atlas_y: u32, staging: Result<Staging, VkCode> },
}

/// The run after one glyph. A glyph without room in the atlas or without a
/// staging buffer is left out, and the run goes on.
pub open spec fn frame_glyph_outcome(
    need: GlyphNeed,
    run: FrameRunView,
    glyph: &GlyphImage,
    reply: PackReply,
) -> FrameRunView {
    match need {
        GlyphNeed::Known(e) => FrameRunView {
            run: run.run.drawing(e, glyph.dst_x, glyph.dst_y),
            ..run
        },
        GlyphNeed::Empty => FrameRunView {
            zero_inserts: run.zero_inserts.push(
                GlyphInsert { key: glyph.key, entry: zero_entry() },
            ),
            ..run
        },
        GlyphNeed::Dropped => FrameRunView { run: run.run.dropping(), ..run },
        GlyphNeed::Upload => match reply {
            PackReply::Full => FrameRunView { run: run.run.dropping(), ..run },
            PackReply::Packed { atlas_x, atlas_y, staging } => match staging {
                Err(_) => FrameRunView { run: run.run.interning().dropping(), ..run },
                Ok(staging) => {
                    let entry = AtlasEntry { atlas_x, atlas_y, w: glyph.w, h: glyph.h };
                    FrameRunView {
                        run: run.run.interning().uploading().drawing(
                            entry,
                            glyph.dst_x,
                            glyph.dst_y,
                        ),
                        uploads: run.uploads.push(
                            NewUpload { insert: GlyphInsert { key: glyph.key, entry }, staging },
                        ),
                        ..run
                    }
                },
            },
        },
    }
}

/// The staging buffers of a list of uploads.
pub open spec fn upload_releases(list: Seq<NewUpload>) -> Seq<Release> {
    list.map_values(|u: NewUpload| Release::Staging(u.staging.buffer))
}

/// The frame once the uploads of a run are recorded.
pub open spec fn frame_uploading(f: FrameView, list: Seq<NewUpload>) -> FrameView
    decreases list.len(),
{
    if list.len() == 0 {
        f
    } else {
        frame_uploading(f, list.drop_last()).uploading(
            list.last().staging.buffer,
            list.last().insert,
        )
    }
}

/// The frame once a run is recorded, apart from its draws.
pub open spec fn frame_with_uploads(f: FrameView, run: FrameRunView) -> FrameView {
    let up = frame_uploading(f, run.uploads);
    FrameView { pending_glyph_inserts: up.pending_glyph_inserts + run.zero_inserts, ..up }
}

/// The frame once a run is recorded.
pub open spec fn frame_with_run(
    f: FrameView,
    st: StoreView,
    dst: DrawableId,
    foreground: Color,
    run: FrameRunView,
    scissors: Seq<Rect>,
) -> FrameView {
    let up = frame_with_uploads(f, run);
    if run.run.draws.len() == 0 || scissors.len() == 0 {
        up
    } else {
        up.recorded(
            OpView::CompositeGlyphs {
                dst_id: dst,
                old_layout: up.current_layout(dst, st.layout(dst)),
                foreground,
                glyphs: run.run.draws,
                scissors,
            },
            dst,
            Layout::ShaderReadOnly,
        )
    }
}

impl RenderEngine {
    /// What one glyph of a run asks for.
    pub fn frame_glyph_need(&self, run: &FrameRun, glyph: &GlyphImage, ceiling: usize) -> (r:
        GlyphNeed)
        requires
            self.frame is Some,
        ensures
            r == glyph_need(self@, self@.frame->0, run@, glyph, ceiling),
    {
        match lookup_glyph(&self.atlas.entries, glyph.key) {
            Some(e) => {
                return GlyphNeed::Known(e);
            },
            None => {},
        }
        let mut pins: usize = 0;
        match &self.frame {
            None => {},
            Some(f) => {
                pins = f.pins.len();
                match lookup_first_glyph(&f.pending_glyph_inserts, glyph.key) {
                    Some(e) => {
                        return GlyphNeed::Known(e);
                    },
                    None => {},
                }
            },
        }
        match lookup_upload(&run.uploads, glyph.key) {
            Some(e) => {
                return GlyphNeed::Known(e);
            },
            None => {},
        }
        if glyph.w == 0 || glyph.h == 0 {
            return GlyphNeed::Empty;
        }
        let uploads: usize = run.uploads.len();
        if pins >= ceiling || uploads >= ceiling - pins {
            return GlyphNeed::Dropped;
        }
        if !glyph.is_complete() {
            return GlyphNeed::Dropped;
        }
        GlyphNeed::Upload
    }

    /// Adds one glyph to a run into a frame. `reply` matters only for a glyph
    /// that needs an upload. A glyph that cannot be uploaded is left out.
    pub fn frame_glyph(
        &self,
        run: &mut FrameRun,
        glyph: &GlyphImage,
        ceiling: usize,
        reply: PackReply,
    )
        requires
            self.frame is Some,
        ensures
            final(run)@ == frame_glyph_outcome(
                glyph_need(self@, self@.frame->0, old(run)@, glyph, ceiling),
                old(run)@,
                glyph,
                reply,
            ),
    {
        let ghost before = run@;
        let need = self.frame_glyph_need(run, glyph, ceiling);
        match need {
            GlyphNeed::Known(e) => {
                run.run.draw(e, glyph.dst_x, glyph.dst_y);
            },
            GlyphNeed::Empty => {
                run.zero_inserts.push(
                    GlyphInsert {
                        key: glyph.key,
                        entry: AtlasEntry { atlas_x: 0, atlas_y: 0, w: 0, h: 0 },
                    },
                );
            },
            GlyphNeed::Dropped => {
                run.run.drop_glyph();
            },
            GlyphNeed::Upload => match reply {
                PackReply::Full => {
                    run.run.drop_glyph();
                },
                PackReply::Packed { atlas_x, atlas_y, staging } => {
                    run.run.intern();
                    match staging {
                        Err(_) => {
                            run.run.drop_glyph();
                        },
                        Ok(staging) => {
                            let entry = AtlasEntry { atlas_x, atlas_y, w: glyph.w, h: glyph.h };
                            run.run.note_upload();
                            run.uploads.push(
                                NewUpload {
                                    insert: GlyphInsert { key: glyph.key, entry },
                                    staging,
                                },
                            );
                            run.run.draw(entry, glyph.dst_x, glyph.dst_y);
                        },
                    }
                },
            },
        }
        proof {
            assert(run@ =~= frame_glyph_outcome(need, before, glyph, reply));
        }
    }

    /// Ends RENDER text: its uploads and, if anything is visible, its draws
    /// are recorded into the open frame, which leaves the target to be
    /// sampled. The damage is done at once.
    pub fn composite_glyphs_via_frame_builder(
        &mut self,
        store: &mut DrawableStore,
        dst: DrawableId,
        d: &Drawable,
        foreground: Color,
        run: FrameRun,
        clip: &Option<Vec<Rectangle16>>,
    ) -> (r: ImageTextStats)
        requires
            old(self).frame is Some,
        ensures
            r == run@.run.stats,
            ({
                let scissors = scissors_of(*clip, d.extent);
                &&& final(self)@ == (EngineView {
                    frame: Some(
                        frame_with_run(
                            old(self)@.frame->0,
                            old(store)@,
                            dst,
                            foreground,
                            run@,
                            scissors,
                        ),
                    ),
                    ..old(self)@
                })
                &&& final(store)@ == if run@.run.draws.len() == 0 || scissors.len() == 0 {
                    old(store)@
                } else {
                    old(store)@.damaged(dst, text_damage(run@.run.bounds, Some(d.extent)))
                }
                &&& uploads_ops(
                    run@.uploads,
                    held(final(self)@).subrange(
                        held(old(self)@).len() as int,
                        (held(old(self)@).len() + run@.uploads.len()) as int,
                    ),
                )
                &&& !(run@.run.draws.len() == 0 || scissors.len() == 0) ==> draws_run_last(
                    held(final(self)@),
                    dst,
                    d.extent,
                    foreground,
                    run@.run.draws,
                    *clip,
                )
            }),
    {
        proof {
            run_is_recorded(self@.frame->0, store@, dst, d.extent, foreground, run@, *clip);
        }
        let ghost s = self@;
        let ghost st = store@;
        let ghost rv = run@;
        let stats = run.run.stats;
        let scissors = build_render_clip_scissors(clip, d.extent);
        let bounds = run.run.bounds;
        let stored = match store.get(dst) {
            Some(x) => x.layout,
            None => Layout::Undefined,
        };
        let mut zero_inserts = run.zero_inserts;
        let ghost zeros = zero_inserts@;
        let drawn: bool = !(run.run.draws.len() == 0 || scissors.len() == 0);
        match &mut self.frame {
            None => {},
            Some(f) => {
                let ghost f0 = f@;
                let mut i: usize = 0;
                proof {
                    assert(run.uploads@.take(0) =~= Seq::empty());
                }
                while i < run.uploads.len()
                    invariant
                        i <= run.uploads.len(),
                        f@ == frame_uploading(f0, run.uploads@.take(i as int)),
                    decreases run.uploads.len() - i,
                {
                    let u = run.uploads[i];
                    proof {
                        assert(run.uploads@.take(i + 1).drop_last() =~= run.uploads@.take(
                            i as int,
                        ));
                    }
                    f.upload(u.staging.buffer, u.insert);
                    i = i + 1;
                }
                proof {
                    assert(run.uploads@.take(i as int) =~= run.uploads@);
                }
                let ghost f1 = f@;
                f.pending_glyph_inserts.append(&mut zero_inserts);
                proof {
                    assert(f@ =~= (FrameView {
                        pending_glyph_inserts: f1.pending_glyph_inserts + zeros,
                        ..f1
                    }));
                    assert(f@ == frame_with_uploads(f0, rv));
                }
                if drawn {
                    let old_layout = f.current_layout(dst, stored);
                    let op = RecordedOp::CompositeGlyphs(
                        RecordedCompositeGlyphs {
                            dst_id: dst,
                            old_layout,
                            foreground,
                            glyphs: run.run.draws,
                            scissors,
                        },
                    );
                    f.record(op, dst, Layout::ShaderReadOnly);
                }
                proof {
                    assert(f@ =~= frame_with_run(f0, st, dst, foreground, rv, scissors@));
                }
            },
        }
        proof {
            assert(self@ =~= (EngineView {
                frame: Some(
                    frame_with_run(s.frame->0, st, dst, foreground, rv, scissors@),
                ),
                ..s
            }));
        }
        if drawn {
            let damage = damage_of_box(bounds, Some(d.extent));
            store.damage_all(dst, &damage);
        }
        stats
    }
}

/// A run never makes a frame pin more than the ceiling: each glyph that asks
/// for an upload still fits.
pub proof fn uploads_stay_below_ceiling(
    s: EngineView,
    f: FrameView,
    run: FrameRunView,
    glyph: &GlyphImage,
    ceiling: usize,
    reply: PackReply,
)
    requires
        run.uploads.len() > 0 ==> f.pins.len() + run.uploads.len() <= ceiling,
    ensures
        ({
            let need = glyph_need(s, f, run, glyph, ceiling);
            let after = frame_glyph_outcome(need, run, glyph, reply);
            after.uploads.len() > 0 ==> f.pins.len() + after.uploads.len() <= ceiling
        }),
{
}

/// A glyph that needs an upload but gets no room in the atlas or no staging
/// buffer is left out and counted, and nothing else of the run is lost.
pub proof fn failed_pack_costs_one_glyph(run: FrameRunView, glyph: &GlyphImage, reply: PackReply)
    requires
        reply matches PackReply::Packed { staging, .. } ==> staging is Err,
    ensures
        ({
            let after = frame_glyph_outcome(GlyphNeed::Upload, run, glyph, reply);
            &&& after.run.draws == run.run.draws
            &&& after.run.bounds == run.run.bounds
            &&& after.run.stats.glyphs_dropped == bumped(run.run.stats.glyphs_dropped)
            &&& after.run.stats.glyph_uploads == run.run.stats.glyph_uploads
            &&& after.uploads == run.uploads
            &&& after.zero_inserts == run.zero_inserts
        }),
{
}

/// Whether a run uploads each glyph at most once, and none that the atlas holds
/// or that the frame already uploads.
pub open spec fn uploads_are_new(s: EngineView, f: FrameView, run: FrameRunView) -> bool {
    &&& forall|i: int|
        0 <= i < run.uploads.len() ==> find_glyph(
            s.atlas.entries,
            (#[trigger] run.uploads[i]).insert.key,
        ) is None && find_first_glyph(f.pending_glyph_inserts, run.uploads[i].insert.key) is None
    &&& forall|i: int, j: int|
        0 <= i < j < run.uploads.len() ==> (#[trigger] run.uploads[i]).insert.key != (
        #[trigger] run.uploads[j]).insert.key
}

proof fn lemma_unfound_key_is_new(list: Seq<NewUpload>, key: GlyphKey)
    requires
        find_upload(list, key) is None,
    ensures
        forall|i: int| 0 <= i < list.len() ==> (#[trigger] list[i]).insert.key != key,
    decreases list.len(),
{
    if list.len() > 0 {
        lemma_unfound_key_is_new(list.skip(1), key);
        assert forall|i: int| 0 <= i < list.len() implies (#[trigger] list[i]).insert.key != key by {
            if i > 0 {
                assert(list.skip(1)[i - 1] == list[i]);
            }
        }
    }
}

/// However often a glyph occurs in a run, it is uploaded at most once, and not
/// at all if the atlas or the frame has it.
pub proof fn glyphs_are_uploaded_once(
    s: EngineView,
    f: FrameView,
    run: FrameRunView,
    glyph: &GlyphImage,
    ceiling: usize,
    reply: PackReply,
)
    requires
        uploads_are_new(s, f, run),
    ensures
        uploads_are_new(
            s,
            f,
            frame_glyph_outcome(glyph_need(s, f, run, glyph, ceiling), run, glyph, reply),
        ),
{
    let need = glyph_need(s, f, run, glyph, ceiling);
    let after = frame_glyph_outcome(need, run, glyph, reply);
    if after.uploads.len() > run.uploads.len() {
        lemma_unfound_key_is_new(run.uploads, glyph.key);
    }
}

/// Recording a run pins exactly the staging buffers of its uploads.
pub proof fn run_pins_its_uploads(f: FrameView, run: FrameRunView)
    ensures
        frame_with_uploads(f, run).pins == f.pins + run.uploads.map_values(
            |u: NewUpload| u.staging.buffer,
        ),
    decreases run.uploads.len(),
{
    if run.uploads.len() > 0 {
        let head = FrameRunView { uploads: run.uploads.drop_last(), ..run };
        run_pins_its_uploads(f, head);
        assert(frame_with_uploads(f, run).pins =~= f.pins + run.uploads.map_values(
            |u: NewUpload| u.staging.buffer,
        ));
    } else {
        assert(frame_with_uploads(f, run).pins =~= f.pins + run.uploads.map_values(
            |u: NewUpload| u.staging.buffer,
        ));
    }
}

} // verus!
