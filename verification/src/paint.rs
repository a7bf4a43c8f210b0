//! Operations that record a command buffer of their own, and fills among them.
//!
//! Each comes in two parts. The plan decides, without changing anything,
//! whether open work has to be flushed first, whether the operation is over,
//! or which commands to record. The operation itself takes the device's
//! answers to that plan and keeps the books.

use vstd::prelude::*;

use crate::command::{
    any_producer, barrier_to_layout, layout_run, layout_run_concat, layout_run_neutral, scope,
    spec_any_producer, spec_barrier, spec_scope, Color, Command, GcFunction, Layouts, Rgba8,
    ACCESS_COLOR_ATTACHMENT_WRITE, ACCESS_SHADER_SAMPLED_READ, STAGE_COLOR_ATTACHMENT_OUTPUT,
    STAGE_FRAGMENT_SHADER,
};
use crate::engine::{
    auto_flush_result, bump, bumped, group_auto_flushed, release_staging, staging_release, Chore,
    EngineView, RenderEngine, Staging, SubmittedOp, SubmittedView,
};
use crate::error::{DrawableId, RenderError, VkCode};
use crate::fills::{
    fill_colours_its_rectangles, fills, raster_fill_applies_its_function, raster_fills,
};
use crate::geometry::{
    clamp_rects, clamped_nonempty, clip_rectangles, clipped_list, Rect, Rectangle16,
};
use crate::pixel::{decode_x11_pixel_bgra, pixel_channels};
use crate::store::{Drawable, DrawableStore, Format, Layout, StoreView, Ticket};
use crate::submit::{GroupView, SubmitGroup};

verus! {

/// What an operation does next.
pub enum Decision<P, R> {
    /// Open work goes first.
    Chore(Chore),
    /// The operation is over.
    Done(Result<R, RenderError>),
    /// Commands have to be recorded.
    Paint(P),
}

/// What an operation came to.
pub enum Step<R> {
    /// Open work goes first; nothing has changed.
    Chore(Chore),
    /// The operation is over.
    Done(Result<R, RenderError>),
}

/// The device's answers to a planned command buffer.
#[derive(Clone, Copy)]
pub enum PaintReply {
    /// No command buffer could be begun.
    Failed(RenderError),
    /// The commands were recorded into `cb`. `fresh` is a new ticket for the
    /// case that the group has none. `end` is how the recording ended.
    /// `submit` is the queue's answer, if the group was full and submitted.
    Recorded {
        cb: u64,
        fresh: Ticket,
        end: Result<(), VkCode>,
        submit: Result<(), VkCode>,
    },
}

/// What a recorded command buffer does to the drawables and what it holds on
/// to.
pub struct Upkeep {
    /// The drawable that was painted; it is left to be sampled.
    pub target: DrawableId,
    /// The drawables that the command buffer refers to.
    pub touches: Vec<DrawableId>,
    pub damage: Vec<Rect>,
    pub staging: Option<Staging>,
    pub atlas_ticket: Option<Ticket>,
    /// The tag that was taken for descriptors; without one a new tag is
    /// taken.
    pub generation: Option<u64>,
}

#[verifier::ext_equal]
pub ghost struct UpkeepView {
    pub target: DrawableId,
    pub touches: Seq<DrawableId>,
    pub damage: Seq<Rect>,
    pub staging: Option<Staging>,
    pub atlas_ticket: Option<Ticket>,
    pub generation: Option<u64>,
}

impl View for Upkeep {
    type V = UpkeepView;

    open spec fn view(&self) -> UpkeepView {
        UpkeepView {
            target: self.target,
            touches: self.touches@,
            damage: self.damage@,
            staging: self.staging,
            atlas_ticket: self.atlas_ticket,
            generation: self.generation,
        }
    }
}

/// The store after a command buffer was recorded.
pub open spec fn paint_store(
    st: StoreView,
    g: GroupView,
    up: UpkeepView,
    reply: PaintReply,
) -> StoreView {
    match reply {
        PaintReply::Failed(_) => st,
        PaintReply::Recorded { fresh, end, .. } => {
            let laid = st.with_layout(up.target, Layout::ShaderReadOnly);
            if end is Err {
                laid
            } else {
                laid.touched(up.touches, g.ticket_or(fresh)).damaged(up.target, up.damage)
            }
        },
    }
}

/// The group after a command buffer was recorded.
pub open spec fn paint_group(g: GroupView, reply: PaintReply) -> GroupView {
    match reply {
        PaintReply::Failed(_) => g,
        PaintReply::Recorded { cb, fresh, end, submit } => if end is Err {
            g.opened(fresh)
        } else {
            group_auto_flushed(g.opened(fresh).appended(cb), submit)
        },
    }
}

/// The parked form of a recorded command buffer.
pub open spec fn paint_parked(
    s: EngineView,
    g: GroupView,
    up: UpkeepView,
    cb: u64,
    fresh: Ticket,
) -> SubmittedView {
    SubmittedView {
        cb,
        ticket: g.ticket_or(fresh),
        staging: up.staging,
        scratch: Seq::empty(),
        atlas_ticket: up.atlas_ticket,
        generation: match up.generation {
            Some(n) => n,
            None => bumped(s.generation),
        },
        retired: Seq::empty(),
    }
}

/// The engine after a command buffer came to nothing: its staging buffer may
/// be freed.
pub open spec fn paint_abandoned(s: EngineView, staging: Option<Staging>) -> EngineView {
    EngineView { released: s.released + staging_release(staging), ..s }
}

/// The engine after a command buffer was recorded: it is parked with what it
/// holds on to, and the group is submitted if that filled it.
pub open spec fn paint_engine(
    s: EngineView,
    g: GroupView,
    up: UpkeepView,
    reply: PaintReply,
) -> EngineView {
    match reply {
        PaintReply::Failed(_) => paint_abandoned(s, up.staging),
        PaintReply::Recorded { cb, fresh, end, submit } => if end is Err {
            paint_abandoned(s, up.staging)
        } else {
            (EngineView {
                generation: match up.generation {
                    Some(_) => s.generation,
                    None => bumped(s.generation),
                },
                ..s
            }).parking(paint_parked(s, g, up, cb, fresh)).auto_flushed(
                g.opened(fresh).appended(cb),
                submit,
            )
        },
    }
}

/// The result of an operation whose command buffer was recorded.
pub open spec fn paint_result(g: GroupView, reply: PaintReply) -> Result<(), RenderError> {
    match reply {
        PaintReply::Failed(e) => Err(e),
        PaintReply::Recorded { cb, fresh, end, submit } => match end {
            Err(e) => Err(RenderError::Vk(e)),
            Ok(_) => auto_flush_result(g.opened(fresh).appended(cb), submit),
        },
    }
}

impl RenderEngine {
    /// Keeps the books of a recorded command buffer: the drawables that it
    /// refers to, the damage that it does, and what it holds on to.
    pub fn commit_paint(
        &mut self,
        store: &mut DrawableStore,
        group: &mut SubmitGroup,
        up: Upkeep,
        reply: PaintReply,
    ) -> (r: Result<(), RenderError>)
        ensures
            final(self)@ == paint_engine(old(self)@, old(group)@, up@, reply),
            final(store)@ == paint_store(old(store)@, old(group)@, up@, reply),
            final(group)@ == paint_group(old(group)@, reply),
            r == paint_result(old(group)@, reply),
    {
        let ghost s = self@;
        match reply {
            PaintReply::Failed(e) => {
                self.abandon(up.staging);
                Err(e)
            },
            PaintReply::Recorded { cb, fresh, end, submit } => {
                let ticket = group.ticket_or_open(fresh);
                store.set_layout(up.target, Layout::ShaderReadOnly);
                match end {
                    Err(e) => {
                        self.abandon(up.staging);
                        Err(RenderError::Vk(e))
                    },
                    Ok(_) => {
                        group.append(cb);
                        store.touch_all(&up.touches, ticket);
                        store.damage_all(up.target, &up.damage);
                        let generation: u64 = match up.generation {
                            Some(n) => n,
                            None => {
                                self.acquire_generation = bump(self.acquire_generation);
                                self.acquire_generation
                            },
                        };
                        let op = SubmittedOp {
                            cb,
                            ticket,
                            staging: up.staging,
                            scratch: Vec::new(),
                            atlas_ticket: up.atlas_ticket,
                            generation,
                            retired: Vec::new(),
                        };
                        self.park(op);
                        proof {
                            assert(op@.scratch =~= Seq::empty());
                            assert(op@.retired =~= Seq::empty());
                            assert(op@ =~= paint_parked(s, old(group)@, up@, cb, fresh));
                        }
                        self.maybe_auto_flush_submit_group(group, submit)
                    },
                }
            },
        }
    }

    /// Frees the staging buffer of a command buffer that came to nothing.
    pub fn abandon(&mut self, staging: Option<Staging>)
        ensures
            final(self)@ == paint_abandoned(old(self)@, staging),
    {
        release_staging(staging, &mut self.released);
        proof {
            assert(self@ =~= paint_abandoned(old(self)@, staging));
        }
    }

    /// Parks a command buffer until the group is submitted.
    pub fn park(&mut self, op: SubmittedOp)
        ensures
            final(self)@ == old(self)@.parking(op@),
    {
        self.pending_group_ops.push(op);
        proof {
            assert(self@ =~= old(self)@.parking(op@));
        }
    }
}

/// What an operation that needs a device and a target finds.
pub open spec fn target_check(s: EngineView, st: StoreView, g: GroupView, id: DrawableId) -> Result<
    Drawable,
    RenderError,
> {
    if !s.live {
        Err(RenderError::NoVk)
    } else if g.renderer_failed {
        Err(RenderError::RendererFailed)
    } else {
        match st.get(id) {
            Some(d) => Ok(d),
            None => Err(RenderError::UnknownDrawable(id)),
        }
    }
}

impl RenderEngine {
    /// The target of an operation, or why it cannot be painted.
    pub fn check_target(&self, store: &DrawableStore, group: &SubmitGroup, id: DrawableId) -> (r:
        Result<Drawable, RenderError>)
        ensures
            r == target_check(self@, store@, group@, id),
    {
        if !self.live {
            return Err(RenderError::NoVk);
        }
        if group.renderer_failed {
            return Err(RenderError::RendererFailed);
        }
        match store.get(id) {
            Some(d) => Ok(d),
            None => Err(RenderError::UnknownDrawable(id)),
        }
    }
}

/// The commands before rendering to a drawable.
pub open spec fn attach(d: Drawable) -> Seq<Command> {
    seq![
        spec_barrier(
            d.image,
            d.layout,
            Layout::ColorAttachment,
            spec_any_producer(),
            spec_scope(STAGE_COLOR_ATTACHMENT_OUTPUT, ACCESS_COLOR_ATTACHMENT_WRITE),
        ),
        Command::BeginRendering { image: d.image, view: d.view, extent: d.extent },
    ]
}

/// The commands after rendering to a drawable.
pub open spec fn detach(d: Drawable) -> Seq<Command> {
    seq![
        Command::EndRendering { image: d.image },
        spec_barrier(
            d.image,
            Layout::ColorAttachment,
            Layout::ShaderReadOnly,
            spec_scope(STAGE_COLOR_ATTACHMENT_OUTPUT, ACCESS_COLOR_ATTACHMENT_WRITE),
            spec_scope(STAGE_FRAGMENT_SHADER, ACCESS_SHADER_SAMPLED_READ),
        ),
    ]
}

fn push_attach(out: &mut Vec<Command>, d: &Drawable)
    ensures
        final(out)@ == old(out)@ + attach(*d),
{
    let ghost start = out@;
    out.push(
        barrier_to_layout(
            d.image,
            d.layout,
            Layout::ColorAttachment,
            any_producer(),
            scope(STAGE_COLOR_ATTACHMENT_OUTPUT, ACCESS_COLOR_ATTACHMENT_WRITE),
        ),
    );
    out.push(Command::BeginRendering { image: d.image, view: d.view, extent: d.extent });
    proof {
        assert(out@ =~= start + attach(*d));
    }
}

fn push_detach(out: &mut Vec<Command>, d: &Drawable)
    ensures
        final(out)@ == old(out)@ + detach(*d),
{
    let ghost start = out@;
    out.push(Command::EndRendering { image: d.image });
    out.push(
        barrier_to_layout(
            d.image,
            Layout::ColorAttachment,
            Layout::ShaderReadOnly,
            scope(STAGE_COLOR_ATTACHMENT_OUTPUT, ACCESS_COLOR_ATTACHMENT_WRITE),
            scope(STAGE_FRAGMENT_SHADER, ACCESS_SHADER_SAMPLED_READ),
        ),
    );
    proof {
        assert(out@ =~= start + detach(*d));
    }
}

/// Rendering to a drawable, with commands in between that touch no layout,
/// uses it in the layout that it is in and leaves it to be sampled.
pub proof fn rendering_layouts(d: Drawable, inner: Seq<Command>, m: Layouts)
    requires
        m[d.image] == d.layout,
        forall|i: int|
            0 <= i < inner.len() ==> crate::command::layout_neutral(#[trigger] inner[i]),
    ensures
        layout_run(m, attach(d) + inner + detach(d)) == Some(
            m.insert(d.image, Layout::ColorAttachment).insert(d.image, Layout::ShaderReadOnly),
        ),
{
    let m1 = m.insert(d.image, Layout::ColorAttachment);
    reveal_with_fuel(layout_run, 3);
    assert(attach(d).drop_last().drop_last() =~= Seq::empty());
    assert(detach(d).drop_last().drop_last() =~= Seq::empty());
    assert(layout_run(m, attach(d)) == Some(m1));
    layout_run_concat(m, attach(d), inner);
    layout_run_neutral(m1, inner);
    layout_run_concat(m, attach(d) + inner, detach(d));
}

/// A command buffer that a plan asks for.
pub struct PaintPlan {
    pub commands: Vec<Command>,
    pub damage: Vec<Rect>,
}

/// The fills of a list of rectangles.
pub open spec fn clears(color: Color, rects: Seq<Rect>) -> Seq<Command> {
    rects.map_values(|rect: Rect| Command::ClearRect { color, rect })
}

/// The commands of a fill.
pub open spec fn fill_commands(d: Drawable, color: Color, rects: Seq<Rect>) -> Seq<Command> {
    attach(d) + clears(color, rects) + detach(d)
}

/// What a fill does next: it paints the visible parts of its rectangles.
pub open spec fn fill_decision(
    s: EngineView,
    st: StoreView,
    g: GroupView,
    target: DrawableId,
    rects: Seq<Rect>,
) -> Decision<Seq<Rect>, ()> {
    match s.own_buffer_chore() {
        Some(c) => Decision::Chore(c),
        None => match target_check(s, st, g, target) {
            Err(e) => Decision::Done(Err(e)),
            Ok(d) => {
                let visible = clamped_nonempty(rects, d.extent);
                if visible.len() == 0 {
                    Decision::Done(Ok(()))
                } else {
                    Decision::Paint(visible)
                }
            },
        },
    }
}

/// The upkeep of an operation that refers to nothing but its target.
pub open spec fn simple_upkeep(
    target: DrawableId,
    damage: Seq<Rect>,
    staging: Option<Staging>,
) -> UpkeepView {
    UpkeepView {
        target,
        touches: seq![target],
        damage,
        staging,
        atlas_ticket: None,
        generation: None,
    }
}

pub fn make_simple_upkeep(target: DrawableId, damage: Vec<Rect>, staging: Option<Staging>) -> (r:
    Upkeep)
    ensures
        r@ == simple_upkeep(target, damage@, staging),
{
    let mut touches: Vec<DrawableId> = Vec::new();
    touches.push(target);
    proof {
        assert(touches@ =~= seq![target]);
    }
    Upkeep { target, touches, damage, staging, atlas_ticket: None, generation: None }
}

impl RenderEngine {
    /// What a fill of rectangles does next.
    pub fn fill_rect_batch_plan(
        &self,
        store: &DrawableStore,
        group: &SubmitGroup,
        target: DrawableId,
        color: Color,
        rects: &Vec<Rect>,
    ) -> (r: Decision<PaintPlan, ()>)
        ensures
            match fill_decision(self@, store@, group@, target, rects@) {
                Decision::Chore(c) => r == Decision::<PaintPlan, ()>::Chore(c),
                Decision::Done(x) => r == Decision::<PaintPlan, ()>::Done(x),
                Decision::Paint(visible) => r matches Decision::Paint(p) && p.commands@
                    == fill_commands(store@.get(target)->0, color, visible) && p.damage@ == visible
                    && fills(p.commands@, store@.get(target)->0, color, rects@),
            },
    {
        match self.own_buffer_chore() {
            Some(c) => {
                return Decision::Chore(c);
            },
            None => {},
        }
        let d = match self.check_target(store, group, target) {
            Ok(d) => d,
            Err(e) => {
                return Decision::Done(Err(e));
            },
        };
        let damage = clamp_rects(rects, d.extent);
        if damage.len() == 0 {
            return Decision::Done(Ok(()));
        }
        let mut commands: Vec<Command> = Vec::new();
        push_attach(&mut commands, &d);
        let mut i: usize = 0;
        while i < damage.len()
            invariant
                i <= damage.len(),
                commands@ == attach(d) + clears(color, damage@.take(i as int)),
            decreases damage.len() - i,
        {
            commands.push(Command::ClearRect { color, rect: damage[i] });
            i = i + 1;
            proof {
                assert(commands@ =~= attach(d) + clears(color, damage@.take(i as int)));
            }
        }
        proof {
            assert(damage@.take(i as int) =~= damage@);
        }
        push_detach(&mut commands, &d);
        proof {
            fill_colours_its_rectangles(d, color, rects@);
        }
        Decision::Paint(PaintPlan { commands, damage })
    }

    /// Fills rectangles of a drawable with one colour, in one command buffer.
    pub fn fill_rect_batch(
        &mut self,
        store: &mut DrawableStore,
        group: &mut SubmitGroup,
        target: DrawableId,
        color: Color,
        rects: &Vec<Rect>,
        reply: PaintReply,
    ) -> (r: Step<()>)
        ensures
            match fill_decision(old(self)@, old(store)@, old(group)@, target, rects@) {
                Decision::Chore(c) => r == Step::<()>::Chore(c) && final(self)@ == old(self)@
                    && final(store)@ == old(store)@ && final(group)@ == old(group)@,
                Decision::Done(x) => r == Step::Done(x) && final(self)@ == old(self)@
                    && final(store)@ == old(store)@ && final(group)@ == old(group)@,
                Decision::Paint(visible) => {
                    let up = simple_upkeep(target, visible, None);
                    &&& final(self)@ == paint_engine(old(self)@, old(group)@, up, reply)
                    &&& final(store)@ == paint_store(old(store)@, old(group)@, up, reply)
                    &&& final(group)@ == paint_group(old(group)@, reply)
                    &&& r == Step::Done(paint_result(old(group)@, reply))
                },
            },
    {
        match self.fill_rect_batch_plan(store, group, target, color, rects) {
            Decision::Chore(c) => Step::Chore(c),
            Decision::Done(x) => Step::Done(x),
            Decision::Paint(plan) => {
                let up = make_simple_upkeep(target, plan.damage, None);
                Step::Done(self.commit_paint(store, group, up, reply))
            },
        }
    }

    /// Fills one rectangle of a drawable with one colour.
    pub fn fill_rect(
        &mut self,
        store: &mut DrawableStore,
        group: &mut SubmitGroup,
        target: DrawableId,
        rect: Rect,
        color: Color,
        reply: PaintReply,
    ) -> (r: Step<()>)
        ensures
            match fill_decision(old(self)@, old(store)@, old(group)@, target, seq![rect]) {
                Decision::Chore(c) => r == Step::<()>::Chore(c) && final(self)@ == old(self)@
                    && final(store)@ == old(store)@ && final(group)@ == old(group)@,
                Decision::Done(x) => r == Step::Done(x) && final(self)@ == old(self)@
                    && final(store)@ == old(store)@ && final(group)@ == old(group)@,
                Decision::Paint(visible) => {
                    let up = simple_upkeep(target, visible, None);
                    &&& final(self)@ == paint_engine(old(self)@, old(group)@, up, reply)
                    &&& final(store)@ == paint_store(old(store)@, old(group)@, up, reply)
                    &&& final(group)@ == paint_group(old(group)@, reply)
                    &&& r == Step::Done(paint_result(old(group)@, reply))
                },
            },
    {
        let mut rects: Vec<Rect> = Vec::new();
        rects.push(rect);
        proof {
            assert(rects@ =~= seq![rect]);
        }
        self.fill_rect_batch(store, group, target, color, &rects, reply)
    }
}

/// The pixel of a raster operation fill, as the storage format reads it. The
/// top byte of `fg` is its alpha, unless the server owns alpha; then alpha is
/// not written, and the pixel is opaque.
pub open spec fn fill_pixel(format: Format, opaque_alpha: bool, fg: u32) -> Rgba8 {
    if format == Format::R8Unorm {
        Rgba8 { r: (fg & 0xFF) as u8, g: 0, b: 0, a: 255 }
    } else if opaque_alpha {
        Rgba8 { a: 255, ..pixel_channels(fg) }
    } else {
        pixel_channels(fg)
    }
}

/// The pixel of a raster operation fill.
pub fn logic_fill_pixel(format: Format, opaque_alpha: bool, fg: u32) -> (r: Rgba8)
    ensures
        r == fill_pixel(format, opaque_alpha, fg),
{
    if format == Format::R8Unorm {
        return Rgba8 { r: (fg & 0xFF) as u8, g: 0, b: 0, a: 255 };
    }
    let c = decode_x11_pixel_bgra(fg);
    if opaque_alpha {
        Rgba8 { a: 255, ..c }
    } else {
        c
    }
}

/// The fills of a list of rectangles through a raster operation.
pub open spec fn logic_draws(
    format: Format,
    function: GcFunction,
    opaque_alpha: bool,
    pixel: Rgba8,
    rects: Seq<Rect>,
) -> Seq<Command> {
    rects.map_values(
        |rect: Rect| Command::LogicDraw { format, function, opaque_alpha, pixel, rect },
    )
}

/// The commands of a fill through a raster operation.
pub open spec fn logic_fill_commands(
    d: Drawable,
    function: GcFunction,
    opaque_alpha: bool,
    fg: u32,
    rects: Seq<Rect>,
) -> Seq<Command> {
    attach(d) + logic_draws(
        d.format,
        function,
        opaque_alpha,
        fill_pixel(d.format, opaque_alpha, fg),
        rects,
    ) + detach(d)
}

/// What a fill through a raster operation does next. An unknown target is
/// reported before a missing device.
pub open spec fn logic_fill_decision(
    s: EngineView,
    st: StoreView,
    g: GroupView,
    target: DrawableId,
    function: GcFunction,
    rects: Seq<Rectangle16>,
) -> Decision<Seq<Rect>, ()> {
    match s.frame_chore() {
        Some(c) => Decision::Chore(c),
        None => if rects.len() == 0 {
            Decision::Done(Ok(()))
        } else {
            match s.batch_chore() {
                Some(c) => Decision::Chore(c),
                None => if function == GcFunction::NoOp {
                    Decision::Done(Ok(()))
                } else {
                    match st.get(target) {
                        None => Decision::Done(Err(RenderError::UnknownDrawable(target))),
                        Some(d) => match s.logic_fill_asset(g, d.format) {
                            Err(e) => Decision::Done(Err(e)),
                            Ok(Some(asset)) => Decision::Chore(Chore::Build(asset)),
                            Ok(None) => if clipped_list(rects, d.extent).len() == 0 {
                                Decision::Done(Ok(()))
                            } else {
                                Decision::Paint(clipped_list(rects, d.extent))
                            },
                        },
                    }
                },
            }
        },
    }
}

impl RenderEngine {
    /// What a fill through a raster operation does next.
    pub fn logic_fill_plan(
        &self,
        store: &DrawableStore,
        group: &SubmitGroup,
        target: DrawableId,
        function: GcFunction,
        opaque_alpha: bool,
        fg: u32,
        rects: &Vec<Rectangle16>,
    ) -> (r: Decision<PaintPlan, ()>)
        ensures
            match logic_fill_decision(self@, store@, group@, target, function, rects@) {
                Decision::Chore(c) => r == Decision::<PaintPlan, ()>::Chore(c),
                Decision::Done(x) => r == Decision::<PaintPlan, ()>::Done(x),
                Decision::Paint(visible) => r matches Decision::Paint(p) && p.commands@
                    == logic_fill_commands(
                    store@.get(target)->0,
                    function,
                    opaque_alpha,
                    fg,
                    visible,
                ) && p.damage@ == visible && raster_fills(
                    p.commands@,
                    store@.get(target)->0,
                    function,
                    opaque_alpha,
                    fg,
                    rects@,
                ),
            },
    {
        match self.close_open_frame_for_own_buffer() {
            Some(c) => {
                return Decision::Chore(c);
            },
            None => {},
        }
        if rects.len() == 0 {
            return Decision::Done(Ok(()));
        }
        match self.batch_chore() {
            Some(c) => {
                return Decision::Chore(c);
            },
            None => {},
        }
        if function == GcFunction::NoOp {
            return Decision::Done(Ok(()));
        }
        let d = match store.get(target) {
            Some(d) => d,
            None => {
                return Decision::Done(Err(RenderError::UnknownDrawable(target)));
            },
        };
        match self.ensure_logic_fill_cache(group, d.format) {
            Err(e) => {
                return Decision::Done(Err(e));
            },
            Ok(Some(asset)) => {
                return Decision::Chore(Chore::Build(asset));
            },
            Ok(None) => {},
        }
        let pixel = logic_fill_pixel(d.format, opaque_alpha, fg);
        let damage = clip_rectangles(rects, d.extent);
        if damage.len() == 0 {
            return Decision::Done(Ok(()));
        }
        let format = d.format;
        let mut commands: Vec<Command> = Vec::new();
        push_attach(&mut commands, &d);
        let mut i: usize = 0;
        proof {
            assert(commands@ =~= attach(d) + logic_draws(
                format,
                function,
                opaque_alpha,
                pixel,
                damage@.take(0),
            ));
        }
        while i < damage.len()
            invariant
                i <= damage.len(),
                commands@ == attach(d) + logic_draws(
                    format,
                    function,
                    opaque_alpha,
                    pixel,
                    damage@.take(i as int),
                ),
            decreases damage.len() - i,
        {
            commands.push(
                Command::LogicDraw { format, function, opaque_alpha, pixel, rect: damage[i] },
            );
            i = i + 1;
            proof {
                assert(commands@ =~= attach(d) + logic_draws(
                    format,
                    function,
                    opaque_alpha,
                    pixel,
                    damage@.take(i as int),
                ));
            }
        }
        proof {
            assert(damage@.take(i as int) =~= damage@);
        }
        push_detach(&mut commands, &d);
        proof {
            raster_fill_applies_its_function(d, function, opaque_alpha, fg, rects@);
        }
        Decision::Paint(PaintPlan { commands, damage })
    }

    /// Fills rectangles of a drawable through a raster operation, in one
    /// command buffer.
    pub fn logic_fill(
        &mut self,
        store: &mut DrawableStore,
        group: &mut SubmitGroup,
        target: DrawableId,
        function: GcFunction,
        opaque_alpha: bool,
        fg: u32,
        rects: &Vec<Rectangle16>,
        reply: PaintReply,
    ) -> (r: Step<()>)
        ensures
            match logic_fill_decision(
                old(self)@,
                old(store)@,
                old(group)@,
                target,
                function,
                rects@,
            ) {
                Decision::Chore(c) => r == Step::<()>::Chore(c) && final(self)@ == old(self)@
                    && final(store)@ == old(store)@ && final(group)@ == old(group)@,
                Decision::Done(x) => r == Step::Done(x) && final(self)@ == old(self)@
                    && final(store)@ == old(store)@ && final(group)@ == old(group)@,
                Decision::Paint(visible) => {
                    let up = simple_upkeep(target, visible, None);
                    &&& final(self)@ == paint_engine(old(self)@, old(group)@, up, reply)
                    &&& final(store)@ == paint_store(old(store)@, old(group)@, up, reply)
                    &&& final(group)@ == paint_group(old(group)@, reply)
                    &&& r == Step::Done(paint_result(old(group)@, reply))
                },
            },
    {
        match self.logic_fill_plan(store, group, target, function, opaque_alpha, fg, rects) {
            Decision::Chore(c) => Step::Chore(c),
            Decision::Done(x) => Step::Done(x),
            Decision::Paint(plan) => {
                let up = make_simple_upkeep(target, plan.damage, None);
                Step::Done(self.commit_paint(store, group, up, reply))
            },
        }
    }
}

} // verus!
