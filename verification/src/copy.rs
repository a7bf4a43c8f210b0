//! Copies between drawables, recorded into the open frame.

use vstd::prelude::*;

use crate::command::{RecordedCopyArea, ScratchImage};
use crate::engine::{bump, bumped, EngineView, Release, RenderEngine};
use crate::error::{DrawableId, RenderError, VkCode};
use crate::frame::{set_cur, FrameView, OpView, OpenFrame, RecordedOp};
use crate::geometry::{copied_rects, copy_rects, Offset, Rect};
use crate::paint::{Decision, Step};
use crate::store::{Drawable, DrawableStore, Layout, StoreView, Ticket};
use crate::submit::{GroupView, SubmitGroup};

verus! {

impl EngineView {
    /// The engine once a frame is open, `fresh` being a new ticket for a
    /// closed group.
    pub open spec fn frame_opened(self, g: GroupView, fresh: Ticket) -> EngineView {
        match self.frame {
            Some(_) => self,
            None => EngineView {
                generation: bumped(self.generation),
                lifetime_opens: bumped(self.lifetime_opens),
                frame: Some(FrameView::fresh(g.ticket_or(fresh), bumped(self.generation))),
                ..self
            },
        }
    }

    /// The group once a frame is open.
    pub open spec fn frame_group(self, g: GroupView, fresh: Ticket) -> GroupView {
        match self.frame {
            Some(_) => g,
            None => g.opened(fresh),
        }
    }

    /// Whether opening a frame takes a new ticket.
    pub open spec fn wants_ticket(self, g: GroupView) -> bool {
        self.frame is None && g.ticket is None
    }
}

impl RenderEngine {
    /// Whether recording into a frame takes a new ticket.
    pub fn wants_ticket(&self, group: &SubmitGroup) -> (r: bool)
        ensures
            r == self@.wants_ticket(group@),
    {
        self.frame.is_none() && group.ticket.is_none()
    }

    /// The open frame; one is opened if none is open.
    pub fn open_frame(&mut self, group: &mut SubmitGroup, fresh: Ticket)
        ensures
            final(self)@ == old(self)@.frame_opened(old(group)@, fresh),
            final(group)@ == old(self)@.frame_group(old(group)@, fresh),
            final(self).frame is Some,
    {
        if self.frame.is_none() {
            let ticket = group.ticket_or_open(fresh);
            self.acquire_generation = bump(self.acquire_generation);
            self.lifetime_opens = bump(self.lifetime_opens);
            self.frame = Some(OpenFrame::new(ticket, self.acquire_generation));
            proof {
                assert(self@ =~= old(self)@.frame_opened(old(group)@, fresh));
            }
        }
    }

    /// The layout of a drawable as the next operation of the open frame finds
    /// it: what the operations recorded so far leave it in, else what the
    /// store says.
    pub fn current_layout_for_drawable(&self, store: &DrawableStore, id: DrawableId) -> (r: Layout)
        ensures
            r == match self@.frame {
                Some(f) => f.current_layout(id, store@.layout(id)),
                None => store@.layout(id),
            },
    {
        let stored = match store.get(id) {
            Some(d) => d.layout,
            None => Layout::Undefined,
        };
        match &self.frame {
            Some(f) => f.current_layout(id, stored),
            None => stored,
        }
    }
}

/// A copy that reaches at least one pixel.
#[derive(Clone, Copy, Debug, PartialEq, Eq, Structural)]
pub struct CopyGeometry {
    pub src_rect: Rect,
    pub dst_rect: Rect,
    pub src: Drawable,
    pub dst: Drawable,
}

/// What is left of a copy between two drawables inside both images; `None`
/// when nothing is.
pub open spec fn copy_geometry(src: Drawable, dst: Drawable, src_rect: Rect, pos: Offset) -> Option<
    CopyGeometry,
> {
    match copied_rects(src_rect, src.extent, pos, dst.extent) {
        None => None,
        Some((read, written)) => Some(
            CopyGeometry { src_rect: read, dst_rect: written, src, dst },
        ),
    }
}

fn project_copy(src: Drawable, dst: Drawable, src_rect: Rect, pos: Offset) -> (r: Option<
    CopyGeometry,
>)
    ensures
        r == copy_geometry(src, dst, src_rect, pos),
{
    match copy_rects(src_rect, src.extent, pos, dst.extent) {
        None => None,
        Some((read, written)) => Some(
            CopyGeometry { src_rect: read, dst_rect: written, src, dst },
        ),
    }
}

/// The drawables of a copy and what is left of it.
pub open spec fn copy_between(
    st: StoreView,
    src: DrawableId,
    dst: DrawableId,
    src_rect: Rect,
    pos: Offset,
) -> Result<Option<CopyGeometry>, RenderError> {
    match st.get(src) {
        None => Err(RenderError::UnknownDrawable(src)),
        Some(s) => match st.get(dst) {
            None => Err(RenderError::UnknownDrawable(dst)),
            Some(d) => if s.format != d.format {
                Err(RenderError::UnsupportedDepth(0))
            } else {
                Ok(copy_geometry(s, d, src_rect, pos))
            },
        },
    }
}

pub fn resolve_copy(
    store: &DrawableStore,
    src: DrawableId,
    dst: DrawableId,
    src_rect: Rect,
    pos: Offset,
) -> (r: Result<Option<CopyGeometry>, RenderError>)
    ensures
        r == copy_between(store@, src, dst, src_rect, pos),
{
    let s = match store.get(src) {
        Some(s) => s,
        None => {
            return Err(RenderError::UnknownDrawable(src));
        },
    };
    let d = match store.get(dst) {
        Some(d) => d,
        None => {
            return Err(RenderError::UnknownDrawable(dst));
        },
    };
    if s.format != d.format {
        return Err(RenderError::UnsupportedDepth(0));
    }
    Ok(project_copy(s, d, src_rect, pos))
}

/// What a copy into the open frame does next.
pub open spec fn copy_decision(
    s: EngineView,
    st: StoreView,
    g: GroupView,
    src: DrawableId,
    dst: DrawableId,
    src_rect: Rect,
    pos: Offset,
) -> Decision<CopyGeometry, ()> {
    if src_rect.extent.spec_is_empty() {
        Decision::Done(Ok(()))
    } else if g.renderer_failed {
        Decision::Done(Err(RenderError::RendererFailed))
    } else {
        match s.batch_chore() {
            Some(c) => Decision::Chore(c),
            None => if !s.live {
                Decision::Done(Err(RenderError::NoVk))
            } else {
                match copy_between(st, src, dst, src_rect, pos) {
                    Err(e) => Decision::Done(Err(e)),
                    Ok(None) => Decision::Done(Ok(())),
                    Ok(Some(c)) => Decision::Paint(c),
                }
            },
        }
    }
}

/// The device's answers to a copy.
#[derive(Clone, Copy)]
pub struct CopyReply {
    /// A scratch image of the size and format of the copy, where source and
    /// destination are one drawable.
    pub scratch: Result<ScratchImage, RenderError>,
    /// A new ticket, where one is wanted.
    pub fresh: Result<Ticket, VkCode>,
}

/// The ticket to open a frame with, or why there is none. Only a ticket that
/// is wanted can fail.
pub open spec fn usable_ticket(
    s: EngineView,
    g: GroupView,
    fresh: Result<Ticket, VkCode>,
) -> Result<Ticket, RenderError> {
    match fresh {
        Ok(t) => Ok(t),
        Err(e) => if s.wants_ticket(g) {
            Err(RenderError::Vk(e))
        } else {
            Ok(0)
        },
    }
}

impl RenderEngine {
    /// The ticket to open a frame with, or why there is none.
    pub fn usable_ticket(&self, group: &SubmitGroup, fresh: Result<Ticket, VkCode>) -> (r: Result<
        Ticket,
        RenderError,
    >)
        ensures
            r == usable_ticket(self@, group@, fresh),
    {
        match fresh {
            Ok(t) => Ok(t),
            Err(e) => if self.wants_ticket(group) {
                Err(RenderError::Vk(e))
            } else {
                Ok(0)
            },
        }
    }
}

/// The scratch image that a copy holds, or why there is none.
pub open spec fn copy_scratch(src: DrawableId, dst: DrawableId, reply: CopyReply) -> Result<
    Option<ScratchImage>,
    RenderError,
> {
    if src == dst {
        match reply.scratch {
            Ok(x) => Ok(Some(x)),
            Err(e) => Err(e),
        }
    } else {
        Ok(None)
    }
}

/// The frame once it refers to the drawables of a copy.
pub open spec fn copy_referring(
    f: FrameView,
    st: StoreView,
    src: DrawableId,
    dst: DrawableId,
) -> FrameView {
    let f1 = f.referring(dst, st.layout(dst), st.ticket(dst));
    if src == dst {
        f1
    } else {
        f1.referring(src, st.layout(src), st.ticket(src))
    }
}

/// The recorded form of a copy.
pub open spec fn copy_record(
    f: FrameView,
    st: StoreView,
    src: DrawableId,
    dst: DrawableId,
    c: CopyGeometry,
    scratch: Option<ScratchImage>,
) -> RecordedCopyArea {
    RecordedCopyArea {
        dst_id: dst,
        src_id: src,
        src_rect: c.src_rect,
        dst_rect: c.dst_rect,
        format: c.src.format,
        src_extent: c.src.extent,
        dst_extent: c.dst.extent,
        src_image: c.src.image,
        dst_image: c.dst.image,
        src_old_layout: f.current_layout(src, st.layout(src)),
        dst_old_layout: f.current_layout(dst, st.layout(dst)),
        self_overlap_scratch: scratch,
    }
}

/// The frame after a copy was recorded: it refers to both drawables and
/// leaves both to be sampled.
pub open spec fn copy_frame(
    f: FrameView,
    st: StoreView,
    src: DrawableId,
    dst: DrawableId,
    c: CopyGeometry,
    scratch: Option<ScratchImage>,
) -> FrameView {
    let f2 = copy_referring(f, st, src, dst);
    let f3 = f2.recorded(
        OpView::CopyArea(copy_record(f2, st, src, dst, c, scratch)),
        dst,
        Layout::ShaderReadOnly,
    );
    if src == dst {
        f3
    } else {
        FrameView { layouts: set_cur(f3.layouts, src, Layout::ShaderReadOnly), ..f3 }
    }
}

/// What frees the scratch image of a copy.
pub open spec fn scratch_release(scratch: Option<ScratchImage>) -> Seq<Release> {
    match scratch {
        Some(x) => seq![Release::Scratch(x.image)],
        None => Seq::empty(),
    }
}

/// The engine after a copy. Without a ticket nothing is recorded, and the
/// scratch image may be freed.
pub open spec fn copy_engine(
    s: EngineView,
    st: StoreView,
    g: GroupView,
    src: DrawableId,
    dst: DrawableId,
    c: CopyGeometry,
    reply: CopyReply,
) -> EngineView {
    match copy_scratch(src, dst, reply) {
        Err(_) => s,
        Ok(scratch) => match usable_ticket(s, g, reply.fresh) {
            Err(_) => EngineView { released: s.released + scratch_release(scratch), ..s },
            Ok(fresh) => {
                let opened = s.frame_opened(g, fresh);
                EngineView {
                    frame: Some(copy_frame(opened.frame->0, st, src, dst, c, scratch)),
                    ..opened
                }
            },
        },
    }
}

/// The store after a copy was recorded into a frame.
pub open spec fn copy_store(
    st: StoreView,
    ticket: Ticket,
    src: DrawableId,
    dst: DrawableId,
    rect: Rect,
) -> StoreView {
    let touched = st.with_ticket(dst, Some(ticket));
    let both = if src == dst {
        touched
    } else {
        touched.with_ticket(src, Some(ticket))
    };
    both.with_damage(dst, rect)
}

impl RenderEngine {
    /// What a copy into the open frame does next.
    pub fn copy_area_plan(
        &self,
        store: &DrawableStore,
        group: &SubmitGroup,
        src: DrawableId,
        dst: DrawableId,
        src_rect: Rect,
        dst_pos: Offset,
    ) -> (r: Decision<CopyGeometry, ()>)
        ensures
            r == copy_decision(self@, store@, group@, src, dst, src_rect, dst_pos),
    {
        if src_rect.extent.is_empty() {
            return Decision::Done(Ok(()));
        }
        if group.renderer_failed {
            return Decision::Done(Err(RenderError::RendererFailed));
        }
        match self.batch_chore() {
            Some(c) => {
                return Decision::Chore(c);
            },
            None => {},
        }
        if !self.live {
            return Decision::Done(Err(RenderError::NoVk));
        }
        match resolve_copy(store, src, dst, src_rect, dst_pos) {
            Err(e) => Decision::Done(Err(e)),
            Ok(None) => Decision::Done(Ok(())),
            Ok(Some(c)) => Decision::Paint(c),
        }
    }

    /// Records a copy into the open frame, opening one if needed. A copy
    /// within one drawable goes by way of the scratch image, which the frame
    /// then owns. If no frame can be opened, the scratch image may be freed.
    pub fn copy_area(
        &mut self,
        store: &mut DrawableStore,
        group: &mut SubmitGroup,
        src: DrawableId,
        dst: DrawableId,
        src_rect: Rect,
        dst_pos: Offset,
        reply: CopyReply,
    ) -> (r: Step<()>)
        ensures
            match copy_decision(
                old(self)@,
                old(store)@,
                old(group)@,
                src,
                dst,
                src_rect,
                dst_pos,
            ) {
                Decision::Chore(c) => r == Step::<()>::Chore(c) && final(self)@ == old(self)@
                    && final(store)@ == old(store)@ && final(group)@ == old(group)@,
                Decision::Done(x) => r == Step::Done(x) && final(self)@ == old(self)@
                    && final(store)@ == old(store)@ && final(group)@ == old(group)@,
                Decision::Paint(c) => {
                    &&& final(self)@ == copy_engine(
                        old(self)@,
                        old(store)@,
                        old(group)@,
                        src,
                        dst,
                        c,
                        reply,
                    )
                    &&& match copy_scratch(src, dst, reply) {
                        Err(e) => r == Step::<()>::Done(Err(e)) && final(store)@ == old(store)@
                            && final(group)@ == old(group)@,
                        Ok(scratch) => match usable_ticket(old(self)@, old(group)@, reply.fresh) {
                            Err(e) => r == Step::<()>::Done(Err(e)) && final(store)@ == old(store)@
                                && final(group)@ == old(group)@,
                            Ok(fresh) => {
                                &&& r == Step::<()>::Done(Ok(()))
                                &&& final(store)@ == copy_store(
                                    old(store)@,
                                    old(self)@.frame_opened(old(group)@, fresh).frame->0.ticket,
                                    src,
                                    dst,
                                    c.dst_rect,
                                )
                                &&& final(group)@ == old(self)@.frame_group(old(group)@, fresh)
                            },
                        },
                    }
                },
            },
    {
        let c = match self.copy_area_plan(store, group, src, dst, src_rect, dst_pos) {
            Decision::Chore(c) => {
                return Step::Chore(c);
            },
            Decision::Done(x) => {
                return Step::Done(x);
            },
            Decision::Paint(c) => c,
        };
        let scratch: Option<ScratchImage> = if src == dst {
            match reply.scratch {
                Ok(x) => Some(x),
                Err(e) => {
                    return Step::Done(Err(e));
                },
            }
        } else {
            None
        };
        let fresh: Ticket = match self.usable_ticket(group, reply.fresh) {
            Ok(t) => t,
            Err(e) => {
                match scratch {
                    Some(x) => {
                        self.released.push(Release::Scratch(x.image));
                    },
                    None => {},
                }
                proof {
                    let list = old(self)@.released + scratch_release(scratch);
                    assert(self@.released =~= list);
                    assert(self@ =~= (EngineView { released: list, ..old(self)@ }));
                }
                return Step::Done(Err(e));
            },
        };
        self.open_frame(group, fresh);
        let ghost opened = self@;
        match &mut self.frame {
            None => {},
            Some(f) => {
                let ticket = f.ticket;
                f.refer(dst, c.dst.layout, c.dst.last_render_ticket);
                if src != dst {
                    f.refer(src, c.src.layout, c.src.last_render_ticket);
                }
                let op = RecordedCopyArea {
                    dst_id: dst,
                    src_id: src,
                    src_rect: c.src_rect,
                    dst_rect: c.dst_rect,
                    format: c.src.format,
                    src_extent: c.src.extent,
                    dst_extent: c.dst.extent,
                    src_image: c.src.image,
                    dst_image: c.dst.image,
                    src_old_layout: f.current_layout(src, c.src.layout),
                    dst_old_layout: f.current_layout(dst, c.dst.layout),
                    self_overlap_scratch: scratch,
                };
                f.record(RecordedOp::CopyArea(op), dst, Layout::ShaderReadOnly);
                if src != dst {
                    f.also_leaves(src, Layout::ShaderReadOnly);
                }
                store.touch_render_fence(dst, ticket);
                if src != dst {
                    store.touch_render_fence(src, ticket);
                }
                store.damage(dst, c.dst_rect);
            },
        }
        proof {
            assert(self@ =~= (EngineView {
                frame: Some(copy_frame(opened.frame->0, old(store)@, src, dst, c, scratch)),
                ..opened
            }));
        }
        Step::Done(Ok(()))
    }
}

} // verus!
