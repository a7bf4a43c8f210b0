//! The drawables that the engine paints to, as far as painting reads and
//! changes them.

use vstd::prelude::*;

use crate::error::DrawableId;
use crate::geometry::{Extent, Rect};

verus! {

/// The pixel format of a storage image.
#[derive(Clone, Copy, Debug, PartialEq, Eq, Structural)]
pub enum Format {
    R8Unorm,
    B8G8R8A8Unorm,
    /// Any other format, by its raw Vulkan number.
    Other(i32),
}

/// The layout of a storage image.
#[derive(Clone, Copy, Debug, PartialEq, Eq, Structural)]
pub enum Layout {
    Undefined,
    ColorAttachment,
    ShaderReadOnly,
    TransferSrc,
    TransferDst,
    /// Any other layout, by its raw Vulkan number.
    Other(i32),
}

/// A fence that signals when the work recorded under it has completed.
pub type Ticket = u64;

/// One drawable and its storage image.
#[derive(Clone, Copy, Debug, PartialEq, Eq, Structural)]
pub struct Drawable {
    pub xid: u32,
    pub depth: u8,
    pub format: Format,
    pub extent: Extent,
    /// The storage image.
    pub image: u64,
    /// The view of the storage image that paint attaches and scanout samples.
    pub view: u64,
    /// The layout that all recorded work leaves the storage image in.
    pub layout: Layout,
    /// The ticket of the last work that refers to the storage image.
    pub last_render_ticket: Option<Ticket>,
}

/// The drawables by id, and the damage that painting has done to them.
pub struct DrawableStore {
    pub slots: Vec<Option<Drawable>>,
    pub damage: Vec<(DrawableId, Rect)>,
}

/// What a store holds.
#[verifier::ext_equal]
pub ghost struct StoreView {
    pub slots: Seq<Option<Drawable>>,
    pub damage: Seq<(DrawableId, Rect)>,
}

impl StoreView {
    pub open spec fn get(self, id: DrawableId) -> Option<Drawable> {
        if id < self.slots.len() {
            self.slots[id as int]
        } else {
            None
        }
    }

    pub open spec fn has(self, id: DrawableId) -> bool {
        self.get(id) is Some
    }

    /// The layout of a drawable; a missing drawable has none yet.
    pub open spec fn layout(self, id: DrawableId) -> Layout {
        match self.get(id) {
            Some(d) => d.layout,
            None => Layout::Undefined,
        }
    }

    pub open spec fn ticket(self, id: DrawableId) -> Option<Ticket> {
        match self.get(id) {
            Some(d) => d.last_render_ticket,
            None => None,
        }
    }

    /// The store with one drawable replaced; a missing drawable stays missing.
    pub open spec fn with(self, id: DrawableId, d: Drawable) -> StoreView {
        if self.has(id) {
            StoreView { slots: self.slots.update(id as int, Some(d)), ..self }
        } else {
            self
        }
    }

    pub open spec fn with_layout(self, id: DrawableId, layout: Layout) -> StoreView {
        match self.get(id) {
            Some(d) => self.with(id, Drawable { layout, ..d }),
            None => self,
        }
    }

    pub open spec fn with_ticket(self, id: DrawableId, ticket: Option<Ticket>) -> StoreView {
        match self.get(id) {
            Some(d) => self.with(id, Drawable { last_render_ticket: ticket, ..d }),
            None => self,
        }
    }

    pub open spec fn with_damage(self, id: DrawableId, rect: Rect) -> StoreView {
        if self.has(id) {
            StoreView { damage: self.damage.push((id, rect)), ..self }
        } else {
            self
        }
    }

    /// The store after `ticket` was put on each drawable of `ids`.
    pub open spec fn touched(self, ids: Seq<DrawableId>, ticket: Ticket) -> StoreView
        decreases ids.len(),
    {
        if ids.len() == 0 {
            self
        } else {
            self.touched(ids.drop_last(), ticket).with_ticket(ids.last(), Some(ticket))
        }
    }

    /// The store after each rectangle was added to the damage of `id`.
    pub open spec fn damaged(self, id: DrawableId, rects: Seq<Rect>) -> StoreView
        decreases rects.len(),
    {
        if rects.len() == 0 {
            self
        } else {
            self.damaged(id, rects.drop_last()).with_damage(id, rects.last())
        }
    }

    /// The store after each drawable of `ids` was left in `layout`.
    pub open spec fn laid_out(self, ids: Seq<DrawableId>, layout: Layout) -> StoreView
        decreases ids.len(),
    {
        if ids.len() == 0 {
            self
        } else {
            self.laid_out(ids.drop_last(), layout).with_layout(ids.last(), layout)
        }
    }
}

impl View for DrawableStore {
    type V = StoreView;

    open spec fn view(&self) -> StoreView {
        StoreView { slots: self.slots@, damage: self.damage@ }
    }
}

impl DrawableStore {
    /// A store without drawables.
    pub fn new() -> (r: DrawableStore)
        ensures
            r@ == (StoreView { slots: Seq::empty(), damage: Seq::empty() }),
    {
        let r = DrawableStore { slots: Vec::new(), damage: Vec::new() };
        proof {
            assert(r@ =~= (StoreView { slots: Seq::empty(), damage: Seq::empty() }));
        }
        r
    }

    /// Adds a drawable and names it.
    pub fn allocate(&mut self, d: Drawable) -> (id: DrawableId)
        ensures
            id == old(self)@.slots.len(),
            final(self)@ == (StoreView { slots: old(self)@.slots.push(Some(d)), ..old(self)@ }),
    {
        let id: DrawableId = self.slots.len();
        self.slots.push(Some(d));
        id
    }

    /// Removes a drawable. Its id is not used again.
    pub fn remove(&mut self, id: DrawableId) -> (r: Option<Drawable>)
        ensures
            r == old(self)@.get(id),
            final(self)@ == (StoreView {
                slots: if id < old(self)@.slots.len() {
                    old(self)@.slots.update(id as int, None)
                } else {
                    old(self)@.slots
                },
                ..old(self)@
            }),
    {
        if id < self.slots.len() {
            let d = self.slots[id];
            self.slots.set(id, None);
            d
        } else {
            None
        }
    }

    pub fn get(&self, id: DrawableId) -> (r: Option<Drawable>)
        ensures
            r == self@.get(id),
    {
        if id < self.slots.len() {
            self.slots[id]
        } else {
            None
        }
    }

    pub fn set_layout(&mut self, id: DrawableId, layout: Layout)
        ensures
            final(self)@ == old(self)@.with_layout(id, layout),
    {
        if id < self.slots.len() {
            match self.slots[id] {
                Some(d) => {
                    self.slots.set(id, Some(Drawable { layout, ..d }));
                },
                None => {},
            }
        }
    }

    pub fn set_ticket(&mut self, id: DrawableId, ticket: Option<Ticket>)
        ensures
            final(self)@ == old(self)@.with_ticket(id, ticket),
    {
        if id < self.slots.len() {
            match self.slots[id] {
                Some(d) => {
                    self.slots.set(id, Some(Drawable { last_render_ticket: ticket, ..d }));
                },
                None => {},
            }
        }
    }

    /// Notes that work under `ticket` refers to the drawable.
    pub fn touch_render_fence(&mut self, id: DrawableId, ticket: Ticket)
        ensures
            final(self)@ == old(self)@.with_ticket(id, Some(ticket)),
    {
        self.set_ticket(id, Some(ticket));
    }

    /// Notes that a part of the drawable was painted.
    pub fn damage(&mut self, id: DrawableId, rect: Rect)
        ensures
            final(self)@ == old(self)@.with_damage(id, rect),
    {
        if self.get(id).is_some() {
            self.damage.push((id, rect));
        }
    }

    /// Notes that work under `ticket` refers to each of the drawables.
    pub fn touch_all(&mut self, ids: &Vec<DrawableId>, ticket: Ticket)
        ensures
            final(self)@ == old(self)@.touched(ids@, ticket),
    {
        let ghost start = self@;
        let mut i: usize = 0;
        while i < ids.len()
            invariant
                i <= ids.len(),
                self@ == start.touched(ids@.take(i as int), ticket),
            decreases ids.len() - i,
        {
            proof {
                assert(ids@.take(i + 1).drop_last() == ids@.take(i as int));
            }
            self.touch_render_fence(ids[i], ticket);
            i = i + 1;
        }
        proof {
            assert(ids@.take(i as int) == ids@);
        }
    }

    /// Notes that parts of the drawable were painted.
    pub fn damage_all(&mut self, id: DrawableId, rects: &Vec<Rect>)
        ensures
            final(self)@ == old(self)@.damaged(id, rects@),
    {
        let ghost start = self@;
        let mut i: usize = 0;
        while i < rects.len()
            invariant
                i <= rects.len(),
                self@ == start.damaged(id, rects@.take(i as int)),
            decreases rects.len() - i,
        {
            proof {
                assert(rects@.take(i + 1).drop_last() == rects@.take(i as int));
            }
            self.damage(id, rects[i]);
            i = i + 1;
        }
        proof {
            assert(rects@.take(i as int) == rects@);
        }
    }
}

/// Touching drawables keeps everything of each drawable but its ticket, which
/// is the new one exactly for the touched drawables that exist.
pub proof fn touched_is_pointwise(st: StoreView, ids: Seq<DrawableId>, ticket: Ticket)
    ensures
        st.touched(ids, ticket).damage == st.damage,
        st.touched(ids, ticket).slots.len() == st.slots.len(),
        forall|id: DrawableId| #[trigger]
            st.touched(ids, ticket).get(id) == match st.get(id) {
                Some(d) => Some(
                    Drawable {
                        last_render_ticket: if ids.contains(id) {
                            Some(ticket)
                        } else {
                            d.last_render_ticket
                        },
                        ..d
                    },
                ),
                None => None,
            },
    decreases ids.len(),
{
    if ids.len() > 0 {
        let head = ids.drop_last();
        touched_is_pointwise(st, head, ticket);
        assert forall|id: DrawableId| ids.contains(id) <==> (head.contains(id) || id
            == ids.last()) by {
            if ids.contains(id) {
                let k = choose|k: int| 0 <= k < ids.len() && ids[k] == id;
                if k < head.len() {
                    assert(head[k] == id);
                }
            }
            if head.contains(id) {
                let k = choose|k: int| 0 <= k < head.len() && head[k] == id;
                assert(ids[k] == id);
            }
            if id == ids.last() {
                assert(ids[ids.len() - 1] == id);
            }
        }
        assert forall|id: DrawableId| #[trigger]
            st.touched(ids, ticket).get(id) == match st.get(id) {
                Some(d) => Some(
                    Drawable {
                        last_render_ticket: if ids.contains(id) {
                            Some(ticket)
                        } else {
                            d.last_render_ticket
                        },
                        ..d
                    },
                ),
                None => None,
            } by {
            assert(st.touched(head, ticket).get(id) == match st.get(id) {
                Some(d) => Some(
                    Drawable {
                        last_render_ticket: if head.contains(id) {
                            Some(ticket)
                        } else {
                            d.last_render_ticket
                        },
                        ..d
                    },
                ),
                None => None,
            });
            assert(ids.contains(id) <==> (head.contains(id) || id == ids.last()));
        }
    } else {
        assert forall|id: DrawableId| !ids.contains(id) by {}
    }
}

} // verus!
