//! What is remembered is found again: views of drawables, lookup tables of
//! gradients, and the places of glyphs.

use vstd::prelude::*;

use crate::close::{close_engine, record_error, CloseReply};
use crate::engine::{Asset, CloseReason, EngineView, ViewEntry};
use crate::error::DrawableId;
use crate::frame::{find_glyph, FrameView, GlyphInsert, GlyphKey};
use crate::glyphs::{begun, frame_uploading, NewUpload};
use crate::picture::{find_gradient, Gradient, SamplerConfig, SwizzleClass};
use crate::retire::{find_view, gradients_without, views_of, views_without};
use crate::store::StoreView;
use crate::submit::GroupView;

verus! {

/// Whether a cached view is that of a drawable under an address mode and a
/// swizzle.
pub open spec fn view_is(
    e: ViewEntry,
    id: DrawableId,
    sampler: SamplerConfig,
    swizzle: SwizzleClass,
) -> bool {
    e.id == id && e.sampler == sampler && e.swizzle == swizzle
}

/// A view is found exactly if one was cached for the same drawable under the
/// same address mode and the same swizzle.
pub proof fn found_view_was_cached(
    list: Seq<ViewEntry>,
    id: DrawableId,
    sampler: SamplerConfig,
    swizzle: SwizzleClass,
)
    ensures
        match find_view(list, id, sampler, swizzle) {
            Some(v) => exists|i: int|
                0 <= i < list.len() && view_is(#[trigger] list[i], id, sampler, swizzle)
                    && list[i].view == v,
            None => forall|i: int|
                0 <= i < list.len() ==> !view_is(#[trigger] list[i], id, sampler, swizzle),
        },
    decreases list.len(),
{
    if list.len() > 0 && !view_is(list[0], id, sampler, swizzle) {
        let rest = list.skip(1);
        found_view_was_cached(rest, id, sampler, swizzle);
        match find_view(rest, id, sampler, swizzle) {
            Some(v) => {
                let i = choose|i: int|
                    0 <= i < rest.len() && view_is(#[trigger] rest[i], id, sampler, swizzle)
                        && rest[i].view == v;
                assert(list[i + 1] == rest[i]);
            },
            None => {
                assert forall|i: int| 0 <= i < list.len() implies !view_is(
                    #[trigger] list[i],
                    id,
                    sampler,
                    swizzle,
                ) by {
                    if i > 0 {
                        assert(list[i] == rest[i - 1]);
                    }
                }
            },
        }
    }
}

/// A view that is cached is found under its own key from then on, and changes
/// nothing under any other.
pub proof fn cached_view_is_found(
    list: Seq<ViewEntry>,
    e: ViewEntry,
    id: DrawableId,
    sampler: SamplerConfig,
    swizzle: SwizzleClass,
)
    requires
        find_view(list, e.id, e.sampler, e.swizzle) is None,
    ensures
        find_view(list.push(e), id, sampler, swizzle) == if view_is(e, id, sampler, swizzle) {
            Some(e.view)
        } else {
            find_view(list, id, sampler, swizzle)
        },
    decreases list.len(),
{
    let all = list.push(e);
    if list.len() == 0 {
        assert(all.skip(1) =~= Seq::empty());
        reveal_with_fuel(find_view, 2);
    } else {
        assert(all.skip(1) =~= list.skip(1).push(e));
        cached_view_is_found(list.skip(1), e, id, sampler, swizzle);
    }
}

/// A drawable that is gone takes all its views with it, hands each of them out,
/// and leaves the views of other drawables.
pub proof fn retired_views_are_handed_out(
    list: Seq<ViewEntry>,
    id: DrawableId,
    e: ViewEntry,
)
    ensures
        views_without(list, id).contains(e) <==> list.contains(e) && e.id != id,
        list.contains(e) && e.id == id ==> views_of(list, id).contains(e.view),
        views_of(list, id).len() + views_without(list, id).len() == list.len(),
    decreases list.len(),
{
    reveal(Seq::filter);
    let keep = |e: ViewEntry| e.id != id;
    if list.len() > 0 {
        let head = list.drop_last();
        retired_views_are_handed_out(head, id, e);
        let l = list.last();
        assert(list.contains(e) <==> head.contains(e) || l == e) by {
            if head.contains(e) {
                let i = choose|i: int| 0 <= i < head.len() && head[i] == e;
                assert(list[i] == e);
            }
            if l == e {
                assert(list[list.len() - 1] == e);
            }
            if list.contains(e) {
                let i = choose|i: int| 0 <= i < list.len() && list[i] == e;
                if i < head.len() {
                    assert(head[i] == e);
                }
            }
        }
        let w = views_without(head, id);
        if l.id != id {
            assert(views_without(list, id) == w.push(l));
            assert(w.push(l).contains(e) <==> w.contains(e) || l == e) by {
                if w.contains(e) {
                    let i = choose|i: int| 0 <= i < w.len() && w[i] == e;
                    assert(w.push(l)[i] == e);
                }
                if l == e {
                    assert(w.push(l)[w.len() as int] == e);
                }
            }
        } else {
            let v = views_of(head, id);
            assert(v.push(l.view)[v.len() as int] == l.view);
            if v.contains(e.view) {
                let i = choose|i: int| 0 <= i < v.len() && v[i] == e.view;
                assert(v.push(l.view)[i] == e.view);
            }
        }
    }
}

proof fn find_gradient_without(list: Seq<Gradient>, gone: u32, xid: u32)
    ensures
        find_gradient(gradients_without(list, gone), xid) == if xid == gone {
            None
        } else {
            find_gradient(list, xid)
        },
    decreases list.len(),
{
    reveal(Seq::filter);
    if list.len() > 0 {
        let head = list.drop_last();
        find_gradient_without(head, gone, xid);
        if list.last().xid != gone {
            let w = gradients_without(head, gone);
            assert(gradients_without(list, gone) == w.push(list.last()));
            assert(w.push(list.last()).drop_last() =~= w);
        }
    }
}

/// The table of a gradient that was built is the one that its picture samples
/// from then on; the pictures of other gradients keep theirs. Once a picture is
/// gone, so is its table, and no other.
pub proof fn gradients_are_found(list: Seq<Gradient>, g: Gradient, gone: u32, xid: u32)
    ensures
        find_gradient(gradients_without(list, g.xid).push(g), xid) == if xid == g.xid {
            Some(g)
        } else {
            find_gradient(list, xid)
        },
        find_gradient(gradients_without(list, gone), xid) == if xid == gone {
            None
        } else {
            find_gradient(list, xid)
        },
{
    let kept = gradients_without(list, g.xid);
    find_gradient_without(list, g.xid, xid);
    find_gradient_without(list, gone, xid);
    assert(kept.push(g).drop_last() =~= kept);
}

proof fn find_glyph_concat(a: Seq<GlyphInsert>, b: Seq<GlyphInsert>, key: GlyphKey)
    ensures
        find_glyph(a + b, key) == match find_glyph(b, key) {
            Some(e) => Some(e),
            None => find_glyph(a, key),
        },
    decreases b.len(),
{
    if b.len() == 0 {
        assert(a + b =~= a);
    } else {
        assert((a + b).drop_last() =~= a + b.drop_last());
        find_glyph_concat(a, b.drop_last(), key);
    }
}

/// Whether closing a frame succeeds.
pub open spec fn close_succeeds(s: EngineView, st: StoreView, reply: CloseReply) -> bool {
    s.frame matches Some(f) && reply.begin is Ok && record_error(s, st, f, reply) is None
        && reply.submit is Ok
}

/// A frame that is submitted puts the glyphs that it uploaded into the atlas,
/// each at its place, keeps all others, and leaves the atlas as its uploads left
/// it, under its ticket. A frame that is not submitted leaves the atlas without
/// them, in the layout and under the ticket that it had before the frame.
pub proof fn atlas_follows_its_frames(
    s: EngineView,
    st: StoreView,
    g: GroupView,
    reason: CloseReason,
    reply: CloseReply,
    key: GlyphKey,
)
    requires
        s.has(Asset::GlyphAtlas),
        s.frame is Some,
    ensures
        ({
            let f = s.frame->0;
            let a = close_engine(s, st, g, reason, reply).atlas;
            &&& find_glyph(a.entries, key) == if close_succeeds(s, st, reply) && find_glyph(
                f.pending_glyph_inserts,
                key,
            ) is Some {
                find_glyph(f.pending_glyph_inserts, key)
            } else {
                find_glyph(s.atlas.entries, key)
            }
            &&& f.atlas_layout matches Some(o) ==> a.layout == if close_succeeds(s, st, reply) {
                o.cur
            } else {
                o.pre
            }
            &&& f.atlas_prev_ticket matches Some(t) ==> a.last_render_ticket == if close_succeeds(
                s,
                st,
                reply,
            ) {
                Some(f.ticket)
            } else {
                t
            }
            &&& a.last_upload_ticket == s.atlas.last_upload_ticket
        }),
{
    find_glyph_concat(s.atlas.entries, s.frame->0.pending_glyph_inserts, key);
}

/// A frame that begins to use the atlas remembers how it found it, once.
pub proof fn frames_remember_the_atlas(s: EngineView, st: StoreView, dst: DrawableId)
    requires
        s.frame is Some,
    ensures
        ({
            let f = s.frame->0;
            let after = begun(s, st, dst).frame->0;
            if f.atlas_prev_ticket is None {
                &&& after.atlas_prev_ticket == Some(s.atlas.last_render_ticket)
                &&& after.atlas_layout matches Some(o) && o.pre == s.atlas.layout && o.cur
                    == s.atlas.layout
            } else {
                after.atlas_prev_ticket == f.atlas_prev_ticket && after.atlas_layout
                    == f.atlas_layout
            }
        }),
{
}

/// A glyph that a run uploads into a frame is one that the atlas will hold at
/// its place once the frame is submitted.
pub proof fn uploads_are_remembered(f: FrameView, list: Seq<NewUpload>, n: int)
    requires
        0 <= n < list.len(),
        forall|i: int, j: int|
            0 <= i < j < list.len() ==> (#[trigger] list[i]).insert.key != (
            #[trigger] list[j]).insert.key,
    ensures
        find_glyph(frame_uploading(f, list).pending_glyph_inserts, list[n].insert.key) == Some(
            list[n].insert.entry,
        ),
    decreases list.len(),
{
    let head = list.drop_last();
    let before = frame_uploading(f, head).pending_glyph_inserts;
    let after = frame_uploading(f, list).pending_glyph_inserts;
    assert(after.drop_last() =~= before);
    assert(after.last() == list.last().insert);
    if n < head.len() {
        assert forall|i: int, j: int| 0 <= i < j < head.len() implies (
        #[trigger] head[i]).insert.key != (#[trigger] head[j]).insert.key by {
            assert(head[i] == list[i] && head[j] == list[j]);
        }
        uploads_are_remembered(f, head, n);
        assert(list[n].insert.key != list[list.len() - 1].insert.key);
    }
}

} // verus!
