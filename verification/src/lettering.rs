//! Text shows the pixels of its glyphs where they were asked for, in the
//! foreground that was asked for.

use vstd::prelude::*;

use crate::command::{glyph_quads, text_commands, Color, Command, GlyphDraw, Rgba8};
use crate::compositing::{clips_over, passes};
use crate::device::{
    device_run, device_run_concat, device_run_one, device_step, draws_stay_on_target, glyph_covers,
    is_draw, knows, one_bits, pixel_after, same_but, text_texel, Device, Shading,
};
use crate::engine::EngineView;
use crate::frame::{find_glyph, AtlasEntry};
use crate::geometry::{clipped16, clipped_list, scissors_of, Extent, Rect, Rectangle16};
use crate::store::{Drawable, Layout};
use crate::submit::GroupView;
use crate::text::{glyph_outcome, GlyphImage, GlyphReply, RunView, UploadReply};

verus! {

/// What becomes of a pixel under one glyph: the foreground, as far as the atlas
/// says at the same distance from the glyph's place as the pixel from where it
/// is drawn.
pub open spec fn glyph_touch(
    sh: Shading,
    atlas: spec_fn(int, int) -> u8,
    foreground: Color,
    g: GlyphDraw,
    x: int,
    y: int,
    old: Rgba8,
) -> Rgba8 {
    text_texel(
        sh,
        foreground,
        atlas(g.atlas_x + (x - g.dst_x), g.atlas_y + (y - g.dst_y)),
        old,
    )
}

/// A pixel after every glyph that covers it, in order.
pub open spec fn over_glyphs(
    sh: Shading,
    atlas: spec_fn(int, int) -> u8,
    foreground: Color,
    glyphs: Seq<GlyphDraw>,
    x: int,
    y: int,
    old: Rgba8,
) -> Rgba8
    decreases glyphs.len(),
{
    if glyphs.len() == 0 {
        old
    } else {
        let before = over_glyphs(sh, atlas, foreground, glyphs.drop_last(), x, y, old);
        if glyph_covers(glyphs.last(), x, y) {
            glyph_touch(sh, atlas, foreground, glyphs.last(), x, y, before)
        } else {
            before
        }
    }
}

/// A pixel after a run, once for each clip rectangle that covers it.
pub open spec fn text_over_clip_list(
    sh: Shading,
    atlas: spec_fn(int, int) -> u8,
    foreground: Color,
    glyphs: Seq<GlyphDraw>,
    clip: Seq<Rectangle16>,
    x: int,
    y: int,
    old: Rgba8,
) -> Rgba8
    decreases clip.len(),
{
    if clip.len() == 0 {
        old
    } else {
        let before = text_over_clip_list(
            sh,
            atlas,
            foreground,
            glyphs,
            clip.drop_last(),
            x,
            y,
            old,
        );
        if clip.last().covers(x, y) {
            over_glyphs(sh, atlas, foreground, glyphs, x, y, before)
        } else {
            before
        }
    }
}

/// A pixel after a run under a clip; without a clip it shows everywhere.
pub open spec fn text_over_clip(
    sh: Shading,
    atlas: spec_fn(int, int) -> u8,
    foreground: Color,
    glyphs: Seq<GlyphDraw>,
    clip: Option<Vec<Rectangle16>>,
    x: int,
    y: int,
    old: Rgba8,
) -> Rgba8 {
    match clip {
        None => over_glyphs(sh, atlas, foreground, glyphs, x, y, old),
        Some(list) => text_over_clip_list(sh, atlas, foreground, glyphs, list@, x, y, old),
    }
}

spec fn text_over_scissors(
    sh: Shading,
    atlas: spec_fn(int, int) -> u8,
    foreground: Color,
    glyphs: Seq<GlyphDraw>,
    scissors: Seq<Rect>,
    x: int,
    y: int,
    old: Rgba8,
) -> Rgba8
    decreases scissors.len(),
{
    if scissors.len() == 0 {
        old
    } else {
        let before = text_over_scissors(
            sh,
            atlas,
            foreground,
            glyphs,
            scissors.drop_last(),
            x,
            y,
            old,
        );
        if scissors.last().covers(x, y) {
            over_glyphs(sh, atlas, foreground, glyphs, x, y, before)
        } else {
            before
        }
    }
}

proof fn text_scissors_are_clip_list(
    sh: Shading,
    atlas: spec_fn(int, int) -> u8,
    foreground: Color,
    glyphs: Seq<GlyphDraw>,
    clip: Seq<Rectangle16>,
    extent: Extent,
    x: int,
    y: int,
    old: Rgba8,
)
    requires
        extent.covers(x, y),
    ensures
        text_over_scissors(
            sh,
            atlas,
            foreground,
            glyphs,
            clipped_list(clip, extent),
            x,
            y,
            old,
        ) == text_over_clip_list(sh, atlas, foreground, glyphs, clip, x, y, old),
    decreases clip.len(),
{
    if clip.len() > 0 {
        let head = clip.drop_last();
        text_scissors_are_clip_list(sh, atlas, foreground, glyphs, head, extent, x, y, old);
        match clipped16(clip.last(), extent) {
            None => {},
            Some(c) => {
                let list = clipped_list(clip, extent);
                assert(list.drop_last() =~= clipped_list(head, extent));
                assert(c.covers(x, y) <==> clip.last().covers(x, y));
            },
        }
    }
}

proof fn text_scissors_are_clip(
    sh: Shading,
    atlas: spec_fn(int, int) -> u8,
    foreground: Color,
    glyphs: Seq<GlyphDraw>,
    clip: Option<Vec<Rectangle16>>,
    extent: Extent,
    x: int,
    y: int,
    old: Rgba8,
)
    requires
        extent.covers(x, y),
    ensures
        text_over_scissors(
            sh,
            atlas,
            foreground,
            glyphs,
            scissors_of(clip, extent),
            x,
            y,
            old,
        ) == text_over_clip(sh, atlas, foreground, glyphs, clip, x, y, old),
{
    match clip {
        None => {
            let all = seq![Rect::spec_full(extent)];
            reveal_with_fuel(text_over_scissors, 2);
            assert(all.drop_last() =~= Seq::empty());
            assert(all.last() == Rect::spec_full(extent));
        },
        Some(list) => {
            text_scissors_are_clip_list(
                sh,
                atlas,
                foreground,
                glyphs,
                list@,
                extent,
                x,
                y,
                old,
            );
        },
    }
}

/// The quads of all glyphs under one scissor.
spec fn quad_row(glyphs: Seq<GlyphDraw>, scissor: Rect) -> Seq<Command> {
    glyphs.map_values(|glyph: GlyphDraw| Command::GlyphQuad { glyph, scissor })
}

proof fn quads_end_with_row(glyphs: Seq<GlyphDraw>, scissors: Seq<Rect>)
    requires
        scissors.len() > 0,
    ensures
        glyph_quads(glyphs, scissors) == glyph_quads(glyphs, scissors.drop_last()) + quad_row(
            glyphs,
            scissors.last(),
        ),
{
    let n = glyphs.len() as int;
    let m = scissors.len() - 1;
    let all = glyph_quads(glyphs, scissors);
    let head = glyph_quads(glyphs, scissors.drop_last());
    let row = quad_row(glyphs, scissors.last());
    assert(n * (m + 1) == n * m + n && 0 <= n * m) by (nonlinear_arith)
        requires
            0 <= n,
            0 <= m,
    ;
    assert(head.len() == n * m);
    assert(all.len() == head.len() + row.len());
    assert forall|i: int| 0 <= i < all.len() implies all[i] == (head + row)[i] by {
        if i < n * m {
            vstd::arithmetic::div_mod::lemma_fundamental_div_mod(i, n);
            assert(0 <= i / n < m) by (nonlinear_arith)
                requires
                    0 <= i < n * m,
                    i == n * (i / n) + i % n,
                    0 <= i % n < n,
            ;
            assert(scissors.drop_last()[i / n] == scissors[i / n]);
        } else {
            let off = i - n * m;
            vstd::arithmetic::mul::lemma_mul_is_commutative(n, m);
            vstd::arithmetic::div_mod::lemma_fundamental_div_mod_converse(i, n, m, off);
            assert(scissors[m] == scissors.last());
        }
    }
    assert(all =~= head + row);
}

proof fn quad_row_runs(
    sh: Shading,
    dev: Device,
    glyphs: Seq<GlyphDraw>,
    scissor: Rect,
    x: int,
    y: int,
)
    requires
        dev.area.covers(x, y),
    ensures
        ({
            let end = device_run(sh, dev, quad_row(glyphs, scissor));
            let old = (dev.images[dev.attached])(x, y);
            &&& same_but(end, dev, dev.attached)
            &&& (end.images[dev.attached])(x, y) == if scissor.covers(x, y) {
                over_glyphs(sh, dev.atlas, dev.foreground->0, glyphs, x, y, old)
            } else {
                old
            }
        }),
    decreases glyphs.len(),
{
    let cmds = quad_row(glyphs, scissor);
    assert forall|i: int| 0 <= i < cmds.len() implies is_draw(#[trigger] cmds[i]) by {}
    draws_stay_on_target(sh, dev, cmds);
    if glyphs.len() > 0 {
        let head = glyphs.drop_last();
        assert(cmds.drop_last() =~= quad_row(head, scissor));
        assert(cmds.last() == Command::GlyphQuad { glyph: glyphs.last(), scissor });
        quad_row_runs(sh, dev, head, scissor, x, y);
    }
}

proof fn quads_run(
    sh: Shading,
    dev: Device,
    glyphs: Seq<GlyphDraw>,
    scissors: Seq<Rect>,
    x: int,
    y: int,
)
    requires
        dev.area.covers(x, y),
    ensures
        ({
            let end = device_run(sh, dev, glyph_quads(glyphs, scissors));
            &&& same_but(end, dev, dev.attached)
            &&& (end.images[dev.attached])(x, y) == text_over_scissors(
                sh,
                dev.atlas,
                dev.foreground->0,
                glyphs,
                scissors,
                x,
                y,
                (dev.images[dev.attached])(x, y),
            )
        }),
    decreases scissors.len(),
{
    if scissors.len() == 0 {
        assert(glyphs.len() * scissors.len() == 0);
        assert(glyph_quads(glyphs, scissors) =~= Seq::empty());
    } else {
        let head = scissors.drop_last();
        let hcmds = glyph_quads(glyphs, head);
        quads_end_with_row(glyphs, scissors);
        quads_run(sh, dev, glyphs, head, x, y);
        let mid = device_run(sh, dev, hcmds);
        device_run_concat(sh, dev, hcmds, quad_row(glyphs, scissors.last()));
        quad_row_runs(sh, mid, glyphs, scissors.last(), x, y);
    }
}

/// Whether commands draw a run onto a drawable in a foreground under a clip,
/// and change no other image.
pub open spec fn letters(
    cmds: Seq<Command>,
    d: Drawable,
    foreground: Color,
    glyphs: Seq<GlyphDraw>,
    clip: Option<Vec<Rectangle16>>,
) -> bool {
    forall|sh: Shading, dev: Device, image: u64, x: int, y: int|
        knows(dev, d) && d.extent.covers(x, y) ==> #[trigger] pixel_after(
            sh,
            dev,
            cmds,
            image,
            x,
            y,
        ) == if image == d.image {
            text_over_clip(
                sh,
                dev.atlas,
                foreground,
                glyphs,
                clip,
                x,
                y,
                (dev.images[image])(x, y),
            )
        } else {
            (dev.images[image])(x, y)
        }
}

/// A text run draws each of its glyphs from its place in the atlas, in the
/// foreground that was asked for, under the clip.
pub proof fn text_draws_its_glyphs(
    d: Drawable,
    layout: Layout,
    foreground: Color,
    glyphs: Seq<GlyphDraw>,
    clip: Option<Vec<Rectangle16>>,
)
    ensures
        letters(
            text_commands(
                d.image,
                d.view,
                d.extent,
                layout,
                foreground,
                glyphs,
                scissors_of(clip, d.extent),
            ),
            d,
            foreground,
            glyphs,
            clip,
        ),
{
    let scissors = scissors_of(clip, d.extent);
    let cmds = text_commands(d.image, d.view, d.extent, layout, foreground, glyphs, scissors);
    assert forall|sh: Shading, dev: Device, image: u64, x: int, y: int|
        knows(dev, d) && d.extent.covers(x, y) implies #[trigger] pixel_after(
        sh,
        dev,
        cmds,
        image,
        x,
        y,
    ) == if image == d.image {
        text_over_clip(
            sh,
            dev.atlas,
            foreground,
            glyphs,
            clip,
            x,
            y,
            (dev.images[image])(x, y),
        )
    } else {
        (dev.images[image])(x, y)
    } by {
        let open = cmds[0];
        let quads = glyph_quads(glyphs, scissors);
        let close = Command::CloseText { image: d.image };
        assert(cmds =~= seq![open] + quads + seq![close]);
        device_run_one(sh, dev, open);
        let on = device_step(sh, dev, open);
        device_run_concat(sh, dev, seq![open], quads);
        quads_run(sh, on, glyphs, scissors, x, y);
        device_run_concat(sh, dev, seq![open] + quads, seq![close]);
        device_run_one(sh, device_run(sh, on, quads), close);
        text_scissors_are_clip(
            sh,
            dev.atlas,
            foreground,
            glyphs,
            clip,
            d.extent,
            x,
            y,
            (dev.images[d.image])(x, y),
        );
    }
}

/// Whether exactly one glyph of a run covers a pixel, namely the `n`th.
pub open spec fn only_glyph(glyphs: Seq<GlyphDraw>, n: int, x: int, y: int) -> bool {
    &&& 0 <= n < glyphs.len()
    &&& forall|i: int|
        0 <= i < glyphs.len() ==> glyph_covers(#[trigger] glyphs[i], x, y) == (i == n)
}

proof fn no_glyph_keeps(
    sh: Shading,
    atlas: spec_fn(int, int) -> u8,
    foreground: Color,
    glyphs: Seq<GlyphDraw>,
    x: int,
    y: int,
    old: Rgba8,
)
    requires
        forall|i: int| 0 <= i < glyphs.len() ==> !glyph_covers(#[trigger] glyphs[i], x, y),
    ensures
        over_glyphs(sh, atlas, foreground, glyphs, x, y, old) == old,
    decreases glyphs.len(),
{
    if glyphs.len() > 0 {
        let head = glyphs.drop_last();
        assert forall|i: int| 0 <= i < head.len() implies !glyph_covers(
            #[trigger] head[i],
            x,
            y,
        ) by {
            assert(head[i] == glyphs[i]);
        }
        no_glyph_keeps(sh, atlas, foreground, head, x, y, old);
        assert(!glyph_covers(glyphs[glyphs.len() - 1], x, y));
    }
}

proof fn only_glyph_touches_once(
    sh: Shading,
    atlas: spec_fn(int, int) -> u8,
    foreground: Color,
    glyphs: Seq<GlyphDraw>,
    n: int,
    x: int,
    y: int,
    old: Rgba8,
)
    requires
        only_glyph(glyphs, n, x, y),
    ensures
        over_glyphs(sh, atlas, foreground, glyphs, x, y, old) == glyph_touch(
            sh,
            atlas,
            foreground,
            glyphs[n],
            x,
            y,
            old,
        ),
    decreases glyphs.len(),
{
    let head = glyphs.drop_last();
    assert(glyph_covers(glyphs[glyphs.len() - 1], x, y) == (glyphs.len() - 1 == n));
    assert forall|i: int| 0 <= i < head.len() implies glyph_covers(#[trigger] head[i], x, y) == (i
        == n) by {
        assert(head[i] == glyphs[i]);
    }
    if n == glyphs.len() - 1 {
        no_glyph_keeps(sh, atlas, foreground, head, x, y, old);
    } else {
        only_glyph_touches_once(sh, atlas, foreground, head, n, x, y, old);
    }
}

proof fn text_clip_passes(
    sh: Shading,
    atlas: spec_fn(int, int) -> u8,
    foreground: Color,
    glyphs: Seq<GlyphDraw>,
    clip: Seq<Rectangle16>,
    x: int,
    y: int,
    old: Rgba8,
)
    ensures
        clips_over(clip, x, y) == 0 ==> text_over_clip_list(
            sh,
            atlas,
            foreground,
            glyphs,
            clip,
            x,
            y,
            old,
        ) == old,
        clips_over(clip, x, y) == 1 ==> text_over_clip_list(
            sh,
            atlas,
            foreground,
            glyphs,
            clip,
            x,
            y,
            old,
        ) == over_glyphs(sh, atlas, foreground, glyphs, x, y, old),
    decreases clip.len(),
{
    if clip.len() > 0 {
        text_clip_passes(sh, atlas, foreground, glyphs, clip.drop_last(), x, y, old);
    }
}

/// Whether the atlas holds the pixels of a glyph at a place.
pub open spec fn holds(
    atlas: spec_fn(int, int) -> u8,
    atlas_x: u32,
    atlas_y: u32,
    w: u32,
    h: u32,
    pixels: Seq<u8>,
) -> bool {
    forall|i: int, j: int|
        0 <= i < w && 0 <= j < h ==> #[trigger] atlas(atlas_x + i, atlas_y + j) == pixels[j * w + i]
}

/// Where one glyph of a run and one clip rectangle cover a pixel, and the atlas
/// holds the glyph, the pixel becomes what the foreground makes of the glyph's
/// own pixel there. What the glyph covers fully, under an opaque foreground,
/// holds exactly the foreground, channel by channel, and what it does not cover
/// stays.
pub proof fn covered_pixel_shows_its_glyph(
    sh: Shading,
    dev: Device,
    d: Drawable,
    layout: Layout,
    foreground: Color,
    glyphs: Seq<GlyphDraw>,
    clip: Option<Vec<Rectangle16>>,
    n: int,
    pixels: Seq<u8>,
    x: int,
    y: int,
)
    requires
        knows(dev, d),
        d.extent.covers(x, y),
        passes(clip, x, y) == 1,
        only_glyph(glyphs, n, x, y),
        holds(
            dev.atlas,
            glyphs[n].atlas_x,
            glyphs[n].atlas_y,
            glyphs[n].w,
            glyphs[n].h,
            pixels,
        ),
    ensures
        ({
            let g = glyphs[n];
            let coverage = pixels[(y - g.dst_y) * g.w + (x - g.dst_x)];
            let old = (dev.images[d.image])(x, y);
            let new = pixel_after(
                sh,
                dev,
                text_commands(
                    d.image,
                    d.view,
                    d.extent,
                    layout,
                    foreground,
                    glyphs,
                    scissors_of(clip, d.extent),
                ),
                d.image,
                x,
                y,
            );
            &&& new == text_texel(sh, foreground, coverage, old)
            &&& coverage == 0 ==> new == old
            &&& coverage == 255 && foreground.a == one_bits() ==> new == (Rgba8 {
                r: (sh.unit)(foreground.r),
                g: (sh.unit)(foreground.g),
                b: (sh.unit)(foreground.b),
                a: (sh.unit)(foreground.a),
            })
        }),
{
    let g = glyphs[n];
    let old = (dev.images[d.image])(x, y);
    text_draws_its_glyphs(d, layout, foreground, glyphs, clip);
    only_glyph_touches_once(sh, dev.atlas, foreground, glyphs, n, x, y, old);
    if let Some(list) = clip {
        text_clip_passes(sh, dev.atlas, foreground, glyphs, list@, x, y, old);
    }
    assert(glyph_covers(glyphs[n], x, y));
    let i = x - g.dst_x;
    let j = y - g.dst_y;
    assert((dev.atlas)(g.atlas_x + i, g.atlas_y + j) == pixels[j * g.w + i]);
}

/// Where no clip rectangle, or no glyph, covers a pixel, it stays.
pub proof fn uncovered_pixel_keeps(
    sh: Shading,
    dev: Device,
    d: Drawable,
    layout: Layout,
    foreground: Color,
    glyphs: Seq<GlyphDraw>,
    clip: Option<Vec<Rectangle16>>,
    x: int,
    y: int,
)
    requires
        knows(dev, d),
        d.extent.covers(x, y),
        passes(clip, x, y) == 0 || (passes(clip, x, y) == 1 && forall|i: int|
            0 <= i < glyphs.len() ==> !glyph_covers(#[trigger] glyphs[i], x, y)),
    ensures
        pixel_after(
            sh,
            dev,
            text_commands(
                d.image,
                d.view,
                d.extent,
                layout,
                foreground,
                glyphs,
                scissors_of(clip, d.extent),
            ),
            d.image,
            x,
            y,
        ) == (dev.images[d.image])(x, y),
{
    let old = (dev.images[d.image])(x, y);
    text_draws_its_glyphs(d, layout, foreground, glyphs, clip);
    if passes(clip, x, y) == 1 {
        no_glyph_keeps(sh, dev.atlas, foreground, glyphs, x, y, old);
    }
    if let Some(list) = clip {
        text_clip_passes(sh, dev.atlas, foreground, glyphs, list@, x, y, old);
    }
}

/// The command that uploads a glyph to its place.
pub open spec fn upload_command(buffer: u64, e: AtlasEntry) -> Command {
    Command::UploadGlyph { buffer, atlas_x: e.atlas_x, atlas_y: e.atlas_y, w: e.w, h: e.h }
}

/// An upload puts the pixels of a glyph at its place in the atlas, and spares
/// every glyph that lies elsewhere.
pub proof fn upload_puts_glyph_in_atlas(
    sh: Shading,
    dev: Device,
    buffer: u64,
    e: AtlasEntry,
    pixels: Seq<u8>,
    other: AtlasEntry,
    others: Seq<u8>,
)
    requires
        forall|i: int| 0 <= i < e.w * e.h ==> #[trigger] dev.buffers[buffer][i] == pixels[i],
        other.atlas_x + other.w <= e.atlas_x || e.atlas_x + e.w <= other.atlas_x || other.atlas_y
            + other.h <= e.atlas_y || e.atlas_y + e.h <= other.atlas_y,
        holds(dev.atlas, other.atlas_x, other.atlas_y, other.w, other.h, others),
    ensures
        ({
            let end = device_run(sh, dev, seq![upload_command(buffer, e)]);
            &&& holds(end.atlas, e.atlas_x, e.atlas_y, e.w, e.h, pixels)
            &&& holds(end.atlas, other.atlas_x, other.atlas_y, other.w, other.h, others)
            &&& end.images == dev.images
        }),
{
    device_run_one(sh, dev, upload_command(buffer, e));
    let end = device_run(sh, dev, seq![upload_command(buffer, e)]);
    assert forall|i: int, j: int| 0 <= i < e.w && 0 <= j < e.h implies #[trigger] (end.atlas)(
        e.atlas_x + i,
        e.atlas_y + j,
    ) == pixels[j * e.w + i] by {
        assert(0 <= j * e.w + i < e.w * e.h) by (nonlinear_arith)
            requires
                0 <= i < e.w,
                0 <= j,
                j + 1 <= e.h,
        ;
        assert(dev.buffers[buffer][j * e.w + i] == pixels[j * e.w + i]);
    }
    assert forall|i: int, j: int| 0 <= i < other.w && 0 <= j < other.h implies #[trigger] (
    end.atlas)(other.atlas_x + i, other.atlas_y + j) == others[j * other.w + i] by {
        assert((dev.atlas)(other.atlas_x + i, other.atlas_y + j) == others[j * other.w + i]);
    }
}

/// Whether a run draws a glyph last, where and as large as it was asked to, from
/// a place.
pub open spec fn draws_last(
    before: RunView,
    after: RunView,
    glyph: &GlyphImage,
    atlas_x: u32,
    atlas_y: u32,
) -> bool {
    after.draws == before.draws.push(
        GlyphDraw {
            atlas_x,
            atlas_y,
            w: glyph.w,
            h: glyph.h,
            dst_x: glyph.dst_x,
            dst_y: glyph.dst_y,
        },
    )
}

/// A glyph outside a frame that gets a place and whose upload succeeds is drawn
/// from that place, where it was asked for, and the atlas remembers it there.
pub proof fn uploaded_glyph_is_drawn(
    s: EngineView,
    g: GroupView,
    run: RunView,
    glyph: &GlyphImage,
    atlas_x: u32,
    atlas_y: u32,
    upload: UploadReply,
)
    requires
        find_glyph(s.atlas.entries, glyph.key) is None,
        !glyph.spec_is_empty(),
        glyph.spec_complete(),
        upload matches UploadReply::Staged { cb: Ok(_), end: Ok(_), .. },
    ensures
        ({
            let o = glyph_outcome(s, g, run, glyph, GlyphReply::Packed { atlas_x, atlas_y, upload });
            &&& draws_last(run, o.run, glyph, atlas_x, atlas_y)
            &&& find_glyph(o.engine.atlas.entries, glyph.key) == Some(
                AtlasEntry { atlas_x, atlas_y, w: glyph.w, h: glyph.h },
            )
        }),
{
}

/// A glyph that the atlas holds is drawn from where it lies, where it was asked
/// for, whatever the device answers.
pub proof fn known_glyph_is_drawn(
    s: EngineView,
    g: GroupView,
    run: RunView,
    glyph: &GlyphImage,
    reply: GlyphReply,
)
    requires
        find_glyph(s.atlas.entries, glyph.key) matches Some(e) && e.w == glyph.w && e.h == glyph.h,
        !glyph.spec_is_empty(),
    ensures
        ({
            let e = find_glyph(s.atlas.entries, glyph.key)->0;
            let o = glyph_outcome(s, g, run, glyph, reply);
            &&& draws_last(run, o.run, glyph, e.atlas_x, e.atlas_y)
            &&& o.engine == s
        }),
{
}

} // verus!
