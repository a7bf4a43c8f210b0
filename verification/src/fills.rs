//! Fills change exactly the pixels that they were asked to, to exactly the
//! colour or through exactly the raster operation that was asked for.

use vstd::prelude::*;

use crate::command::{Color, Command, GcFunction, Rgba8};
use crate::device::{
    device_run, device_run_concat, device_run_two, knows, pixel_after, raster, raster_texel,
    rendering, stored, Device, Shading,
};
use crate::engine::EngineView;
use crate::error::DrawableId;
use crate::geometry::{
    clamped_nonempty, clipped16, clipped_list, scissors_cover_clip, Extent, Rect, Rectangle16,
};
use crate::paint::{
    attach, clears, detach, fill_commands, fill_decision, fill_pixel, logic_draws,
    logic_fill_commands, logic_fill_decision, Decision,
};
use crate::pixel::pixel_channels;
use crate::refuse::fill_damage_is_exact;
use crate::store::{Drawable, Format, StoreView};
use crate::submit::GroupView;
use crate::wire::bit_set;

verus! {

/// Whether some rectangle covers a pixel.
pub open spec fn some_covers(rects: Seq<Rect>, x: int, y: int) -> bool {
    exists|j: int| 0 <= j < rects.len() && (#[trigger] rects[j]).covers(x, y)
}

/// Whether commands fill rectangles of a drawable with a colour, and change no
/// other pixel of any image.
pub open spec fn fills(cmds: Seq<Command>, d: Drawable, color: Color, rects: Seq<Rect>) -> bool {
    forall|sh: Shading, dev: Device, image: u64, x: int, y: int|
        knows(dev, d) && d.extent.covers(x, y) ==> #[trigger] pixel_after(sh, dev, cmds, image, x, y) == if image
            == d.image && some_covers(rects, x, y) {
            stored(sh, color)
        } else {
            (dev.images[image])(x, y)
        }
}

/// Rendering to a drawable attaches it, runs the draws, and changes nothing
/// else.
pub proof fn rendering_runs(sh: Shading, dev: Device, d: Drawable, inner: Seq<Command>)
    ensures
        device_run(sh, dev, attach(d) + inner + detach(d)) == device_run(
            sh,
            rendering(dev, d.view, d.extent),
            inner,
        ),
{
    let on = rendering(dev, d.view, d.extent);
    device_run_two(sh, dev, attach(d));
    device_run_concat(sh, dev, attach(d), inner);
    device_run_two(sh, device_run(sh, on, inner), detach(d));
    device_run_concat(sh, dev, attach(d) + inner, detach(d));
}

proof fn clears_run(sh: Shading, dev: Device, color: Color, rects: Seq<Rect>, x: int, y: int)
    requires
        dev.area.covers(x, y),
    ensures
        ({
            let end = device_run(sh, dev, clears(color, rects));
            &&& (end.images[dev.attached])(x, y) == if some_covers(rects, x, y) {
                stored(sh, color)
            } else {
                (dev.images[dev.attached])(x, y)
            }
            &&& end.attached == dev.attached
            &&& end.area == dev.area
            &&& end.formats == dev.formats
            &&& forall|i: u64| i != dev.attached ==> #[trigger] end.images[i] == dev.images[i]
        }),
    decreases rects.len(),
{
    if rects.len() > 0 {
        let head = rects.drop_last();
        let cmds = clears(color, rects);
        assert(cmds.drop_last() =~= clears(color, head));
        assert(cmds.last() == Command::ClearRect { color, rect: rects.last() });
        clears_run(sh, dev, color, head, x, y);
        if some_covers(rects, x, y) {
            let j = choose|j: int| 0 <= j < rects.len() && (#[trigger] rects[j]).covers(x, y);
            if j < head.len() {
                assert(head[j].covers(x, y));
            }
        }
        if some_covers(head, x, y) {
            let j = choose|j: int| 0 <= j < head.len() && (#[trigger] head[j]).covers(x, y);
            assert(rects[j].covers(x, y));
        }
        if rects.last().covers(x, y) {
            assert(rects[rects.len() - 1].covers(x, y));
        }
    }
}

/// Clipping a list of rectangles keeps the pixels of the image that some
/// rectangle covers.
pub proof fn clamping_keeps_cover(rects: Seq<Rect>, extent: Extent, x: int, y: int)
    requires
        extent.covers(x, y),
    ensures
        some_covers(clamped_nonempty(rects, extent), x, y) == some_covers(rects, x, y),
{
    fill_damage_is_exact(rects, extent, x, y);
}

/// A fill gives every pixel of its target that one of its rectangles covers
/// the colour that was asked for, and changes no other pixel.
pub proof fn fill_colours_its_rectangles(d: Drawable, color: Color, rects: Seq<Rect>)
    ensures
        fills(fill_commands(d, color, clamped_nonempty(rects, d.extent)), d, color, rects),
{
    let visible = clamped_nonempty(rects, d.extent);
    let cmds = fill_commands(d, color, visible);
    assert forall|sh: Shading, dev: Device, image: u64, x: int, y: int|
        knows(dev, d) && d.extent.covers(x, y) implies #[trigger] pixel_after(sh, dev, cmds, image, x, y) == if image
        == d.image && some_covers(rects, x, y) {
        stored(sh, color)
    } else {
        (dev.images[image])(x, y)
    } by {
        rendering_runs(sh, dev, d, clears(color, visible));
        clears_run(sh, rendering(dev, d.view, d.extent), color, visible, x, y);
        clamping_keeps_cover(rects, d.extent, x, y);
    }
}

/// The fill pixel that a client asks for: the bytes of `fg`, blue first; one
/// channel images take the lowest.
pub open spec fn asked_pixel(format: Format, fg: u32) -> Rgba8 {
    Rgba8 {
        r: if format == Format::R8Unorm {
            (fg % 256) as u8
        } else {
            (fg / 65536 % 256) as u8
        },
        g: (fg / 256 % 256) as u8,
        b: (fg % 256) as u8,
        a: (fg / 16777216) as u8,
    }
}

/// A pixel after a raster operation was applied once for each rectangle that
/// covers it.
pub open spec fn rastered(
    function: GcFunction,
    opaque_alpha: bool,
    s: Rgba8,
    rects: Seq<Rectangle16>,
    x: int,
    y: int,
    old: Rgba8,
) -> Rgba8
    decreases rects.len(),
{
    if rects.len() == 0 {
        old
    } else {
        let before = rastered(function, opaque_alpha, s, rects.drop_last(), x, y, old);
        if rects.last().covers(x, y) {
            raster_texel(function, opaque_alpha, s, before)
        } else {
            before
        }
    }
}

/// Whether two pixels of an image are the same: one channel images have only
/// red.
pub open spec fn same_texel(format: Format, a: Rgba8, b: Rgba8) -> bool {
    if format == Format::R8Unorm {
        a.r == b.r
    } else {
        a == b
    }
}

/// Whether commands fill rectangles of a drawable through a raster operation,
/// and change no other pixel of any image.
pub open spec fn raster_fills(
    cmds: Seq<Command>,
    d: Drawable,
    function: GcFunction,
    opaque_alpha: bool,
    fg: u32,
    rects: Seq<Rectangle16>,
) -> bool {
    forall|sh: Shading, dev: Device, image: u64, x: int, y: int|
        knows(dev, d) && d.extent.covers(x, y) ==> {
            let after = #[trigger] pixel_after(sh, dev, cmds, image, x, y);
            let before = (dev.images[image])(x, y);
            if image == d.image {
                same_texel(
                    d.format,
                    after,
                    rastered(
                        function,
                        opaque_alpha,
                        asked_pixel(d.format, fg),
                        rects,
                        x,
                        y,
                        before,
                    ),
                )
            } else {
                after == before
            }
        }
}

proof fn channels_are_bytes(fg: u32)
    ensures
        pixel_channels(fg).r == (fg / 65536 % 256) as u8,
        pixel_channels(fg).g == (fg / 256 % 256) as u8,
        pixel_channels(fg).b == (fg % 256) as u8,
        pixel_channels(fg).a == (fg / 16777216) as u8,
        (fg & 0xFF) as u8 == (fg % 256) as u8,
{
    assert((fg >> 16) & 0xff == fg / 65536 % 256 && (fg >> 8) & 0xff == fg / 256 % 256 && fg & 0xff
        == fg % 256 && (fg >> 24) & 0xff == fg / 16777216) by (bit_vector);
}

proof fn logic_draws_run(
    sh: Shading,
    dev: Device,
    d: Drawable,
    function: GcFunction,
    opaque_alpha: bool,
    fg: u32,
    rects: Seq<Rectangle16>,
    x: int,
    y: int,
)
    requires
        d.extent.covers(x, y),
        dev.attached == d.image,
        dev.area == d.extent,
        dev.formats[d.image] == d.format,
    ensures
        ({
            let end = device_run(
                sh,
                dev,
                logic_draws(
                    d.format,
                    function,
                    opaque_alpha,
                    fill_pixel(d.format, opaque_alpha, fg),
                    clipped_list(rects, d.extent),
                ),
            );
            &&& same_texel(
                d.format,
                (end.images[dev.attached])(x, y),
                rastered(
                    function,
                    opaque_alpha,
                    asked_pixel(d.format, fg),
                    rects,
                    x,
                    y,
                    (dev.images[dev.attached])(x, y),
                ),
            )
            &&& end.attached == dev.attached
            &&& end.area == dev.area
            &&& end.formats == dev.formats
            &&& forall|i: u64| i != dev.attached ==> #[trigger] end.images[i] == dev.images[i]
        }),
    decreases rects.len(),
{
    let pixel = fill_pixel(d.format, opaque_alpha, fg);
    let list = clipped_list(rects, d.extent);
    if rects.len() > 0 {
        let head = rects.drop_last();
        let hlist = clipped_list(head, d.extent);
        logic_draws_run(sh, dev, d, function, opaque_alpha, fg, head, x, y);
        channels_are_bytes(fg);
        match clipped16(rects.last(), d.extent) {
            None => {},
            Some(c) => {
                let cmds = logic_draws(d.format, function, opaque_alpha, pixel, list);
                assert(list.drop_last() =~= hlist);
                assert(cmds.drop_last() =~= logic_draws(
                    d.format,
                    function,
                    opaque_alpha,
                    pixel,
                    hlist,
                ));
                assert(cmds.last() == Command::LogicDraw {
                    format: d.format,
                    function,
                    opaque_alpha,
                    pixel,
                    rect: c,
                });
                assert(c.covers(x, y) <==> rects.last().covers(x, y));
            },
        }
    } else {
        assert(list =~= Seq::empty());
        assert(logic_draws(d.format, function, opaque_alpha, pixel, list) =~= Seq::empty());
    }
}

/// A raster operation fill applies the function that was asked for to the
/// fill pixel and to what was there, once for each of its rectangles that
/// covers a pixel, and changes no other pixel.
pub proof fn raster_fill_applies_its_function(
    d: Drawable,
    function: GcFunction,
    opaque_alpha: bool,
    fg: u32,
    rects: Seq<Rectangle16>,
)
    ensures
        raster_fills(
            logic_fill_commands(d, function, opaque_alpha, fg, clipped_list(rects, d.extent)),
            d,
            function,
            opaque_alpha,
            fg,
            rects,
        ),
{
    let visible = clipped_list(rects, d.extent);
    let cmds = logic_fill_commands(d, function, opaque_alpha, fg, visible);
    assert forall|sh: Shading, dev: Device, image: u64, x: int, y: int|
        knows(dev, d) && d.extent.covers(x, y) implies {
        let after = #[trigger] pixel_after(sh, dev, cmds, image, x, y);
        let before = (dev.images[image])(x, y);
        if image == d.image {
            same_texel(
                d.format,
                after,
                rastered(
                    function,
                    opaque_alpha,
                    asked_pixel(d.format, fg),
                    rects,
                    x,
                    y,
                    before,
                ),
            )
        } else {
            after == before
        }
    } by {
        rendering_runs(
            sh,
            dev,
            d,
            logic_draws(
                d.format,
                function,
                opaque_alpha,
                fill_pixel(d.format, opaque_alpha, fg),
                visible,
            ),
        );
        logic_draws_run(
            sh,
            rendering(dev, d.view, d.extent),
            d,
            function,
            opaque_alpha,
            fg,
            rects,
            x,
            y,
        );
    }
}

/// A fill that records nothing, without an error, had no pixel to fill.
pub proof fn fill_left_out_has_no_pixel(
    s: EngineView,
    st: StoreView,
    g: GroupView,
    target: DrawableId,
    rects: Seq<Rect>,
    x: int,
    y: int,
)
    requires
        fill_decision(s, st, g, target, rects) == Decision::<Seq<Rect>, ()>::Done(Ok(())),
    ensures
        st.has(target),
        st.get(target)->0.extent.covers(x, y) ==> !some_covers(rects, x, y),
{
    let d = st.get(target)->0;
    if d.extent.covers(x, y) {
        clamping_keeps_cover(rects, d.extent, x, y);
    }
}

/// A raster operation fill that records nothing, without an error, would have
/// changed no pixel: its function keeps every pixel, or none of its rectangles
/// reaches the target.
pub proof fn raster_fill_left_out_changes_nothing(
    s: EngineView,
    st: StoreView,
    g: GroupView,
    target: DrawableId,
    function: GcFunction,
    opaque_alpha: bool,
    fg: u32,
    rects: Seq<Rectangle16>,
    x: int,
    y: int,
    old: Rgba8,
)
    requires
        logic_fill_decision(s, st, g, target, function, rects) == Decision::<
            Seq<Rect>,
            (),
        >::Done(Ok(())),
        st.get(target) matches Some(d) && d.extent.covers(x, y),
    ensures
        rastered(
            function,
            opaque_alpha,
            asked_pixel(st.get(target)->0.format, fg),
            rects,
            x,
            y,
            old,
        ) == old,
{
    let d = st.get(target)->0;
    let px = asked_pixel(d.format, fg);
    if rects.len() > 0 && function != GcFunction::NoOp {
        scissors_cover_clip(rects, d.extent, x, y);
        assert forall|j: int| 0 <= j < rects.len() implies !(#[trigger] rects[j]).covers(x, y) by {
            if rects[j].covers(x, y) {
                let list = clipped_list(rects, d.extent);
                assert(exists|i: int| 0 <= i < list.len() && (#[trigger] list[i]).covers(x, y));
            }
        }
        unreached_is_kept(function, opaque_alpha, px, rects, x, y, old);
    } else {
        noop_keeps(opaque_alpha, px, rects, x, y, old);
    }
}

proof fn unreached_is_kept(
    function: GcFunction,
    opaque_alpha: bool,
    s: Rgba8,
    rects: Seq<Rectangle16>,
    x: int,
    y: int,
    old: Rgba8,
)
    requires
        forall|j: int| 0 <= j < rects.len() ==> !(#[trigger] rects[j]).covers(x, y),
    ensures
        rastered(function, opaque_alpha, s, rects, x, y, old) == old,
    decreases rects.len(),
{
    if rects.len() > 0 {
        let head = rects.drop_last();
        assert forall|j: int| 0 <= j < head.len() implies !(#[trigger] head[j]).covers(x, y) by {
            assert(head[j] == rects[j]);
        }
        unreached_is_kept(function, opaque_alpha, s, head, x, y, old);
        assert(!rects[rects.len() - 1].covers(x, y));
    }
}

proof fn noop_keeps(
    opaque_alpha: bool,
    s: Rgba8,
    rects: Seq<Rectangle16>,
    x: int,
    y: int,
    old: Rgba8,
)
    ensures
        rastered(GcFunction::NoOp, opaque_alpha, s, rects, x, y, old) == old,
    decreases rects.len(),
{
    if rects.len() > 0 {
        noop_keeps(opaque_alpha, s, rects.drop_last(), x, y, old);
    }
}

/// The truth table of each raster operation: what becomes of a bit `d` under a
/// bit `s` of the fill pixel.
pub open spec fn truth(f: GcFunction, s: bool, d: bool) -> bool {
    match f {
        GcFunction::Clear => false,
        GcFunction::And => s && d,
        GcFunction::AndReverse => s && !d,
        GcFunction::Copy => s,
        GcFunction::AndInverted => !s && d,
        GcFunction::NoOp => d,
        GcFunction::Xor => s != d,
        GcFunction::Or => s || d,
        GcFunction::Nor => !s && !d,
        GcFunction::Equiv => s == d,
        GcFunction::Invert => !d,
        GcFunction::OrReverse => s || !d,
        GcFunction::CopyInverted => !s,
        GcFunction::OrInverted => !s || d,
        GcFunction::Nand => !s || !d,
        GcFunction::SetBits => true,
    }
}

/// Every raster operation works bit by bit, as its truth table says.
pub proof fn raster_is_bitwise(f: GcFunction, s: u8, d: u8, k: int)
    requires
        0 <= k < 8,
    ensures
        bit_set(raster(f, s, d), k) == truth(f, bit_set(s, k), bit_set(d, k)),
{
    let n = k as u8;
    let a = (s >> n) & 1 == 1;
    let b = (d >> n) & 1 == 1;
    assert((((0u8 >> n) & 1) == 1) == false && ((((s & d) >> n) & 1) == 1) == (a && b) && ((((s & !d)
        >> n) & 1) == 1) == (a && !b) && ((((!s & d) >> n) & 1) == 1) == (!a && b) && ((((s ^ d)
        >> n) & 1) == 1) == (a != b) && ((((s | d) >> n) & 1) == 1) == (a || b) && ((((!(s | d))
        >> n) & 1) == 1) == (!a && !b)) by (bit_vector)
        requires
            n < 8,
            a == ((s >> n) & 1 == 1),
            b == ((d >> n) & 1 == 1),
    ;
    assert(((((!(s ^ d)) >> n) & 1) == 1) == (a == b) && ((((!d) >> n) & 1) == 1) == !b && ((((s
        | !d) >> n) & 1) == 1) == (a || !b) && ((((!s) >> n) & 1) == 1) == !a && ((((!s | d) >> n)
        & 1) == 1) == (!a || b) && ((((!(s & d)) >> n) & 1) == 1) == (!a || !b) && (((0xFFu8 >> n)
        & 1) == 1) == true) by (bit_vector)
        requires
            n < 8,
            a == ((s >> n) & 1 == 1),
            b == ((d >> n) & 1 == 1),
    ;
}

/// Where exactly one rectangle of a raster operation fill covers a pixel of a
/// drawable with colour storage, every bit of every colour channel follows the
/// truth table of the function that was asked for, applied to the bit of `fg`
/// and to the old bit.
pub proof fn raster_fill_follows_truth_table(
    d: Drawable,
    function: GcFunction,
    opaque_alpha: bool,
    fg: u32,
    rect: Rectangle16,
    sh: Shading,
    dev: Device,
    x: int,
    y: int,
    k: int,
)
    requires
        d.format != Format::R8Unorm,
        knows(dev, d),
        d.extent.covers(x, y),
        rect.covers(x, y),
        0 <= k < 8,
    ensures
        ({
            let old = (dev.images[d.image])(x, y);
            let new = pixel_after(
                sh,
                dev,
                logic_fill_commands(
                    d,
                    function,
                    opaque_alpha,
                    fg,
                    clipped_list(seq![rect], d.extent),
                ),
                d.image,
                x,
                y,
            );
            &&& bit_set(new.b, k) == truth(
                function,
                bit_set((fg % 256) as u8, k),
                bit_set(old.b, k),
            )
            &&& bit_set(new.g, k) == truth(
                function,
                bit_set((fg / 256 % 256) as u8, k),
                bit_set(old.g, k),
            )
            &&& bit_set(new.r, k) == truth(
                function,
                bit_set((fg / 65536 % 256) as u8, k),
                bit_set(old.r, k),
            )
            &&& if opaque_alpha {
                new.a == old.a
            } else {
                bit_set(new.a, k) == truth(
                    function,
                    bit_set((fg / 16777216) as u8, k),
                    bit_set(old.a, k),
                )
            }
        }),
{
    let list = seq![rect];
    let old = (dev.images[d.image])(x, y);
    let s = asked_pixel(d.format, fg);
    raster_fill_applies_its_function(d, function, opaque_alpha, fg, list);
    reveal_with_fuel(rastered, 2);
    assert(list.drop_last() =~= Seq::empty());
    assert(list.last() == rect);
    raster_is_bitwise(function, s.b, old.b, k);
    raster_is_bitwise(function, s.g, old.g, k);
    raster_is_bitwise(function, s.r, old.r, k);
    raster_is_bitwise(function, s.a, old.a, k);
}

} // verus!
