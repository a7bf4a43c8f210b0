//! Picture formats, operators and switches.

use render_engine::command::Color;
use render_engine::switches::{
    frame_builder_enabled, frame_builder_render_composite_enabled,
    set_frame_builder_render_composite_enabled_for_tests, CompositeSwitch,
};
use render_engine::geometry::Extent;
use render_engine::picture::{
    component_mapping, dst_has_alpha_for_pict_format, is_known_op, needs_dst_readback,
    needs_full_dst, resolve_force_opaque, resolve_force_opaque_pict_format,
    sampler_config_for_repeat, swizzle_class_for, swizzle_class_for_pict_format, Channel,
    PictFormat, Repeat, ResolvedSource, SamplerConfig, SwizzleClass,
};
use render_engine::store::{Drawable, DrawableStore, Format, Layout};

fn drawable(xid: u32, depth: u8, format: Format) -> Drawable {
    Drawable {
        xid,
        depth,
        format,
        extent: Extent { width: 4, height: 4 },
        image: u64::from(xid),
        view: u64::from(xid),
        layout: Layout::Undefined,
        last_render_ticket: None,
    }
}

fn bits(r: f32, g: f32, b: f32, a: f32) -> Color {
    Color {
        r: r.to_bits(),
        g: g.to_bits(),
        b: b.to_bits(),
        a: a.to_bits(),
    }
}

#[test]
fn frame_builder_render_composite_defaults_on() {
    let mut switch = CompositeSwitch::new();
    let on = frame_builder_render_composite_enabled(&mut switch, None);
    assert!(on, "default ON expected");
}

#[test]
fn composite_switch_reads_its_setting_once() {
    for word in ["on", "1", "true", "yes", "", "OFF", "offline"] {
        let mut switch = CompositeSwitch::new();
        assert!(frame_builder_render_composite_enabled(&mut switch, Some(word)));
        assert!(frame_builder_render_composite_enabled(&mut switch, Some("off")));
    }
    for word in ["off", "0", "false", "no"] {
        let mut switch = CompositeSwitch::new();
        assert!(!frame_builder_render_composite_enabled(&mut switch, Some(word)));
        assert!(!frame_builder_render_composite_enabled(&mut switch, None));
    }
}

#[test]
fn composite_switch_can_be_overridden() {
    let mut switch = CompositeSwitch::new();
    set_frame_builder_render_composite_enabled_for_tests(&mut switch, false);
    assert!(!frame_builder_render_composite_enabled(&mut switch, Some("on")));
    set_frame_builder_render_composite_enabled_for_tests(&mut switch, true);
    assert!(frame_builder_render_composite_enabled(&mut switch, Some("off")));
}

#[test]
fn frame_builder_is_on_unless_switched_off() {
    assert!(frame_builder_enabled(None));
    assert!(frame_builder_enabled(Some("anything")));
    for word in ["0", "off", "false", "no"] {
        assert!(!frame_builder_enabled(Some(word)));
    }
}

#[test]
fn render_composite_resolve_force_opaque_oracle() {
    let mut store = DrawableStore::new();
    let id32 = store.allocate(drawable(0xA001, 32, Format::B8G8R8A8Unorm));
    let id24 = store.allocate(drawable(0xA002, 24, Format::B8G8R8A8Unorm));
    assert!(!resolve_force_opaque(&store, &ResolvedSource::Drawable(id32)));
    assert!(resolve_force_opaque(&store, &ResolvedSource::Drawable(id24)));
    assert!(!resolve_force_opaque(
        &store,
        &ResolvedSource::Solid(bits(1.0, 0.0, 0.0, 1.0))
    ));
    assert!(!resolve_force_opaque(&store, &ResolvedSource::Gradient(0x1234)));
    assert!(!resolve_force_opaque(&store, &ResolvedSource::Absent));
    let id1 = store.allocate(drawable(0xA003, 1, Format::B8G8R8A8Unorm));
    assert!(!resolve_force_opaque(&store, &ResolvedSource::Drawable(id1)));
    let id8 = store.allocate(drawable(0xA004, 8, Format::R8Unorm));
    assert!(!resolve_force_opaque(&store, &ResolvedSource::Drawable(id8)));
}

#[test]
fn force_opaque_of_a_missing_drawable_follows_its_format() {
    let store = DrawableStore::new();
    let src = ResolvedSource::Drawable(7);
    assert!(!resolve_force_opaque(&store, &src));
    assert!(!resolve_force_opaque_pict_format(&store, &src, PictFormat::Argb32));
    assert!(resolve_force_opaque_pict_format(&store, &src, PictFormat::Rgb24));
    assert!(!resolve_force_opaque_pict_format(
        &store,
        &ResolvedSource::Absent,
        PictFormat::Rgb24
    ));
}

#[test]
fn render_composite_resolve_force_opaque_honors_xrgb32_pict_format() {
    let mut store = DrawableStore::new();
    let id32 = store.allocate(drawable(0xA101, 32, Format::B8G8R8A8Unorm));
    let id24 = store.allocate(drawable(0xA102, 24, Format::B8G8R8A8Unorm));
    let src32 = ResolvedSource::Drawable(id32);
    let src24 = ResolvedSource::Drawable(id24);
    assert!(!resolve_force_opaque_pict_format(&store, &src32, PictFormat::Unspecified));
    assert!(resolve_force_opaque_pict_format(&store, &src24, PictFormat::Unspecified));
    assert!(resolve_force_opaque_pict_format(&store, &src32, PictFormat::Xrgb32));
    assert!(!resolve_force_opaque_pict_format(&store, &src32, PictFormat::Argb32));
    assert!(resolve_force_opaque_pict_format(&store, &src24, PictFormat::Rgb24));
}

#[test]
fn render_composite_dst_has_alpha_honors_xrgb32_pict_format() {
    let bgra = Format::B8G8R8A8Unorm;
    assert!(!dst_has_alpha_for_pict_format(bgra, 24, PictFormat::Unspecified));
    assert!(dst_has_alpha_for_pict_format(bgra, 32, PictFormat::Unspecified));
    assert!(!dst_has_alpha_for_pict_format(bgra, 32, PictFormat::Xrgb32));
    assert!(dst_has_alpha_for_pict_format(bgra, 32, PictFormat::Argb32));
    assert!(!dst_has_alpha_for_pict_format(bgra, 24, PictFormat::Rgb24));
    assert!(dst_has_alpha_for_pict_format(Format::R8Unorm, 8, PictFormat::Unspecified));
}

#[test]
fn dst_has_alpha_follows_an_argb_picture_at_any_depth() {
    assert!(dst_has_alpha_for_pict_format(
        Format::B8G8R8A8Unorm,
        24,
        PictFormat::Argb32
    ));
    assert!(!dst_has_alpha_for_pict_format(
        Format::B8G8R8A8Unorm,
        24,
        PictFormat::Other(9)
    ));
}

#[test]
fn render_composite_swizzle_class_for_pict_format_xrgb32_is_no_alpha() {
    let bgra = Format::B8G8R8A8Unorm;
    assert_eq!(
        swizzle_class_for_pict_format(bgra, 24, PictFormat::Unspecified),
        SwizzleClass::BgraNoAlpha
    );
    assert_eq!(
        swizzle_class_for_pict_format(bgra, 32, PictFormat::Unspecified),
        SwizzleClass::RgbaIdent
    );
    assert_eq!(
        swizzle_class_for_pict_format(bgra, 32, PictFormat::Xrgb32),
        SwizzleClass::BgraNoAlpha
    );
    assert_eq!(
        swizzle_class_for_pict_format(bgra, 32, PictFormat::Argb32),
        SwizzleClass::RgbaIdent
    );
    assert_eq!(
        swizzle_class_for_pict_format(bgra, 24, PictFormat::Rgb24),
        SwizzleClass::BgraNoAlpha
    );
    assert_eq!(
        swizzle_class_for_pict_format(Format::R8Unorm, 8, PictFormat::Unspecified),
        SwizzleClass::AlphaOnlyR8
    );
}

#[test]
fn swizzle_of_other_storage_is_the_identity() {
    assert_eq!(swizzle_class_for(Format::Other(37), 24), SwizzleClass::RgbaIdent);
    assert_eq!(
        swizzle_class_for_pict_format(Format::R8Unorm, 8, PictFormat::Rgb24),
        SwizzleClass::AlphaOnlyR8
    );
}

#[test]
fn views_map_channels_by_class() {
    let ident = component_mapping(SwizzleClass::RgbaIdent);
    assert_eq!((ident.r, ident.a), (Channel::Identity, Channel::Identity));
    let mask = component_mapping(SwizzleClass::AlphaOnlyR8);
    assert_eq!(
        (mask.r, mask.g, mask.b, mask.a),
        (Channel::Zero, Channel::Zero, Channel::Zero, Channel::Red)
    );
    let opaque = component_mapping(SwizzleClass::BgraNoAlpha);
    assert_eq!((opaque.b, opaque.a), (Channel::Identity, Channel::One));
}

#[test]
fn samplers_follow_repeat() {
    assert_eq!(sampler_config_for_repeat(Repeat::Off), SamplerConfig::Clamp);
    assert_eq!(sampler_config_for_repeat(Repeat::Normal), SamplerConfig::Repeat);
    assert_eq!(sampler_config_for_repeat(Repeat::Pad), SamplerConfig::Pad);
    assert_eq!(sampler_config_for_repeat(Repeat::Reflect), SamplerConfig::Reflect);
}

#[test]
fn operators_are_classified() {
    assert!(is_known_op(0) && is_known_op(13) && is_known_op(16) && is_known_op(43));
    assert!(!is_known_op(14) && !is_known_op(15) && !is_known_op(28) && !is_known_op(44));
    assert!(!needs_dst_readback(12) && needs_dst_readback(13) && needs_dst_readback(16));
    let full: Vec<u8> = (0..=44).filter(|op| needs_full_dst(*op)).collect();
    let mut want: Vec<u8> = vec![0, 1, 5, 6, 7, 10, 13];
    want.extend(16..=27);
    want.extend(32..=43);
    assert_eq!(full, want);
}
