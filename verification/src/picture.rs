//! RENDER pictures as composite operations see them: sources, formats,
//! operators, and how each decides the way an image is sampled.

use vstd::prelude::*;

use crate::command::Color;
use crate::error::DrawableId;
use crate::geometry::{Extent, Rectangle16};
use crate::store::{Drawable, DrawableStore, Format, StoreView};

verus! {

/// How a picture continues outside its image.
#[derive(Clone, Copy, Debug, PartialEq, Eq, Structural)]
pub enum Repeat {
    /// Nothing outside the image.
    Off,
    Normal,
    Pad,
    Reflect,
}

/// The address mode under which a view is cached.
#[derive(Clone, Copy, Debug, PartialEq, Eq, Structural)]
pub enum SamplerConfig {
    Clamp,
    Repeat,
    Pad,
    Reflect,
}

/// How the channels of a storage image reach the shader.
#[derive(Clone, Copy, Debug, PartialEq, Eq, Structural)]
pub enum SwizzleClass {
    /// All channels as stored.
    RgbaIdent,
    /// The red channel as alpha, no colour.
    AlphaOnlyR8,
    /// Colour as stored, alpha one.
    BgraNoAlpha,
}

/// Where one channel of a view comes from.
#[derive(Clone, Copy, Debug, PartialEq, Eq, Structural)]
pub enum Channel {
    Identity,
    Zero,
    One,
    Red,
}

/// The channels of a view.
#[derive(Clone, Copy, Debug, PartialEq, Eq, Structural)]
pub struct ComponentMapping {
    pub r: Channel,
    pub g: Channel,
    pub b: Channel,
    pub a: Channel,
}

/// The format of a picture, as far as it says something about alpha.
#[derive(Clone, Copy, Debug, PartialEq, Eq, Structural)]
pub enum PictFormat {
    /// No picture stands behind the image; its depth decides.
    Unspecified,
    /// 24 bit colour without alpha.
    Rgb24,
    /// 32 bit pixels whose upper byte is padding.
    Xrgb32,
    /// 32 bit pixels with alpha.
    Argb32,
    /// Any other format, by its id.
    Other(u32),
}

/// A picture resolved to what it samples.
#[derive(Clone, Copy, Debug, PartialEq, Eq, Structural)]
pub enum ResolvedSource {
    /// A drawable's storage image.
    Drawable(DrawableId),
    /// One premultiplied colour.
    Solid(Color),
    /// A gradient picture.
    Gradient(u32),
    /// No mask.
    Absent,
}

/// One quad of a composite operation.
#[derive(Clone, Copy, Debug, PartialEq, Eq, Structural)]
pub struct CompositeRect {
    pub src_x: i32,
    pub src_y: i32,
    pub mask_x: i32,
    pub mask_y: i32,
    pub dst_x: i32,
    pub dst_y: i32,
    pub width: u32,
    pub height: u32,
}

/// A picture transform: a 3 by 3 matrix of 16.16 fixed point numbers.
#[derive(Clone, Copy, Debug, PartialEq, Eq, Structural)]
pub struct PictTransform {
    pub m11: i32,
    pub m12: i32,
    pub m13: i32,
    pub m21: i32,
    pub m22: i32,
    pub m23: i32,
    pub m31: i32,
    pub m32: i32,
    pub m33: i32,
}

/// Whether the engine knows the operator: the standard ones up to Saturate,
/// the disjoint and the conjoint ones.
pub open spec fn known_op(op: u8) -> bool {
    op <= 13 || 16 <= op <= 27 || 32 <= op <= 43
}

/// Whether the operator reads the destination in the shader.
pub open spec fn readback_op(op: u8) -> bool {
    op == 13 || 16 <= op <= 27 || 32 <= op <= 43
}

/// Whether the operator changes the destination where the mask is zero.
pub open spec fn unbounded_op(op: u8) -> bool {
    op == 0 || op == 1 || op == 5 || op == 6 || op == 7 || op == 10 || op == 13 || 16 <= op <= 27
        || 32 <= op <= 43
}

pub fn is_known_op(op: u8) -> (r: bool)
    ensures
        r == known_op(op),
{
    op <= 13 || (16 <= op && op <= 27) || (32 <= op && op <= 43)
}

pub fn needs_dst_readback(op: u8) -> (r: bool)
    ensures
        r == readback_op(op),
{
    op == 13 || (16 <= op && op <= 27) || (32 <= op && op <= 43)
}

pub fn needs_full_dst(op: u8) -> (r: bool)
    ensures
        r == unbounded_op(op),
{
    op == 0 || op == 1 || op == 5 || op == 6 || op == 7 || op == 10 || op == 13 || (16 <= op && op
        <= 27) || (32 <= op && op <= 43)
}

pub open spec fn spec_sampler(r: Repeat) -> SamplerConfig {
    match r {
        Repeat::Off => SamplerConfig::Clamp,
        Repeat::Normal => SamplerConfig::Repeat,
        Repeat::Pad => SamplerConfig::Pad,
        Repeat::Reflect => SamplerConfig::Reflect,
    }
}

/// The address mode of a repeat.
pub fn sampler_config_for_repeat(r: Repeat) -> (c: SamplerConfig)
    ensures
        c == spec_sampler(r),
{
    match r {
        Repeat::Off => SamplerConfig::Clamp,
        Repeat::Normal => SamplerConfig::Repeat,
        Repeat::Pad => SamplerConfig::Pad,
        Repeat::Reflect => SamplerConfig::Reflect,
    }
}

/// Whether the format says that the alpha bits of a pixel are padding.
pub open spec fn no_alpha_format(f: PictFormat) -> bool {
    f == PictFormat::Rgb24 || f == PictFormat::Xrgb32
}

fn is_no_alpha_format(f: PictFormat) -> (r: bool)
    ensures
        r == no_alpha_format(f),
{
    f == PictFormat::Rgb24 || f == PictFormat::Xrgb32
}

/// The swizzle that depth and storage format alone call for.
pub open spec fn spec_swizzle_for(format: Format, depth: u8) -> SwizzleClass {
    if format == Format::R8Unorm {
        SwizzleClass::AlphaOnlyR8
    } else if format == Format::B8G8R8A8Unorm && depth == 24 {
        SwizzleClass::BgraNoAlpha
    } else {
        SwizzleClass::RgbaIdent
    }
}

/// The swizzle for an image without a picture.
pub fn swizzle_class_for(format: Format, depth: u8) -> (c: SwizzleClass)
    ensures
        c == spec_swizzle_for(format, depth),
{
    match format {
        Format::R8Unorm => SwizzleClass::AlphaOnlyR8,
        Format::B8G8R8A8Unorm => if depth == 24 {
            SwizzleClass::BgraNoAlpha
        } else {
            SwizzleClass::RgbaIdent
        },
        Format::Other(_) => SwizzleClass::RgbaIdent,
    }
}

/// The swizzle for an image behind a picture: a format without alpha pins
/// alpha to one whatever the depth, except on alpha-only storage.
pub open spec fn spec_swizzle(format: Format, depth: u8, pict: PictFormat) -> SwizzleClass {
    if format == Format::B8G8R8A8Unorm && no_alpha_format(pict) {
        SwizzleClass::BgraNoAlpha
    } else {
        spec_swizzle_for(format, depth)
    }
}

/// The swizzle for an image behind a picture.
pub fn swizzle_class_for_pict_format(format: Format, depth: u8, pict_format: PictFormat) -> (c:
    SwizzleClass)
    ensures
        c == spec_swizzle(format, depth, pict_format),
{
    if format == Format::B8G8R8A8Unorm && is_no_alpha_format(pict_format) {
        SwizzleClass::BgraNoAlpha
    } else {
        swizzle_class_for(format, depth)
    }
}

pub open spec fn spec_mapping(class: SwizzleClass) -> ComponentMapping {
    match class {
        SwizzleClass::RgbaIdent => ComponentMapping {
            r: Channel::Identity,
            g: Channel::Identity,
            b: Channel::Identity,
            a: Channel::Identity,
        },
        SwizzleClass::AlphaOnlyR8 => ComponentMapping {
            r: Channel::Zero,
            g: Channel::Zero,
            b: Channel::Zero,
            a: Channel::Red,
        },
        SwizzleClass::BgraNoAlpha => ComponentMapping {
            r: Channel::Identity,
            g: Channel::Identity,
            b: Channel::Identity,
            a: Channel::One,
        },
    }
}

/// The channels of a view of the given class.
pub fn component_mapping(class: SwizzleClass) -> (m: ComponentMapping)
    ensures
        m == spec_mapping(class),
{
    match class {
        SwizzleClass::RgbaIdent => ComponentMapping {
            r: Channel::Identity,
            g: Channel::Identity,
            b: Channel::Identity,
            a: Channel::Identity,
        },
        SwizzleClass::AlphaOnlyR8 => ComponentMapping {
            r: Channel::Zero,
            g: Channel::Zero,
            b: Channel::Zero,
            a: Channel::Red,
        },
        SwizzleClass::BgraNoAlpha => ComponentMapping {
            r: Channel::Identity,
            g: Channel::Identity,
            b: Channel::Identity,
            a: Channel::One,
        },
    }
}

/// Whether a destination has an alpha channel that clients can see.
pub open spec fn spec_dst_has_alpha(format: Format, depth: u8, pict: PictFormat) -> bool {
    if format == Format::R8Unorm {
        true
    } else if no_alpha_format(pict) {
        false
    } else {
        pict == PictFormat::Argb32 || depth == 32
    }
}

/// Whether a destination has an alpha channel that clients can see. Alpha-only
/// storage always has; otherwise the picture decides, and without a telling
/// picture the depth.
pub fn dst_has_alpha_for_pict_format(format: Format, depth: u8, pict_format: PictFormat) -> (r:
    bool)
    ensures
        r == spec_dst_has_alpha(format, depth, pict_format),
{
    if format == Format::R8Unorm {
        return true;
    }
    if is_no_alpha_format(pict_format) {
        return false;
    }
    pict_format == PictFormat::Argb32 || depth == 32
}

/// Whether a source without a picture samples with alpha one: a drawable of
/// depth 24, whose alpha byte is padding.
pub open spec fn force_opaque(st: StoreView, src: ResolvedSource) -> bool {
    match src {
        ResolvedSource::Drawable(id) => st.get(id) matches Some(d) && d.depth == 24,
        _ => false,
    }
}

/// Whether a source without a picture samples with alpha one.
pub fn resolve_force_opaque(store: &DrawableStore, src: &ResolvedSource) -> (r: bool)
    ensures
        r == force_opaque(store@, *src),
{
    match src {
        ResolvedSource::Drawable(id) => match store.get(*id) {
            Some(d) => d.depth == 24,
            None => false,
        },
        _ => false,
    }
}

/// Whether a source behind a picture samples with alpha one.
pub open spec fn force_opaque_format(
    st: StoreView,
    src: ResolvedSource,
    pict: PictFormat,
) -> bool {
    (src is Drawable && no_alpha_format(pict)) || force_opaque(st, src)
}

/// Whether a source behind a picture samples with alpha one: a drawable whose
/// picture format has no alpha, or whose depth is 24.
pub fn resolve_force_opaque_pict_format(
    store: &DrawableStore,
    src: &ResolvedSource,
    pict_format: PictFormat,
) -> (r: bool)
    ensures
        r == force_opaque_format(store@, *src, pict_format),
{
    match src {
        ResolvedSource::Drawable(_) => {
            if is_no_alpha_format(pict_format) {
                return true;
            }
            resolve_force_opaque(store, src)
        },
        _ => false,
    }
}

/// What one texture slot of a composite draw is bound to.
#[derive(Clone, Copy, Debug, PartialEq, Eq, Structural)]
pub enum Binding {
    /// The snapshot of the destination, because the picture is the
    /// destination itself.
    Alias,
    /// A view of another drawable's storage image.
    View {
        id: DrawableId,
        image: u64,
        format: Format,
        extent: Extent,
        sampler: SamplerConfig,
        swizzle: SwizzleClass,
    },
    /// The one pixel image that is cleared to the colour first.
    Solid(Color),
    /// The lookup table of a gradient picture.
    Gradient { xid: u32, view: u64, extent: Extent },
    /// The one pixel white image.
    White,
}

/// The size of a one pixel image.
pub open spec fn one_pixel() -> Extent {
    Extent { width: 1, height: 1 }
}

impl Binding {
    /// The size of what is bound, `dst` being the size of the destination.
    pub open spec fn spec_extent(self, dst: Extent) -> Extent {
        match self {
            Binding::Alias => dst,
            Binding::View { extent, .. } => extent,
            Binding::Solid(_) => one_pixel(),
            Binding::Gradient { extent, .. } => extent,
            Binding::White => one_pixel(),
        }
    }

    pub fn extent(self, dst: Extent) -> (r: Extent)
        ensures
            r == self.spec_extent(dst),
    {
        match self {
            Binding::Alias => dst,
            Binding::View { extent, .. } => extent,
            Binding::Solid(_) => Extent { width: 1, height: 1 },
            Binding::Gradient { extent, .. } => extent,
            Binding::White => Extent { width: 1, height: 1 },
        }
    }

    /// Whether the slot is bound to a one pixel image of the engine.
    pub open spec fn spec_synthetic(self) -> bool {
        self is Solid || self is White
    }

    pub fn synthetic(self) -> (r: bool)
        ensures
            r == self.spec_synthetic(),
    {
        match self {
            Binding::Solid(_) => true,
            Binding::White => true,
            _ => false,
        }
    }

    /// The gradient whose own projection comes before the picture transform.
    pub open spec fn spec_gradient(self) -> Option<u32> {
        match self {
            Binding::Gradient { xid, .. } => Some(xid),
            _ => None,
        }
    }

    pub fn gradient(self) -> (r: Option<u32>)
        ensures
            r == self.spec_gradient(),
    {
        match self {
            Binding::Gradient { xid, .. } => Some(xid),
            _ => None,
        }
    }

    /// The colour that the slot's image is cleared to first.
    pub open spec fn spec_clear_color(self) -> Option<Color> {
        match self {
            Binding::Solid(c) => Some(c),
            _ => None,
        }
    }

    pub fn clear_color(self) -> (r: Option<Color>)
        ensures
            r == self.spec_clear_color(),
    {
        match self {
            Binding::Solid(c) => Some(c),
            _ => None,
        }
    }
}

/// The binding of a drawable's storage image.
pub open spec fn view_binding(
    id: DrawableId,
    d: Drawable,
    repeat: Repeat,
    pict: PictFormat,
) -> Binding {
    Binding::View {
        id,
        image: d.image,
        format: d.format,
        extent: d.extent,
        sampler: spec_sampler(repeat),
        swizzle: spec_swizzle(d.format, d.depth, pict),
    }
}

pub fn bind_view(id: DrawableId, d: Drawable, repeat: Repeat, pict: PictFormat) -> (r: Binding)
    ensures
        r == view_binding(id, d, repeat, pict),
{
    Binding::View {
        id,
        image: d.image,
        format: d.format,
        extent: d.extent,
        sampler: sampler_config_for_repeat(repeat),
        swizzle: swizzle_class_for_pict_format(d.format, d.depth, pict),
    }
}

/// A gradient picture's lookup table.
#[derive(Clone, Copy, Debug, PartialEq, Eq, Structural)]
pub struct Gradient {
    pub xid: u32,
    pub view: u64,
    pub extent: Extent,
    /// The object to release when the picture goes.
    pub resource: u64,
}

/// The newest gradient under a picture id.
pub open spec fn find_gradient(list: Seq<Gradient>, xid: u32) -> Option<Gradient>
    decreases list.len(),
{
    if list.len() == 0 {
        None
    } else if list.last().xid == xid {
        Some(list.last())
    } else {
        find_gradient(list.drop_last(), xid)
    }
}

pub fn lookup_gradient(list: &Vec<Gradient>, xid: u32) -> (r: Option<Gradient>)
    ensures
        r == find_gradient(list@, xid),
{
    let mut i: usize = list.len();
    proof {
        assert(list@.take(i as int) == list@);
    }
    while i > 0
        invariant
            i <= list.len(),
            find_gradient(list@, xid) == find_gradient(list@.take(i as int), xid),
        decreases i,
    {
        let g = list[i - 1];
        proof {
            assert(list@.take(i as int).drop_last() == list@.take(i - 1));
        }
        if g.xid == xid {
            return Some(g);
        }
        i = i - 1;
    }
    None
}

/// What comes of resolving one picture of a composite operation.
#[derive(Clone, Copy, Debug, PartialEq, Eq, Structural)]
pub enum Resolution {
    Bound(Binding),
    /// The drawable behind the picture is gone.
    Unknown(DrawableId),
    /// There is nothing to sample: no source, or a gradient without a table.
    Nothing,
}

/// How a source or mask picture of a composite onto `dst` is bound. A missing
/// mask is white; a missing source is nothing.
pub open spec fn resolution(
    st: StoreView,
    gradients: Seq<Gradient>,
    source: ResolvedSource,
    is_mask: bool,
    dst: DrawableId,
    repeat: Repeat,
    pict: PictFormat,
) -> Resolution {
    match source {
        ResolvedSource::Drawable(id) => if id == dst {
            Resolution::Bound(Binding::Alias)
        } else {
            match st.get(id) {
                Some(d) => Resolution::Bound(view_binding(id, d, repeat, pict)),
                None => Resolution::Unknown(id),
            }
        },
        ResolvedSource::Solid(c) => Resolution::Bound(Binding::Solid(c)),
        ResolvedSource::Gradient(xid) => match find_gradient(gradients, xid) {
            Some(g) => Resolution::Bound(
                Binding::Gradient { xid, view: g.view, extent: g.extent },
            ),
            None => Resolution::Nothing,
        },
        ResolvedSource::Absent => if is_mask {
            Resolution::Bound(Binding::White)
        } else {
            Resolution::Nothing
        },
    }
}

/// Binds a source or mask picture of a composite onto `dst`.
pub fn resolve(
    store: &DrawableStore,
    gradients: &Vec<Gradient>,
    source: ResolvedSource,
    is_mask: bool,
    dst: DrawableId,
    repeat: Repeat,
    pict: PictFormat,
) -> (r: Resolution)
    ensures
        r == resolution(store@, gradients@, source, is_mask, dst, repeat, pict),
{
    match source {
        ResolvedSource::Drawable(id) => {
            if id == dst {
                return Resolution::Bound(Binding::Alias);
            }
            match store.get(id) {
                Some(d) => Resolution::Bound(bind_view(id, d, repeat, pict)),
                None => Resolution::Unknown(id),
            }
        },
        ResolvedSource::Solid(c) => Resolution::Bound(Binding::Solid(c)),
        ResolvedSource::Gradient(xid) => match lookup_gradient(gradients, xid) {
            Some(g) => Resolution::Bound(
                Binding::Gradient { xid, view: g.view, extent: g.extent },
            ),
            None => Resolution::Nothing,
        },
        ResolvedSource::Absent => if is_mask {
            Resolution::Bound(Binding::White)
        } else {
            Resolution::Nothing
        },
    }
}

/// A RENDER composite: an operator, what it reads, and where it paints.
pub struct CompositeRequest {
    pub op: u8,
    pub src: ResolvedSource,
    pub mask: ResolvedSource,
    pub dst: DrawableId,
    pub rects: Vec<CompositeRect>,
    /// The clip of the destination picture; `None` does not clip.
    pub clip: Option<Vec<Rectangle16>>,
    pub src_repeat: Repeat,
    pub mask_repeat: Repeat,
    pub src_transform: Option<PictTransform>,
    pub mask_transform: Option<PictTransform>,
    pub component_alpha: bool,
    pub src_format: PictFormat,
    pub mask_format: PictFormat,
    pub dst_format: PictFormat,
}

/// What the draws of one composite share.
#[derive(Clone, Copy, Debug, PartialEq, Eq, Structural)]
pub struct CompositeAttrs {
    pub src_extent: Extent,
    pub mask_extent: Extent,
    pub src_repeat: Repeat,
    pub mask_repeat: Repeat,
    pub src_force_opaque: bool,
    pub mask_force_opaque: bool,
    /// The gradient whose projection comes before the transform.
    pub src_gradient: Option<u32>,
    pub mask_gradient: Option<u32>,
    pub src_transform: Option<PictTransform>,
    pub mask_transform: Option<PictTransform>,
}

/// The repeat of a slot: one pixel images are padded, so that their pixel
/// covers everything.
pub open spec fn effective_repeat(b: Binding, repeat: Repeat) -> Repeat {
    if b.spec_synthetic() {
        Repeat::Pad
    } else {
        repeat
    }
}

pub open spec fn spec_attrs(
    st: StoreView,
    req: &CompositeRequest,
    src: Binding,
    mask: Binding,
    dst: Extent,
) -> CompositeAttrs {
    CompositeAttrs {
        src_extent: src.spec_extent(dst),
        mask_extent: mask.spec_extent(dst),
        src_repeat: effective_repeat(src, req.src_repeat),
        mask_repeat: effective_repeat(mask, req.mask_repeat),
        src_force_opaque: force_opaque_format(st, req.src, req.src_format),
        mask_force_opaque: force_opaque_format(st, req.mask, req.mask_format),
        src_gradient: src.spec_gradient(),
        mask_gradient: mask.spec_gradient(),
        src_transform: req.src_transform,
        mask_transform: req.mask_transform,
    }
}

/// The shared attributes of a composite whose pictures are bound.
pub fn build_render_composite_attrs(
    store: &DrawableStore,
    req: &CompositeRequest,
    src: Binding,
    mask: Binding,
    dst: Extent,
) -> (r: CompositeAttrs)
    ensures
        r == spec_attrs(store@, req, src, mask, dst),
{
    let src_repeat = if src.synthetic() {
        Repeat::Pad
    } else {
        req.src_repeat
    };
    let mask_repeat = if mask.synthetic() {
        Repeat::Pad
    } else {
        req.mask_repeat
    };
    CompositeAttrs {
        src_extent: src.extent(dst),
        mask_extent: mask.extent(dst),
        src_repeat,
        mask_repeat,
        src_force_opaque: resolve_force_opaque_pict_format(store, &req.src, req.src_format),
        mask_force_opaque: resolve_force_opaque_pict_format(store, &req.mask, req.mask_format),
        src_gradient: src.gradient(),
        mask_gradient: mask.gradient(),
        src_transform: req.src_transform,
        mask_transform: req.mask_transform,
    }
}

/// A drawable on colour storage is sampled through a view whose alpha is one
/// exactly when the composite treats it as opaque.
pub proof fn swizzle_agrees_with_force_opaque(
    st: StoreView,
    id: DrawableId,
    pict: PictFormat,
)
    requires
        st.has(id),
        st.get(id)->0.format == Format::B8G8R8A8Unorm,
    ensures
        (spec_swizzle(st.get(id)->0.format, st.get(id)->0.depth, pict)
            == SwizzleClass::BgraNoAlpha) <==> force_opaque_format(
            st,
            ResolvedSource::Drawable(id),
            pict,
        ),
{
}

/// An operator that reads the destination in the shader is a known operator
/// that also changes the destination where the mask is zero.
pub proof fn readback_ops_are_unbounded(op: u8)
    requires
        readback_op(op),
    ensures
        known_op(op),
        unbounded_op(op),
{
}

} // verus!
