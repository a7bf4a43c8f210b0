//! The engine driven against a small software device.

use std::collections::HashMap;

use render_engine::batch::{
    BatchAppendReply, DirectPlan, DirectReply, RenderFlushReply,
};
use render_engine::close::{CloseOutcome, CloseReply};
use render_engine::command::{
    Color, Command, GcFunction, GlyphDraw, PipelineKey, ScratchImage, Slot, SnapshotKind,
    TrapPrimKind,
};
use render_engine::composite::{CompositePlan, CompositeReply, CompositeStats};
use render_engine::copy::CopyReply;
use render_engine::cow::{BatchReply, CowFlushReply};
use render_engine::deferred::{DeferredReply, SnapshotFits};
use render_engine::dispatch::{fill_request, RenderReply};
use render_engine::engine::{
    Asset, Chore, CloseReason, PresentBatchWait, PresentEntry, Release, RenderEngine, Staging,
};
use render_engine::error::{RenderError, VK_ERROR_OUT_OF_DEVICE_MEMORY};
use render_engine::frame::{GlyphKey, RecordedOp};
use render_engine::geometry::{Extent, Offset, Rect, Rectangle16};
use render_engine::glyphs::{FrameRun, GlyphNeed, GlyphsBegin, PackReply};
use render_engine::image::{record_get, record_put, GetReply, PutReply};
use render_engine::paint::{logic_fill_pixel, Decision, PaintReply, Step};
use render_engine::picture::{
    Binding, CompositeRect, CompositeRequest, Gradient, PictFormat, Repeat, Resolution,
    ResolvedSource,
};
use render_engine::pixel::decode_x11_pixel_bgra;
use render_engine::retire::GradientError;
use render_engine::store::{Drawable, DrawableStore, Format, Layout};
use render_engine::submit::{FlushReason, SubmitGroup};
use render_engine::text::{GlyphImage, GlyphReply, ImageTextStats, TextRun, UploadReply};
use render_engine::traps::{MaskImage, TrapReply, TrapRequest};

const DEVICE_LOST: i32 = -4;
const OP_SRC: u8 = 1;
const OP_OVER: u8 = 3;

type Rgba = [f32; 4];

#[derive(Clone)]
struct Img {
    w: u32,
    h: u32,
    bpp: usize,
    bytes: Vec<u8>,
    layout: Layout,
}

impl Img {
    fn new(w: u32, h: u32, bpp: usize) -> Img {
        Img {
            w,
            h,
            bpp,
            bytes: vec![0; w as usize * h as usize * bpp],
            layout: Layout::Undefined,
        }
    }

    fn at(&self, x: i32, y: i32) -> usize {
        (y as usize * self.w as usize + x as usize) * self.bpp
    }

    fn holds(&self, x: i32, y: i32) -> bool {
        x >= 0 && y >= 0 && (x as u32) < self.w && (y as u32) < self.h
    }

    fn get(&self, x: i32, y: i32) -> Rgba {
        let o = self.at(x, y);
        if self.bpp == 1 {
            return [0.0, 0.0, 0.0, f32::from(self.bytes[o]) / 255.0];
        }
        let c = |k: usize| f32::from(self.bytes[o + k]) / 255.0;
        [c(2), c(1), c(0), c(3)]
    }

    fn put(&mut self, x: i32, y: i32, c: Rgba) {
        let o = self.at(x, y);
        let b = |v: f32| (v.clamp(0.0, 1.0) * 255.0).round() as u8;
        if self.bpp == 1 {
            self.bytes[o] = b(c[0]);
            return;
        }
        self.bytes[o] = b(c[2]);
        self.bytes[o + 1] = b(c[1]);
        self.bytes[o + 2] = b(c[0]);
        self.bytes[o + 3] = b(c[3]);
    }
}

struct Gpu {
    next: u64,
    images: HashMap<u64, Img>,
    buffers: HashMap<u64, Vec<u8>>,
    cbs: HashMap<u64, Vec<Command>>,
    descriptors: HashMap<u64, (Binding, Option<Binding>)>,
    alias: Option<Img>,
    readback: Option<Img>,
    solid: [Rgba; 2],
    atlas: Img,
    shelf: (u32, u32, u32),
    attached: Option<u64>,
    pipeline: Option<PipelineKey>,
    foreground: Rgba,
    mask: u64,
    signaled: Vec<u64>,
    fail_submit: bool,
    snapshots: u32,
}

impl Gpu {
    fn new(atlas_side: u32) -> Gpu {
        Gpu {
            next: 100,
            images: HashMap::new(),
            buffers: HashMap::new(),
            cbs: HashMap::new(),
            descriptors: HashMap::new(),
            alias: None,
            readback: None,
            solid: [[0.0; 4]; 2],
            atlas: Img::new(atlas_side, atlas_side, 1),
            shelf: (0, 0, 0),
            attached: None,
            pipeline: None,
            foreground: [0.0; 4],
            mask: 0,
            signaled: Vec::new(),
            fail_submit: false,
            snapshots: 0,
        }
    }

    fn handle(&mut self) -> u64 {
        self.next += 1;
        self.next
    }

    fn pack(&mut self, w: u32, h: u32) -> Option<(u32, u32)> {
        let side = self.atlas.w;
        let (mut x, mut y, mut height) = self.shelf;
        if x + w > side {
            x = 0;
            y += height;
            height = 0;
        }
        if w > side || y + h > side {
            return None;
        }
        self.shelf = (x + w, y, height.max(h));
        Some((x, y))
    }

    fn color(c: Color) -> Rgba {
        [
            f32::from_bits(c.r),
            f32::from_bits(c.g),
            f32::from_bits(c.b),
            f32::from_bits(c.a),
        ]
    }

    fn inside(r: Rect, x: i32, y: i32) -> bool {
        x >= r.offset.x
            && y >= r.offset.y
            && i64::from(x) < i64::from(r.offset.x) + i64::from(r.extent.width)
            && i64::from(y) < i64::from(r.offset.y) + i64::from(r.extent.height)
    }

    fn sample(&self, b: Binding, slot: usize, repeat: Repeat, x: i32, y: i32) -> Rgba {
        match b {
            Binding::White => [1.0; 4],
            Binding::Solid(_) => {
                assert_eq!(repeat, Repeat::Pad);
                self.solid[slot]
            }
            Binding::Alias => self.alias.as_ref().unwrap().get(x, y),
            Binding::Gradient { view, .. } => self.images[&view].get(x, y),
            Binding::View { image, .. } => {
                let img = &self.images[&image];
                assert_eq!(img.layout, Layout::ShaderReadOnly, "sampled image");
                if img.holds(x, y) {
                    img.get(x, y)
                } else {
                    [0.0; 4]
                }
            }
        }
    }

    fn exec(&mut self, c: Command) {
        match c {
            Command::Barrier { image, old, new, .. } => {
                let img = self.images.get_mut(&image).expect("barrier image");
                assert!(old == Layout::Undefined || img.layout == old, "stale layout");
                img.layout = new;
            }
            Command::CopyImage { src, dst, from, to, extent } => {
                assert_eq!(self.images[&src].layout, Layout::TransferSrc);
                assert_eq!(self.images[&dst].layout, Layout::TransferDst);
                let s = self.images[&src].clone();
                let d = self.images.get_mut(&dst).unwrap();
                for y in 0..extent.height as i32 {
                    for x in 0..extent.width as i32 {
                        let a = s.at(from.x + x, from.y + y);
                        let b = d.at(to.x + x, to.y + y);
                        for k in 0..s.bpp {
                            d.bytes[b + k] = s.bytes[a + k];
                        }
                    }
                }
            }
            Command::CopyBufferToImage { buffer, image, to, extent } => {
                let bytes = self.buffers[&buffer].clone();
                let d = self.images.get_mut(&image).unwrap();
                assert_eq!(d.layout, Layout::TransferDst);
                for y in 0..extent.height as i32 {
                    for x in 0..extent.width as i32 {
                        let a = (y as usize * extent.width as usize + x as usize) * d.bpp;
                        let b = d.at(to.x + x, to.y + y);
                        for k in 0..d.bpp {
                            d.bytes[b + k] = bytes[a + k];
                        }
                    }
                }
            }
            Command::CopyImageToBuffer { image, buffer, from, extent } => {
                let s = &self.images[&image];
                assert_eq!(s.layout, Layout::TransferSrc);
                let mut out = Vec::new();
                for y in 0..extent.height as i32 {
                    for x in 0..extent.width as i32 {
                        let a = s.at(from.x + x, from.y + y);
                        out.extend_from_slice(&s.bytes[a..a + s.bpp]);
                    }
                }
                self.buffers.insert(buffer, out);
            }
            Command::BeginRendering { image, .. } => {
                assert_eq!(self.images[&image].layout, Layout::ColorAttachment);
                self.attached = Some(image);
            }
            Command::EndRendering { image } => {
                assert_eq!(self.attached, Some(image));
                self.attached = None;
            }
            Command::ClearRect { color, rect } => {
                let img = self.images.get_mut(&self.attached.unwrap()).unwrap();
                for y in 0..rect.extent.height as i32 {
                    for x in 0..rect.extent.width as i32 {
                        img.put(rect.offset.x + x, rect.offset.y + y, Gpu::color(color));
                    }
                }
            }
            Command::LogicDraw { function, opaque_alpha, pixel, rect, .. } => {
                assert_eq!(function, GcFunction::Xor);
                let img = self.images.get_mut(&self.attached.unwrap()).unwrap();
                for y in 0..rect.extent.height as i32 {
                    for x in 0..rect.extent.width as i32 {
                        let o = img.at(rect.offset.x + x, rect.offset.y + y);
                        img.bytes[o] ^= pixel.b;
                        img.bytes[o + 1] ^= pixel.g;
                        img.bytes[o + 2] ^= pixel.r;
                        if !opaque_alpha {
                            img.bytes[o + 3] ^= pixel.a;
                        }
                    }
                }
            }
            Command::ClearSolid { slot, solid } => {
                let i = if slot == Slot::Src { 0 } else { 1 };
                self.solid[i] = Gpu::color(solid);
            }
            Command::Snapshot { of, image, layout, extent, .. } => {
                let img = self.images[&image].clone();
                assert_eq!(img.layout, layout, "snapshot layout");
                assert_eq!((img.w, img.h), (extent.width, extent.height));
                self.snapshots += 1;
                match of {
                    SnapshotKind::Alias => self.alias = Some(img),
                    SnapshotKind::Readback => self.readback = Some(img),
                }
            }
            Command::OpenComposite { image, old, pipeline, .. } => {
                let img = self.images.get_mut(&image).unwrap();
                assert!(old == Layout::Undefined || img.layout == old, "stale layout");
                img.layout = Layout::ColorAttachment;
                self.attached = Some(image);
                self.pipeline = Some(pipeline);
            }
            Command::CompositeDraw { descriptor, attrs, quad, scissor, .. } => {
                let (src, mask) = self.descriptors[&descriptor];
                let key = self.pipeline.unwrap();
                let target = self.attached.unwrap();
                for dy in 0..quad.height as i32 {
                    for dx in 0..quad.width as i32 {
                        let (x, y) = (quad.dst_x + dx, quad.dst_y + dy);
                        if !Gpu::inside(scissor, x, y) || !self.images[&target].holds(x, y) {
                            continue;
                        }
                        let mut s = self.sample(
                            src,
                            0,
                            attrs.src_repeat,
                            quad.src_x + dx,
                            quad.src_y + dy,
                        );
                        if attrs.src_force_opaque {
                            s[3] = 1.0;
                        }
                        let m = match mask {
                            Some(b) => self.sample(
                                b,
                                1,
                                attrs.mask_repeat,
                                quad.mask_x + dx,
                                quad.mask_y + dy,
                            ),
                            None => {
                                let img = &self.images[&self.mask];
                                let (mx, my) = (quad.mask_x + dx, quad.mask_y + dy);
                                if img.holds(mx, my) {
                                    img.get(mx, my)
                                } else {
                                    [0.0; 4]
                                }
                            }
                        };
                        let d = self.images[&target].get(x, y);
                        let s = s.map(|v| v * m[3]);
                        let mut out = [0.0f32; 4];
                        for k in 0..4 {
                            out[k] = match key.op {
                                0 | 16 => 0.0,
                                1 => s[k],
                                3 => s[k] + d[k] * (1.0 - s[3]),
                                op => panic!("operator {op}"),
                            };
                        }
                        if !key.dst_has_alpha {
                            out[3] = 1.0;
                        }
                        self.images.get_mut(&target).unwrap().put(x, y, out);
                    }
                }
            }
            Command::CloseComposite { image } => {
                assert_eq!(self.attached, Some(image));
                self.images.get_mut(&image).unwrap().layout = Layout::ShaderReadOnly;
                self.attached = None;
            }
            Command::UploadGlyph { buffer, atlas_x, atlas_y, w, h } => {
                let bytes = self.buffers[&buffer].clone();
                for y in 0..h as usize {
                    for x in 0..w as usize {
                        let o = (atlas_y as usize + y) * self.atlas.w as usize
                            + atlas_x as usize
                            + x;
                        self.atlas.bytes[o] = bytes[y * w as usize + x];
                    }
                }
            }
            Command::OpenText { image, old, foreground, .. } => {
                let img = self.images.get_mut(&image).unwrap();
                assert!(old == Layout::Undefined || img.layout == old, "stale layout");
                img.layout = Layout::ColorAttachment;
                self.attached = Some(image);
                self.foreground = Gpu::color(foreground);
            }
            Command::GlyphQuad { glyph, scissor } => {
                let target = self.attached.unwrap();
                for dy in 0..glyph.h as i32 {
                    for dx in 0..glyph.w as i32 {
                        let (x, y) = (glyph.dst_x + dx, glyph.dst_y + dy);
                        if !Gpu::inside(scissor, x, y) || !self.images[&target].holds(x, y) {
                            continue;
                        }
                        let a = self
                            .atlas
                            .get(glyph.atlas_x as i32 + dx, glyph.atlas_y as i32 + dy)[3];
                        let d = self.images[&target].get(x, y);
                        let mut out = [0.0f32; 4];
                        for k in 0..4 {
                            out[k] = self.foreground[k] * a
                                + d[k] * (1.0 - self.foreground[3] * a);
                        }
                        self.images.get_mut(&target).unwrap().put(x, y, out);
                    }
                }
            }
            Command::CloseText { image } => {
                assert_eq!(self.attached, Some(image));
                self.images.get_mut(&image).unwrap().layout = Layout::ShaderReadOnly;
                self.attached = None;
            }
            Command::BeginMask { image, .. } => {
                let img = self.images.get_mut(&image).unwrap();
                assert_eq!(img.layout, Layout::ColorAttachment);
                img.bytes.fill(0);
                self.attached = Some(image);
            }
            Command::TrapDraw { kind, count, bbox, .. } => {
                assert_eq!(kind, TrapPrimKind::Trapezoid);
                assert_eq!(count, 1);
                let img = self.images.get_mut(&self.attached.unwrap()).unwrap();
                for y in 0..bbox.extent.height as i32 {
                    for x in 0..bbox.extent.width as i32 {
                        let o = img.at(x, y);
                        img.bytes[o] = 0xFF;
                    }
                }
            }
        }
    }

    fn submit(&mut self, cbs: &[u64], ticket: u64) -> Result<(), i32> {
        if self.fail_submit {
            self.fail_submit = false;
            return Err(DEVICE_LOST);
        }
        for cb in cbs {
            for c in self.cbs[cb].clone() {
                self.exec(c);
            }
        }
        self.signaled.push(ticket);
        Ok(())
    }
}

struct World {
    engine: RenderEngine,
    store: DrawableStore,
    group: SubmitGroup,
    gpu: Gpu,
    in_frame: bool,
    chores: Vec<Chore>,
}

impl World {
    fn new(max_size: usize) -> World {
        World::with_atlas(max_size, 64)
    }

    fn with_atlas(max_size: usize, side: u32) -> World {
        World {
            engine: RenderEngine::new(true),
            store: DrawableStore::new(),
            group: SubmitGroup::new(max_size),
            gpu: Gpu::new(side),
            in_frame: true,
            chores: Vec::new(),
        }
    }

    fn pixmap(&mut self, xid: u32, w: u32, h: u32, depth: u8) -> usize {
        let image = self.gpu.handle();
        let bpp = if depth == 24 || depth == 32 { 4 } else { 1 };
        self.gpu.images.insert(image, Img::new(w, h, bpp));
        self.store.allocate(Drawable {
            xid,
            depth,
            format: if bpp == 4 {
                Format::B8G8R8A8Unorm
            } else {
                Format::R8Unorm
            },
            extent: Extent { width: w, height: h },
            image,
            view: image,
            layout: Layout::Undefined,
            last_render_ticket: None,
        })
    }

    fn filled(&mut self, xid: u32, w: u32, h: u32, c: Rgba) -> usize {
        let id = self.pixmap(xid, w, h, 32);
        self.fill(id, rect(0, 0, w, h), c).expect("pre-fill");
        id
    }

    fn group_ticket(&self, fresh: u64) -> u64 {
        self.group.ticket.unwrap_or(fresh)
    }

    fn record(&mut self, cb: u64, commands: &[Command]) {
        self.gpu.cbs.entry(cb).or_default().extend_from_slice(commands);
    }

    fn submit_with(&mut self, cb: Option<u64>, fresh: u64) -> Result<(), i32> {
        let mut list = self.group.entries.clone();
        list.extend(cb);
        let ticket = self.group_ticket(fresh);
        self.gpu.submit(&list, ticket)
    }

    fn paint(&mut self, commands: &[Command]) -> PaintReply {
        let cb = self.gpu.handle();
        let fresh = self.gpu.handle();
        self.record(cb, commands);
        let submit = if self.group.fills_with_one_more() {
            self.submit_with(Some(cb), fresh)
        } else {
            Ok(())
        };
        PaintReply::Recorded { cb, fresh, end: Ok(()), submit }
    }

    fn staging(&mut self, bytes: Vec<u8>) -> Staging {
        let buffer = self.gpu.handle();
        let size = bytes.len() as u64;
        self.gpu.buffers.insert(buffer, bytes);
        Staging { buffer, size }
    }

    fn flush_cow(&mut self) -> Result<Option<u32>, RenderError> {
        let mut reply = CowFlushReply {
            signal: Ok(0),
            end: Ok(()),
            submit: Ok(()),
            export: Ok(None),
        };
        if let Some(plan) = self.engine.flush_cow_batch_plan(&self.store, &self.group) {
            self.record(plan.cb, &plan.commands);
            if plan.wants_signal {
                reply.signal = Ok(self.gpu.handle());
                reply.export = Ok(Some(7));
            }
            if plan.wants_signal || self.group.fills_with_one_more() {
                reply.submit = self.submit_with(Some(plan.cb), 0);
            }
        }
        self.engine.flush_cow_batch(&mut self.store, &mut self.group, reply)
    }

    fn flush_render(&mut self) -> Result<Option<u32>, RenderError> {
        let mut reply = RenderFlushReply { end: Ok(()), submit: Ok(()) };
        if let Some((cb, close)) = self.engine.flush_render_batch_plan(&self.store, &self.group) {
            self.record(cb, &[close]);
            if self.group.fills_with_one_more() {
                reply.submit = self.submit_with(Some(cb), 0);
            }
        }
        self.engine.flush_render_batch(&mut self.store, &mut self.group, reply)
    }

    fn close(&mut self, reason: CloseReason) -> Result<CloseOutcome, RenderError> {
        let mut reply = CloseReply {
            begin: Ok(0),
            record: Ok(()),
            end: Ok(()),
            submit: Ok(()),
        };
        if let Some(Ok(commands)) = self.engine.close_open_frame_plan(&self.store) {
            let cb = self.gpu.handle();
            reply.begin = Ok(cb);
            self.record(cb, &commands);
            reply.submit = self.submit_with(Some(cb), 0);
        }
        self.engine
            .close_open_frame(&mut self.store, &mut self.group, reason, reply)
    }

    fn flush_group(&mut self, reason: FlushReason) -> Result<(), i32> {
        let submit = if self.group.size() > 0 {
            self.submit_with(None, 0)
        } else {
            Ok(())
        };
        self.engine.flush_submit_group(&mut self.group, reason, submit)
    }

    fn chore(&mut self, c: Chore) -> Result<(), RenderError> {
        self.chores.push(c);
        match c {
            Chore::FlushCow => self.flush_cow().map(|_| ()),
            Chore::FlushRender => self.flush_render().map(|_| ()),
            Chore::CloseFrame(reason) => self.close(reason).map(|_| ()),
            Chore::FlushGroup(reason) => self.flush_group(reason).map_err(RenderError::Vk),
            Chore::Build(asset) => {
                self.engine.asset_built(asset);
                Ok(())
            }
        }
    }

    fn drain(&mut self) {
        let submit = if self.group.size() > 0 {
            self.submit_with(None, 0)
        } else {
            Ok(())
        };
        self.engine.drain_all(&mut self.group, submit);
    }

    fn fill(&mut self, id: usize, r: Rect, c: Rgba) -> Result<(), RenderError> {
        self.fill_batch(id, &[r], c)
    }

    fn fill_batch(&mut self, id: usize, rects: &[Rect], c: Rgba) -> Result<(), RenderError> {
        let rects = rects.to_vec();
        loop {
            let plan = self.engine.fill_rect_batch_plan(
                &self.store,
                &self.group,
                id,
                bits(c),
                &rects,
            );
            let reply = match plan {
                Decision::Chore(x) => {
                    self.chore(x)?;
                    continue;
                }
                Decision::Done(_) => PaintReply::Failed(RenderError::NoVk),
                Decision::Paint(p) => self.paint(&p.commands),
            };
            let step = self.engine.fill_rect_batch(
                &mut self.store,
                &mut self.group,
                id,
                bits(c),
                &rects,
                reply,
            );
            match step {
                Step::Chore(x) => panic!("chore {x:?} after the plan"),
                Step::Done(r) => return r,
            }
        }
    }

    fn logic_fill(
        &mut self,
        id: usize,
        function: GcFunction,
        opaque: bool,
        fg: u32,
        rects: &[Rectangle16],
    ) -> Result<(), RenderError> {
        let rects = rects.to_vec();
        loop {
            let plan = self.engine.logic_fill_plan(
                &self.store,
                &self.group,
                id,
                function,
                opaque,
                fg,
                &rects,
            );
            let reply = match plan {
                Decision::Chore(x) => {
                    self.chore(x)?;
                    continue;
                }
                Decision::Done(_) => PaintReply::Failed(RenderError::NoVk),
                Decision::Paint(p) => self.paint(&p.commands),
            };
            let step = self.engine.logic_fill(
                &mut self.store,
                &mut self.group,
                id,
                function,
                opaque,
                fg,
                &rects,
                reply,
            );
            match step {
                Step::Chore(x) => panic!("chore {x:?} after the plan"),
                Step::Done(r) => return r,
            }
        }
    }

    fn put(
        &mut self,
        id: usize,
        pos: Offset,
        size: Extent,
        bytes: &[u8],
        depth: u8,
    ) -> Result<(), RenderError> {
        loop {
            let plan =
                self.engine
                    .put_image_plan(&self.store, &self.group, id, pos, size, bytes, depth);
            let reply = match plan {
                Decision::Chore(x) => {
                    self.chore(x)?;
                    continue;
                }
                Decision::Done(_) => PutReply {
                    staging: Err(DEVICE_LOST),
                    paint: PaintReply::Failed(RenderError::NoVk),
                },
                Decision::Paint(p) => {
                    assert_eq!(p.bytes.len() as u64, p.staging_size);
                    let staging = self.staging(p.bytes);
                    let d = self.store.get(id).unwrap();
                    let commands = record_put(&d, staging.buffer, p.rect);
                    PutReply {
                        staging: Ok(staging),
                        paint: self.paint(&commands),
                    }
                }
            };
            let step = self.engine.put_image(
                &mut self.store,
                &mut self.group,
                id,
                pos,
                size,
                bytes,
                depth,
                reply,
            );
            match step {
                Step::Chore(x) => panic!("chore {x:?} after the plan"),
                Step::Done(r) => return r,
            }
        }
    }

    fn get(&mut self, id: usize, r: Rect, depth: u8) -> Result<Vec<u8>, RenderError> {
        loop {
            let plan = self.engine.get_image_plan(&self.store, &self.group, id, r, depth);
            let reply = match plan {
                Decision::Chore(x) => {
                    self.chore(x)?;
                    continue;
                }
                Decision::Done(_) => GetReply::Failed(RenderError::NoVk),
                Decision::Paint(p) => {
                    let staging = self.staging(vec![0; p.staging_size as usize]);
                    let d = self.store.get(id).unwrap();
                    let commands = record_get(&d, staging.buffer, p.rect);
                    let cb = self.gpu.handle();
                    let fresh = self.gpu.handle();
                    self.record(cb, &commands);
                    let submit = self.submit_with(Some(cb), fresh);
                    GetReply::Recorded {
                        staging,
                        cb,
                        fresh,
                        end: Ok(()),
                        submit,
                        wait: Ok(()),
                        bytes: self.gpu.buffers[&staging.buffer].clone(),
                    }
                }
            };
            let step =
                self.engine
                    .get_image(&mut self.store, &mut self.group, id, r, depth, reply);
            match step {
                Step::Chore(x) => panic!("chore {x:?} after the plan"),
                Step::Done(r) => return r,
            }
        }
    }

    fn whole(&mut self, id: usize) -> Vec<u8> {
        let e = self.store.get(id).unwrap().extent;
        self.get(id, rect(0, 0, e.width, e.height), 32).expect("get_image")
    }

    fn copy(&mut self, src: usize, dst: usize, r: Rect, pos: Offset) -> Result<(), RenderError> {
        loop {
            let plan = self
                .engine
                .copy_area_plan(&self.store, &self.group, src, dst, r, pos);
            let mut reply = CopyReply {
                scratch: Err(RenderError::NoVk),
                fresh: Err(DEVICE_LOST),
            };
            match plan {
                Decision::Chore(x) => {
                    self.chore(x)?;
                    continue;
                }
                Decision::Done(_) => {}
                Decision::Paint(c) => {
                    if src == dst {
                        let image = self.gpu.handle();
                        let e = c.dst_rect.extent;
                        self.gpu.images.insert(image, Img::new(e.width, e.height, 4));
                        reply.scratch = Ok(ScratchImage {
                            image,
                            size_bytes: u64::from(e.width) * u64::from(e.height) * 4,
                        });
                    }
                    if self.engine.wants_ticket(&self.group) {
                        reply.fresh = Ok(self.gpu.handle());
                    }
                }
            }
            let step = self.engine.copy_area(
                &mut self.store,
                &mut self.group,
                src,
                dst,
                r,
                pos,
                reply,
            );
            match step {
                Step::Chore(x) => panic!("chore {x:?} after the plan"),
                Step::Done(r) => return r,
            }
        }
    }

    fn cow_copy(&mut self, cow: usize, src: usize, r: Rect, pos: Offset) -> Result<(), RenderError> {
        loop {
            let plan = self
                .engine
                .cow_copy_area_plan(&self.store, &self.group, cow, src, r, pos);
            let mut reply = BatchReply::Failed(RenderError::NoVk);
            match plan {
                Decision::Chore(x) => {
                    self.chore(x)?;
                    continue;
                }
                Decision::Done(_) => {}
                Decision::Paint(p) => {
                    let cb = match p.cb {
                        Some(cb) => cb,
                        None => {
                            let cb = self.gpu.handle();
                            reply = BatchReply::Begun { cb, fresh: self.gpu.handle() };
                            cb
                        }
                    };
                    self.record(cb, &p.commands);
                }
            }
            let step = self.engine.cow_copy_area(
                &mut self.store,
                &mut self.group,
                cow,
                src,
                r,
                pos,
                reply,
            );
            match step {
                Step::Chore(x) => panic!("chore {x:?} after the plan"),
                Step::Done(r) => return r,
            }
        }
    }

    fn describe(&mut self, src: Binding, mask: Option<Binding>) -> u64 {
        let d = self.gpu.handle();
        self.gpu.descriptors.insert(d, (src, mask));
        d
    }

    fn direct_reply(&mut self, req: &CompositeRequest, plan: DirectPlan) -> DirectReply {
        let mut reply = no_direct_reply();
        match plan {
            DirectPlan::Batch(p) => {
                let descriptor = self.describe(p.src, Some(p.mask));
                let commands = self.engine.batch_append_commands(req, &p, descriptor);
                let mut begin = BatchReply::Failed(RenderError::NoVk);
                let cb = match &self.engine.render_batch {
                    Some(b) => b.cb,
                    None => {
                        let cb = self.gpu.handle();
                        begin = BatchReply::Begun { cb, fresh: self.gpu.handle() };
                        cb
                    }
                };
                self.record(cb, &commands);
                reply.batch = BatchAppendReply::Described {
                    descriptor: Ok(descriptor),
                    begin,
                };
            }
            DirectPlan::Own(p) => reply.own = self.own_reply(req, &p),
        }
        reply
    }

    fn own_reply(&mut self, req: &CompositeRequest, p: &CompositePlan) -> CompositeReply {
        let descriptor = self.describe(p.src, Some(p.mask));
        let paint = match self.engine.own_composite_commands(req, p, descriptor) {
            None => PaintReply::Failed(RenderError::NoVk),
            Some(commands) => self.paint(&commands),
        };
        CompositeReply::Described {
            descriptor: Ok(descriptor),
            paint,
        }
    }

    fn composite(&mut self, req: &CompositeRequest) -> Result<CompositeStats, RenderError> {
        self.composite_fitting(req, SnapshotFits { alias: true, readback: true })
    }

    fn composite_fitting(
        &mut self,
        req: &CompositeRequest,
        fits: SnapshotFits,
    ) -> Result<CompositeStats, RenderError> {
        loop {
            let mut reply = RenderReply {
                direct: no_direct_reply(),
                deferred: no_deferred_reply(),
            };
            if self.in_frame {
                let plan = self.engine.render_composite_via_frame_builder_plan(
                    &self.store,
                    &self.group,
                    req,
                    fits,
                );
                match plan {
                    Decision::Chore(x) => {
                        self.chore(x)?;
                        continue;
                    }
                    Decision::Done(_) => {}
                    Decision::Paint(d) => {
                        let old = self.gpu.handle();
                        reply.deferred.readback_grow = Ok(Some(old));
                        reply.deferred.alias_grow = Ok(Some(old + 1));
                        self.gpu.next += 1;
                        let fresh = self.gpu.handle();
                        reply.deferred.fresh = Ok(fresh);
                        let plan = self.engine.plan_composite(&self.store, req, d);
                        if let Ok(Some(p)) = plan {
                            reply.deferred.descriptor = Ok(self.describe(p.src, Some(p.mask)));
                        }
                    }
                }
            } else {
                match self
                    .engine
                    .render_composite_direct_plan(&self.store, &self.group, req)
                {
                    Decision::Chore(x) => {
                        self.chore(x)?;
                        continue;
                    }
                    Decision::Done(_) => {}
                    Decision::Paint(p) => reply.direct = self.direct_reply(req, p),
                }
            }
            let step = self.engine.render_composite(
                &mut self.store,
                &mut self.group,
                self.in_frame,
                again(req),
                fits,
                reply,
            );
            match step {
                Step::Chore(x) => panic!("chore {x:?} after the plan"),
                Step::Done(r) => return r,
            }
        }
    }

    fn text(
        &mut self,
        id: usize,
        fg: Rgba,
        glyphs: &[GlyphImage],
    ) -> Result<ImageTextStats, RenderError> {
        let d = loop {
            match self
                .engine
                .image_text_plan(&self.store, &self.group, id, glyphs.len())
            {
                Decision::Chore(x) => self.chore(x)?,
                Decision::Done(r) => return r,
                Decision::Paint(d) => break d,
            }
        };
        let run = self.glyph_run(glyphs)?;
        let reply = match self.engine.text_run_commands(&d, bits(fg), &run, &None) {
            Some(commands) => self.paint(&commands),
            None => PaintReply::Failed(RenderError::NoVk),
        };
        self.engine
            .image_text(&mut self.store, &mut self.group, id, &run, reply)
    }

    fn glyph_run(&mut self, glyphs: &[GlyphImage]) -> Result<TextRun, RenderError> {
        let mut run = TextRun::new();
        for g in glyphs {
            let mut reply = GlyphReply::Full;
            if self.engine.glyph_entry(g.key).is_none() {
                if let Some((atlas_x, atlas_y)) = self.gpu.pack(g.w, g.h) {
                    let staging = self.staging(g.pixels.clone());
                    let cb = self.gpu.handle();
                    let fresh = self.gpu.handle();
                    self.record(
                        cb,
                        &[Command::UploadGlyph {
                            buffer: staging.buffer,
                            atlas_x,
                            atlas_y,
                            w: g.w,
                            h: g.h,
                        }],
                    );
                    reply = GlyphReply::Packed {
                        atlas_x,
                        atlas_y,
                        upload: UploadReply::Staged { staging, cb: Ok(cb), fresh, end: Ok(()) },
                    };
                }
            }
            self.engine.text_glyph(&mut self.group, &mut run, g, reply);
        }
        Ok(run)
    }

    fn glyphs_direct(
        &mut self,
        id: usize,
        fg: Rgba,
        glyphs: &[GlyphImage],
        clip: Option<Vec<Rectangle16>>,
    ) -> Result<ImageTextStats, RenderError> {
        let d = loop {
            match self.engine.composite_glyphs_direct_plan(
                &self.store,
                &self.group,
                id,
                glyphs.len(),
            ) {
                Decision::Chore(x) => self.chore(x)?,
                Decision::Done(r) => return r,
                Decision::Paint(d) => break d,
            }
        };
        let run = self.glyph_run(glyphs)?;
        let reply = match self.engine.text_run_commands(&d, bits(fg), &run, &clip) {
            Some(commands) => self.paint(&commands),
            None => PaintReply::Failed(RenderError::NoVk),
        };
        self.engine.composite_glyphs_direct(
            &mut self.store,
            &mut self.group,
            id,
            &d,
            &run,
            &clip,
            reply,
        )
    }

    fn glyphs(
        &mut self,
        id: usize,
        fg: Rgba,
        glyphs: Vec<GlyphImage>,
        clip: Option<Vec<Rectangle16>>,
        ceiling: usize,
    ) -> Result<ImageTextStats, RenderError> {
        let mut reopened = false;
        let d = loop {
            let fresh = Ok(self.gpu.handle());
            match self.engine.composite_glyphs_begin(
                &mut self.store,
                &mut self.group,
                id,
                &glyphs,
                ceiling,
                reopened,
                fresh,
            ) {
                GlyphsBegin::Chore(x) => self.chore(x)?,
                GlyphsBegin::Done(r) => return r,
                GlyphsBegin::Ceiling => {
                    self.chore(Chore::CloseFrame(CloseReason::PinCeiling))?;
                    reopened = true;
                }
                GlyphsBegin::Ready(d) => break d,
            }
        };
        let mut run = FrameRun::new();
        for g in &glyphs {
            let mut reply = PackReply::Full;
            if self.engine.frame_glyph_need(&run, g, ceiling) == GlyphNeed::Upload {
                if let Some((atlas_x, atlas_y)) = self.gpu.pack(g.w, g.h) {
                    let staging = Ok(self.staging(g.pixels.clone()));
                    reply = PackReply::Packed { atlas_x, atlas_y, staging };
                }
            }
            self.engine.frame_glyph(&mut run, g, ceiling, reply);
        }
        Ok(self
            .engine
            .composite_glyphs_via_frame_builder(&mut self.store, id, &d, bits(fg), run, &clip))
    }

    fn traps(&mut self, req: &TrapRequest) -> Result<CompositeStats, RenderError> {
        loop {
            let mut reply = TrapReply {
                staging: Err(DEVICE_LOST),
                mask_grow: Ok(None),
                old_readback: None,
                composite: CompositeReply::Skipped,
            };
            match self
                .engine
                .render_traps_or_tris_plan(&self.store, &self.group, req)
            {
                Decision::Chore(x) => {
                    self.chore(x)?;
                    continue;
                }
                Decision::Done(_) => {}
                Decision::Paint(d) => {
                    let staging = self.staging(vec![0; 40]);
                    reply.staging = Ok(staging);
                    let image = self.gpu.handle();
                    let e = req.bbox.extent;
                    self.gpu.images.insert(image, Img::new(e.width, e.height, 1));
                    self.gpu.mask = image;
                    let mask = MaskImage {
                        image,
                        attachment_view: image,
                        extent: e,
                        layout: Layout::Undefined,
                    };
                    if let Resolution::Bound(src) = self.engine.trap_binding(&self.store, req) {
                        let descriptor = self.describe(src, None);
                        let paint = match self.engine.trap_run_commands(
                            &self.store,
                            req,
                            &d,
                            src,
                            &mask,
                            staging.buffer,
                            descriptor,
                        ) {
                            None => PaintReply::Failed(RenderError::NoVk),
                            Some(commands) => self.paint(&commands),
                        };
                        reply.composite = CompositeReply::Described {
                            descriptor: Ok(descriptor),
                            paint,
                        };
                    }
                }
            }
            let step =
                self.engine
                    .render_traps_or_tris(&mut self.store, &mut self.group, req, reply);
            match step {
                Step::Chore(x) => panic!("chore {x:?} after the plan"),
                Step::Done(r) => return r,
            }
        }
    }
}

fn no_direct_reply() -> DirectReply {
    DirectReply {
        batch: BatchAppendReply::Unavailable(RenderError::NoVk),
        old_alias: None,
        old_readback: None,
        own: CompositeReply::Unavailable(RenderError::NoVk),
    }
}

fn no_deferred_reply() -> DeferredReply {
    DeferredReply {
        readback_grow: Ok(None),
        alias_grow: Ok(None),
        fresh: Err(DEVICE_LOST),
        alias_view: true,
        readback_view: true,
        src_view: Ok(()),
        mask_view: Ok(()),
        descriptor: Err(RenderError::NoVk),
    }
}

fn rect(x: i32, y: i32, width: u32, height: u32) -> Rect {
    Rect {
        offset: Offset { x, y },
        extent: Extent { width, height },
    }
}

fn bits(c: Rgba) -> Color {
    Color {
        r: c[0].to_bits(),
        g: c[1].to_bits(),
        b: c[2].to_bits(),
        a: c[3].to_bits(),
    }
}

fn rgba(pixel: u32) -> Rgba {
    let c = decode_x11_pixel_bgra(pixel);
    [c.r, c.g, c.b, c.a].map(|v| f32::from(v) / 255.0)
}

fn quad(x: i32, y: i32, width: u32, height: u32) -> CompositeRect {
    CompositeRect {
        src_x: 0,
        src_y: 0,
        mask_x: 0,
        mask_y: 0,
        dst_x: x,
        dst_y: y,
        width,
        height,
    }
}

fn request(op: u8, src: ResolvedSource, dst: usize, rects: Vec<CompositeRect>) -> CompositeRequest {
    CompositeRequest {
        op,
        src,
        mask: ResolvedSource::Absent,
        dst,
        rects,
        clip: None,
        src_repeat: Repeat::Off,
        mask_repeat: Repeat::Off,
        src_transform: None,
        mask_transform: None,
        component_alpha: false,
        src_format: PictFormat::Unspecified,
        mask_format: PictFormat::Unspecified,
        dst_format: PictFormat::Unspecified,
    }
}

fn again(r: &CompositeRequest) -> CompositeRequest {
    CompositeRequest {
        op: r.op,
        src: r.src,
        mask: r.mask,
        dst: r.dst,
        rects: r.rects.clone(),
        clip: r.clip.clone(),
        src_repeat: r.src_repeat,
        mask_repeat: r.mask_repeat,
        src_transform: r.src_transform,
        mask_transform: r.mask_transform,
        component_alpha: r.component_alpha,
        src_format: r.src_format,
        mask_format: r.mask_format,
        dst_format: r.dst_format,
    }
}

fn glyph(font_xid: u32, codepoint: u32, dst_x: i32, dst_y: i32, w: u32, h: u32) -> GlyphImage {
    GlyphImage {
        key: GlyphKey { font_xid, codepoint },
        w,
        h,
        pixels: vec![0xFF; w as usize * h as usize],
        dst_x,
        dst_y,
    }
}

fn trap(op: u8, src: ResolvedSource, dst: usize, bbox: Rect) -> TrapRequest {
    TrapRequest {
        op,
        src,
        dst,
        kind: TrapPrimKind::Trapezoid,
        count: 1,
        bbox,
        clip: None,
        src_repeat: Repeat::Off,
        src_transform: None,
        src_format: PictFormat::Unspecified,
        dst_format: PictFormat::Unspecified,
    }
}

const RED: Rgba = [1.0, 0.0, 0.0, 1.0];
const GREEN: Rgba = [0.0, 1.0, 0.0, 1.0];
const BLUE: Rgba = [0.0, 0.0, 1.0, 1.0];
const BLACK: Rgba = [0.0, 0.0, 0.0, 1.0];

// Without a device.

#[test]
fn close_open_frame_with_no_open_frame_returns_already_closed() {
    let mut engine = RenderEngine::stub();
    let mut store = DrawableStore::new();
    let mut group = SubmitGroup::new(16);
    let out = engine
        .close_open_frame(
            &mut store,
            &mut group,
            CloseReason::Shutdown,
            CloseReply {
                begin: Ok(1),
                record: Ok(()),
                end: Ok(()),
                submit: Ok(()),
            },
        )
        .expect("close on a closed frame must Ok");
    assert!(matches!(out, CloseOutcome::AlreadyClosed));
}

#[test]
fn stub_engine_declines_paint_ops() {
    let mut w = World::new(16);
    w.engine = RenderEngine::stub();
    let id = w.pixmap(0x1, 4, 4, 32);
    let err = w
        .fill(id, rect(0, 0, 4, 4), [1.0, 0.0, 0.0, 1.0])
        .expect_err("stub engine must reject");
    assert!(matches!(err, RenderError::NoVk));
    assert!(!w.engine.is_live());
}

#[test]
fn stub_engine_declines_every_other_op() {
    let mut w = World::new(16);
    w.engine = RenderEngine::stub();
    let id = w.pixmap(0x1, 4, 4, 32);
    let other = w.pixmap(0x2, 4, 4, 32);
    let whole = rect(0, 0, 4, 4);
    let at = Offset { x: 0, y: 0 };
    let r16 = Rectangle16 { x: 0, y: 0, width: 4, height: 4 };
    assert_eq!(w.logic_fill(id, GcFunction::Xor, true, 0, &[r16]), Err(RenderError::NoVk));
    assert_eq!(w.copy(id, other, whole, at), Err(RenderError::NoVk));
    assert_eq!(w.cow_copy(id, other, whole, at), Err(RenderError::NoVk));
    assert_eq!(
        w.put(id, at, Extent { width: 1, height: 1 }, &[0; 4], 32),
        Err(RenderError::NoVk)
    );
    assert_eq!(w.get(id, whole, 32), Err(RenderError::NoVk));
    assert_eq!(w.text(id, RED, &[glyph(1, 1, 0, 0, 1, 1)]), Err(RenderError::NoVk));
    let req = request(OP_OVER, ResolvedSource::Solid(bits(RED)), id, vec![quad(0, 0, 1, 1)]);
    assert_eq!(w.composite(&req), Err(RenderError::NoVk));
    w.in_frame = false;
    assert_eq!(w.composite(&req), Err(RenderError::NoVk));
    let t = trap(OP_OVER, ResolvedSource::Solid(bits(RED)), id, rect(0, 0, 2, 2));
    assert_eq!(w.traps(&t), Err(RenderError::NoVk));
    assert_eq!(w.engine.acquire_descriptor_set_for_frame_or_op(), Err(-3));
    assert_eq!(w.engine.pending_count(), 0);
}

// Uploads, readbacks and fills.

#[test]
fn depth32_put_image_get_image_round_trip() {
    let mut w = World::new(16);
    let id = w.pixmap(0x1, 8, 8, 32);
    let mut src = vec![0u8; 8 * 8 * 4];
    for y in 0..8 {
        for x in 0..8 {
            let off = (y * 8 + x) * 4;
            src[off] = (x * 32) as u8;
            src[off + 1] = (y * 32) as u8;
            src[off + 2] = ((x + y) * 16) as u8;
            src[off + 3] = 0xFF;
        }
    }
    w.put(id, Offset { x: 0, y: 0 }, Extent { width: 8, height: 8 }, &src, 32)
        .expect("put_image");
    let out = w.get(id, rect(0, 0, 8, 8), 32).expect("get_image");
    assert_eq!(out, src, "depth-32 round-trip must be byte-identical");
    w.drain();
    assert_eq!(w.engine.pending_count(), 0);
}

#[test]
fn depth8_and_depth1_round_trip() {
    let mut w = World::new(16);
    let id = w.pixmap(0x1, 5, 2, 8);
    let src = vec![1u8, 2, 3, 4, 5, 0, 0, 0, 6, 7, 8, 9, 10, 0, 0, 0];
    w.put(id, Offset { x: 0, y: 0 }, Extent { width: 5, height: 2 }, &src, 8)
        .unwrap();
    assert_eq!(w.get(id, rect(0, 0, 5, 2), 8).unwrap(), src);
    let bitmap = w.pixmap(0x2, 10, 1, 1);
    let src = vec![0b1010_0101u8, 0b10, 0, 0];
    w.put(bitmap, Offset { x: 0, y: 0 }, Extent { width: 10, height: 1 }, &src, 1)
        .unwrap();
    assert_eq!(w.get(bitmap, rect(0, 0, 10, 1), 1).unwrap(), src);
}

#[test]
fn put_image_reports_its_errors() {
    let mut w = World::new(16);
    let id = w.pixmap(0x1, 4, 4, 32);
    let at = Offset { x: 0, y: 0 };
    let one = Extent { width: 1, height: 1 };
    assert_eq!(w.put(id, at, one, &[0; 4], 16), Err(RenderError::UnsupportedDepth(16)));
    assert_eq!(w.put(id, at, one, &[0; 4], 8), Err(RenderError::UnsupportedDepth(8)));
    assert_eq!(w.put(9, at, one, &[0; 4], 32), Err(RenderError::UnknownDrawable(9)));
    assert_eq!(
        w.put(id, at, one, &[0; 3], 32),
        Err(RenderError::TruncatedSource { expected: 4 })
    );
    assert_eq!(w.put(id, at, Extent { width: 0, height: 9 }, &[], 32), Ok(()));
    assert_eq!(w.put(id, Offset { x: 4, y: 0 }, one, &[0; 4], 32), Ok(()));
    assert_eq!(w.engine.pending_group_ops_count_for_tests(), 0);
    assert!(w.engine.drain_released().is_empty(), "nothing was allocated");
    w.group.renderer_failed = true;
    assert_eq!(w.put(id, at, one, &[0; 4], 32), Err(RenderError::RendererFailed));
}

#[test]
fn an_upload_needs_every_scanline_of_its_source() {
    let mut w = World::new(16);
    let id = w.pixmap(0x1, 1, 1, 8);
    let tall = Extent { width: 1, height: 2 };
    let short = Err(RenderError::TruncatedSource { expected: 8 });
    assert_eq!(w.put(id, Offset { x: 0, y: 0 }, tall, &[1, 0, 0, 0], 8), short);
    assert_eq!(w.put(id, Offset { x: 5, y: 5 }, tall, &[1; 7], 8), short);
    assert_eq!(w.store.get(id).unwrap().layout, Layout::Undefined);
    assert_eq!(w.store.get(id).unwrap().last_render_ticket, None);
    assert!(w.store.damage.is_empty());
    assert_eq!(w.group.size(), 0);
    assert_eq!(w.put(id, Offset { x: 0, y: 0 }, tall, &[1; 8], 8), Ok(()));
}

#[test]
fn put_image_clips_to_the_drawable() {
    let mut w = World::new(16);
    let id = w.filled(0x1, 4, 4, BLACK);
    let src: Vec<u8> = (0..3 * 3).flat_map(|i| [i as u8, 0, 0, 0xFF]).collect();
    w.put(id, Offset { x: -1, y: 3 }, Extent { width: 3, height: 3 }, &src, 32)
        .unwrap();
    let out = w.whole(id);
    assert_eq!(&out[(3 * 4) * 4..(3 * 4 + 2) * 4], &[1, 0, 0, 0xFF, 2, 0, 0, 0xFF]);
    assert_eq!(w.store.damage.last(), Some(&(id, rect(0, 3, 2, 1))));
}

#[test]
fn get_image_reports_its_errors() {
    let mut w = World::new(16);
    let id = w.pixmap(0x1, 4, 4, 32);
    assert_eq!(w.get(id, rect(0, 0, 1, 1), 3), Err(RenderError::UnsupportedDepth(3)));
    assert_eq!(w.get(5, rect(0, 0, 1, 1), 32), Err(RenderError::UnknownDrawable(5)));
    assert_eq!(w.get(id, rect(9, 9, 1, 1), 32), Ok(Vec::new()));
    assert_eq!(w.engine.pending_count(), 0);
}

#[test]
fn a_readback_owns_its_staging_buffer() {
    for fails in 0..4 {
        let mut w = World::new(16);
        let id = w.pixmap(0x1, 2, 2, 32);
        let staging = w.staging(vec![0; 16]);
        let failed = |at: i32| if fails == at { Err(DEVICE_LOST) } else { Ok(()) };
        let reply = GetReply::Recorded {
            staging,
            cb: 71,
            fresh: 72,
            end: failed(1),
            submit: failed(2),
            wait: failed(3),
            bytes: vec![0; 16],
        };
        let step = w
            .engine
            .get_image(&mut w.store, &mut w.group, id, rect(0, 0, 2, 2), 32, reply);
        if fails == 0 {
            assert!(matches!(step, Step::Done(Ok(v)) if v == vec![0; 16]));
            assert!(w.engine.drain_released().is_empty());
            w.engine.poll_retired(&w.group, &vec![72]);
            assert!(w.engine.drain_released().contains(&Release::Staging(staging.buffer)));
        } else {
            assert!(matches!(step, Step::Done(Err(RenderError::Vk(DEVICE_LOST)))));
            assert_eq!(w.engine.drain_released(), vec![Release::Staging(staging.buffer)]);
        }
    }
}

#[test]
fn fill_then_get_image_observes_clear_color() {
    let mut w = World::new(16);
    let id = w.pixmap(0x1, 4, 4, 32);
    let color = rgba(0xFF_FF_00_00);
    w.fill(id, rect(0, 0, 4, 4), color).expect("fill_rect");
    let out = w.get(id, rect(0, 0, 4, 4), 32).expect("get_image");
    for px in out.chunks_exact(4) {
        assert_eq!(px[0], 0x00, "B");
        assert_eq!(px[1], 0x00, "G");
        assert_eq!(px[2], 0xFF, "R");
        assert_eq!(px[3], 0xFF, "A");
    }
    w.drain();
}

#[test]
fn logic_fill_xor_applies_per_pixel() {
    let mut w = World::new(16);
    let id = w.pixmap(0x1, 4, 4, 24);
    let pre: Vec<u8> = [0x20u8, 0x40, 0x80, 0xFF].repeat(16);
    w.put(id, Offset { x: 0, y: 0 }, Extent { width: 4, height: 4 }, &pre, 32)
        .expect("put_image");
    let r = Rectangle16 { x: 0, y: 0, width: 4, height: 4 };
    w.logic_fill(id, GcFunction::Xor, true, 0x00FF_FFFF, &[r])
        .expect("logic_fill");
    let out = w.get(id, rect(0, 0, 4, 4), 32).expect("get_image");
    for px in out.chunks_exact(4) {
        assert_eq!(px[0], 0x20 ^ 0xFF, "B");
        assert_eq!(px[1], 0x40 ^ 0xFF, "G");
        assert_eq!(px[2], 0x80 ^ 0xFF, "R");
        assert_eq!(px[3], 0xFF, "A");
    }
    assert!(w.engine.has_asset(Asset::LogicFill(Format::B8G8R8A8Unorm)));
    w.drain();
}

#[test]
fn logic_fill_applies_to_alpha_where_the_client_owns_it() {
    let mut w = World::new(16);
    let id = w.pixmap(0x1, 2, 1, 32);
    let pre: Vec<u8> = [0x20u8, 0x40, 0x80, 0xF0].repeat(2);
    w.put(id, Offset { x: 0, y: 0 }, Extent { width: 2, height: 1 }, &pre, 32)
        .unwrap();
    let r = Rectangle16 { x: 0, y: 0, width: 1, height: 1 };
    w.logic_fill(id, GcFunction::Xor, false, 0x8012_3456, &[r]).unwrap();
    let out = w.whole(id);
    assert_eq!(&out[..4], &[0x20 ^ 0x56, 0x40 ^ 0x34, 0x80 ^ 0x12, 0xF0 ^ 0x80]);
    assert_eq!(&out[4..], &pre[4..]);
}

#[test]
fn the_pixel_of_a_logic_fill_follows_the_storage() {
    let pixel = |f: Format, opaque: bool| {
        let c = logic_fill_pixel(f, opaque, 0x8012_3456);
        (c.r, c.g, c.b, c.a)
    };
    assert_eq!(pixel(Format::B8G8R8A8Unorm, false), (0x12, 0x34, 0x56, 0x80));
    assert_eq!(pixel(Format::B8G8R8A8Unorm, true), (0x12, 0x34, 0x56, 0xFF));
    assert_eq!(pixel(Format::R8Unorm, false), (0x56, 0, 0, 0xFF));
}

#[test]
fn logic_fill_without_effect_records_nothing() {
    let mut w = World::new(16);
    let id = w.pixmap(0x1, 4, 4, 32);
    let r = Rectangle16 { x: 0, y: 0, width: 4, height: 4 };
    let off = Rectangle16 { x: 40, y: 0, width: 4, height: 4 };
    assert_eq!(w.logic_fill(id, GcFunction::NoOp, true, 0, &[r]), Ok(()));
    assert_eq!(w.logic_fill(id, GcFunction::Xor, true, 0, &[]), Ok(()));
    assert_eq!(w.logic_fill(id, GcFunction::Xor, true, 0, &[off]), Ok(()));
    assert_eq!(
        w.logic_fill(7, GcFunction::Xor, true, 0, &[r]),
        Err(RenderError::UnknownDrawable(7))
    );
    assert_eq!(w.group.size(), 0);
}

#[test]
fn put_image_then_fill_overwrites() {
    let mut w = World::new(16);
    let id = w.pixmap(0x1, 4, 4, 32);
    let blue = [0xFFu8, 0x00, 0x00, 0xFF].repeat(16);
    w.put(id, Offset { x: 0, y: 0 }, Extent { width: 4, height: 4 }, &blue, 32)
        .unwrap();
    w.fill(id, rect(1, 1, 2, 2), rgba(0xFF_00_FF_00)).unwrap();
    let out = w.get(id, rect(0, 0, 4, 4), 32).unwrap();
    assert_eq!(&out[0..4], &[0xFF, 0x00, 0x00, 0xFF]);
    let off_1_1 = (4 + 1) * 4;
    assert_eq!(&out[off_1_1..off_1_1 + 4], &[0x00, 0xFF, 0x00, 0xFF]);
    let off_3_3 = (3 * 4 + 3) * 4;
    assert_eq!(&out[off_3_3..off_3_3 + 4], &[0xFF, 0x00, 0x00, 0xFF]);
    w.drain();
}

#[test]
fn fill_rect_batch_one_submit_for_n_rects() {
    let mut w = World::new(16);
    let id = w.pixmap(0x1, 16, 4, 32);
    w.fill(id, rect(0, 0, 16, 4), rgba(0xFF_00_00_FF)).expect("blue prefill");
    w.flush_group(FlushReason::SyncBoundary).expect("setup flush");
    let before = w.engine.pending_count();
    let rects = [rect(0, 0, 2, 2), rect(6, 1, 3, 2), rect(13, 2, 3, 2)];
    w.fill_batch(id, &rects, rgba(0xFF_FF_00_00)).expect("fill_rect_batch");
    w.flush_group(FlushReason::SyncBoundary).expect("flush");
    assert_eq!(w.engine.pending_count(), before + 1);
    let out = w.get(id, rect(0, 0, 16, 4), 32).expect("get_image");
    for y in 0..4 {
        for x in 0..16 {
            let off = (y * 16 + x) as usize * 4;
            let px = &out[off..off + 4];
            if rects.iter().any(|r| Gpu::inside(*r, x, y)) {
                assert_eq!(px[2], 0xFF);
                assert_eq!(px[0], 0x00);
            } else {
                assert_eq!(px[0], 0xFF);
                assert_eq!(px[2], 0x00);
            }
        }
    }
    w.drain();
}

#[test]
fn fills_outside_the_drawable_record_nothing() {
    let mut w = World::new(16);
    let id = w.pixmap(0x1, 4, 4, 32);
    assert_eq!(w.fill_batch(id, &[], RED), Ok(()));
    assert_eq!(w.fill(id, rect(4, 0, 3, 3), RED), Ok(()));
    assert_eq!(w.fill(3, rect(0, 0, 1, 1), RED), Err(RenderError::UnknownDrawable(3)));
    assert_eq!(w.group.size(), 0);
    assert_eq!(w.store.get(id).unwrap().layout, Layout::Undefined);
}

// Copies into a frame.

#[test]
fn copy_area_disjoint_pixmaps_round_trip() {
    let mut w = World::new(16);
    let src = w.pixmap(0x1, 4, 4, 32);
    let dst = w.pixmap(0x2, 8, 4, 32);
    w.fill(src, rect(0, 0, 4, 4), rgba(0xFF_FF_00_00)).unwrap();
    w.fill(dst, rect(0, 0, 8, 4), rgba(0xFF_00_00_FF)).unwrap();
    w.copy(src, dst, rect(0, 0, 4, 4), Offset { x: 4, y: 0 }).unwrap();
    let out = w.get(dst, rect(0, 0, 8, 4), 32).unwrap();
    for y in 0..4 {
        for x in 0..4 {
            let off = (y * 8 + x) * 4;
            assert_eq!(&out[off..off + 4], &[0xFF, 0x00, 0x00, 0xFF], "left blue");
        }
        for x in 4..8 {
            let off = (y * 8 + x) * 4;
            assert_eq!(&out[off..off + 4], &[0x00, 0x00, 0xFF, 0xFF], "right red");
        }
    }
    w.drain();
}

#[test]
fn copy_area_self_overlap_scratch_path() {
    let mut w = World::new(16);
    let id = w.pixmap(0x1, 8, 1, 32);
    let mut src = vec![0u8; 8 * 4];
    for x in 0..8 {
        let off = x * 4;
        src[off + 2] = (x as u8) * 0x20;
        src[off + 3] = 0xFF;
    }
    w.put(id, Offset { x: 0, y: 0 }, Extent { width: 8, height: 1 }, &src, 32)
        .unwrap();
    w.copy(id, id, rect(0, 0, 4, 1), Offset { x: 2, y: 0 }).unwrap();
    let out = w.get(id, rect(0, 0, 8, 1), 32).unwrap();
    let expected_r = [0x00, 0x20, 0x00, 0x20, 0x40, 0x60, 0xC0, 0xE0];
    for (x, &exp) in expected_r.iter().enumerate() {
        let off = x * 4 + 2;
        assert_eq!(out[off], exp, "R at col {x}");
    }
    w.drain();
}

fn numbered(w: &mut World, xid: u32, first: u8) -> usize {
    let id = w.pixmap(xid, 4, 1, 32);
    let src: Vec<u8> = (0..4).flat_map(|i| [first + i, 0, 0, 0xFF]).collect();
    w.put(id, Offset { x: 0, y: 0 }, Extent { width: 4, height: 1 }, &src, 32)
        .unwrap();
    id
}

fn numbers(w: &mut World, id: usize) -> Vec<u8> {
    w.whole(id).chunks_exact(4).map(|p| p[0]).collect()
}

#[test]
fn copies_over_an_edge_keep_their_pixels_in_place() {
    let cases: [(i32, i32, u32, [u8; 4]); 5] = [
        (0, -2, 4, [3, 4, 13, 14]),
        (-1, 0, 4, [11, 1, 2, 3]),
        (-1, -2, 4, [2, 3, 13, 14]),
        (2, 3, 4, [11, 12, 13, 3]),
        (3, -1, 4, [11, 12, 13, 14]),
    ];
    for (from, to, n, expected) in cases {
        let mut w = World::new(16);
        let src = numbered(&mut w, 0x1, 1);
        let dst = numbered(&mut w, 0x2, 11);
        w.copy(src, dst, rect(from, 0, n, 1), Offset { x: to, y: 0 }).unwrap();
        assert_eq!(numbers(&mut w, dst), expected, "from {from} to {to}");
        assert_eq!(numbers(&mut w, src), [1, 2, 3, 4]);
        let mut w = World::new(16);
        let src = numbered(&mut w, 0x1, 1);
        let cow = numbered(&mut w, 0x2, 11);
        w.cow_copy(cow, src, rect(from, 0, n, 1), Offset { x: to, y: 0 }).unwrap();
        assert_eq!(numbers(&mut w, cow), expected, "overlay, from {from} to {to}");
    }
    let mut w = World::new(16);
    let id = numbered(&mut w, 0x1, 1);
    w.copy(id, id, rect(0, 0, 4, 1), Offset { x: -1, y: 0 }).unwrap();
    assert_eq!(numbers(&mut w, id), [2, 3, 4, 4]);
}

#[test]
fn scratch_images_retire_with_their_frame() {
    let mut w = World::new(16);
    let id = w.filled(0x1, 8, 2, RED);
    w.copy(id, id, rect(0, 0, 4, 1), Offset { x: 2, y: 0 }).unwrap();
    w.copy(id, id, rect(0, 0, 4, 1), Offset { x: 3, y: 1 }).unwrap();
    assert!(w.engine.frame_builder_is_open());
    w.close(CloseReason::SceneCompose).unwrap();
    assert_eq!(w.engine.most_recent_submitted_op_scratch_len_for_tests(), 2);
    assert_eq!(w.engine.active_resource_bytes(), (0, 32));
    let signaled = w.gpu.signaled.clone();
    w.engine.poll_retired(&w.group, &signaled);
    let freed = w.engine.drain_released();
    let scratch = freed.iter().filter(|r| matches!(r, Release::Scratch(_))).count();
    assert_eq!(scratch, 2);
    assert_eq!(w.engine.pending_count(), 0);
}

#[test]
fn copy_area_reports_its_errors() {
    let mut w = World::new(16);
    let a = w.pixmap(0x1, 4, 4, 32);
    let mask = w.pixmap(0x2, 4, 4, 8);
    let at = Offset { x: 0, y: 0 };
    assert_eq!(w.copy(a, 9, rect(0, 0, 1, 1), at), Err(RenderError::UnknownDrawable(9)));
    assert_eq!(w.copy(8, a, rect(0, 0, 1, 1), at), Err(RenderError::UnknownDrawable(8)));
    assert_eq!(w.copy(a, mask, rect(0, 0, 1, 1), at), Err(RenderError::UnsupportedDepth(0)));
    assert_eq!(w.copy(9, 9, rect(0, 0, 0, 1), at), Ok(()));
    assert_eq!(w.copy(a, a, rect(0, 0, 1, 1), Offset { x: 4, y: 0 }), Ok(()));
    assert!(!w.engine.frame_builder_is_open());
    w.group.renderer_failed = true;
    assert_eq!(w.copy(a, a, rect(0, 0, 1, 1), at), Err(RenderError::RendererFailed));
    w.group.renderer_failed = false;
    let reply = CopyReply {
        scratch: Err(RenderError::Vk(VK_ERROR_OUT_OF_DEVICE_MEMORY)),
        fresh: Ok(1),
    };
    let step = w.engine.copy_area(
        &mut w.store,
        &mut w.group,
        a,
        a,
        rect(0, 0, 1, 1),
        at,
        reply,
    );
    assert!(matches!(
        step,
        Step::Done(Err(RenderError::Vk(VK_ERROR_OUT_OF_DEVICE_MEMORY)))
    ));
    assert!(!w.engine.frame_builder_is_open(), "no frame without the scratch image");
    let reply = CopyReply {
        scratch: Ok(ScratchImage { image: 1, size_bytes: 4 }),
        fresh: Err(DEVICE_LOST),
    };
    let step = w.engine.copy_area(
        &mut w.store,
        &mut w.group,
        a,
        a,
        rect(0, 0, 1, 1),
        at,
        reply,
    );
    assert!(matches!(step, Step::Done(Err(RenderError::Vk(DEVICE_LOST)))));
    assert!(!w.engine.frame_builder_is_open());
    assert_eq!(w.engine.drain_released(), vec![Release::Scratch(1)]);
}

// Overlay batches.

#[test]
fn cow_copy_area_coalesces_four_srcs_into_one_submit() {
    let mut w = World::new(16);
    let colours: [u32; 4] = [0xFF_FF_00_00, 0xFF_00_FF_00, 0xFF_00_00_FF, 0xFF_FF_FF_00];
    let mut srcs = Vec::new();
    for (i, pixel) in colours.iter().enumerate() {
        let id = w.filled(0x100 + i as u32, 4, 4, rgba(*pixel));
        srcs.push(id);
    }
    let cow = w.filled(0x200, 16, 4, BLACK);
    w.flush_group(FlushReason::SyncBoundary).expect("setup flush");
    let submitted_before = w.engine.pending_count();
    for (i, src) in srcs.iter().enumerate() {
        let dst_x = 4 * i as i32;
        w.cow_copy(cow, *src, rect(0, 0, 4, 4), Offset { x: dst_x, y: 0 }).unwrap();
    }
    assert_eq!(w.engine.pending_count(), submitted_before);
    let count_pending = w.engine.cow_batch.as_ref().map(|b| b.coalesced_count);
    assert_eq!(count_pending, Some(4));
    assert_eq!(w.flush_cow().expect("flush ok"), Some(4));
    w.flush_group(FlushReason::SyncBoundary).expect("flush");
    assert_eq!(w.engine.pending_count(), submitted_before + 1);
    assert_eq!(w.engine.drain_cow_flush_records(), vec![4]);
    let out = w.get(cow, rect(0, 0, 16, 4), 32).unwrap();
    for (i, pixel) in colours.iter().enumerate() {
        let want_r = ((pixel >> 16) & 0xFF) as u8;
        let want_g = ((pixel >> 8) & 0xFF) as u8;
        let want_b = (pixel & 0xFF) as u8;
        for y in 0..4 {
            for x in 0..4 {
                let dst_x = i * 4 + x;
                let off = (y * 16 + dst_x) * 4;
                assert_eq!(&out[off..off + 4], &[want_b, want_g, want_r, 0xFF]);
            }
        }
    }
    w.drain();
}

#[test]
fn cow_copy_area_repeated_src_skips_redundant_transition() {
    let mut w = World::new(16);
    let src = w.filled(0x1, 4, 4, rgba(0xFF_FF_00_00));
    let cow = w.filled(0x2, 8, 4, BLACK);
    w.cow_copy(cow, src, rect(0, 0, 4, 4), Offset { x: 0, y: 0 }).unwrap();
    w.cow_copy(cow, src, rect(0, 0, 4, 4), Offset { x: 4, y: 0 }).unwrap();
    {
        let batch = w.engine.cow_batch.as_ref().expect("pending batch present");
        assert_eq!(batch.srcs.len(), 1);
        assert!(batch.srcs.contains(&src));
        assert_eq!(batch.coalesced_count, 2);
        assert_eq!(batch.dst_damage.len(), 2);
    }
    w.flush_cow().unwrap();
    let out = w.get(cow, rect(0, 0, 8, 4), 32).unwrap();
    for px in out.chunks_exact(4) {
        assert_eq!(px, &[0x00, 0x00, 0xFF, 0xFF]);
    }
    w.drain();
}

#[test]
fn cow_copy_area_flush_via_non_cow_op() {
    let mut w = World::new(16);
    let src = w.filled(0x1, 4, 4, rgba(0xFF_00_FF_00));
    let cow = w.pixmap(0x2, 4, 4, 32);
    let other = w.pixmap(0x3, 4, 4, 32);
    w.cow_copy(cow, src, rect(0, 0, 4, 4), Offset { x: 0, y: 0 }).unwrap();
    assert!(w.engine.cow_batch.is_some());
    w.fill(other, rect(0, 0, 4, 4), rgba(0xFF_00_00_FF)).unwrap();
    assert!(w.engine.cow_batch.is_none());
    assert_eq!(w.engine.drain_cow_flush_records(), vec![1]);
    let out = w.get(cow, rect(0, 0, 4, 4), 32).unwrap();
    for px in out.chunks_exact(4) {
        assert_eq!(px, &[0x00, 0xFF, 0x00, 0xFF]);
    }
    w.drain();
}

#[test]
fn cow_copy_marks_both_drawables_with_the_batch_ticket() {
    let mut w = World::new(16);
    let src = w.pixmap(0x1, 4, 4, 32);
    let cow = w.pixmap(0x2, 4, 4, 32);
    let other = w.pixmap(0x3, 4, 4, 32);
    w.cow_copy(cow, src, rect(0, 0, 4, 4), Offset { x: 0, y: 0 }).unwrap();
    let ticket = w.engine.cow_batch.as_ref().map(|b| b.ticket);
    assert!(ticket.is_some());
    assert_eq!(w.store.get(src).unwrap().last_render_ticket, ticket);
    assert_eq!(w.store.get(cow).unwrap().last_render_ticket, ticket);
    w.cow_copy(cow, other, rect(0, 0, 4, 4), Offset { x: 0, y: 0 }).unwrap();
    assert_eq!(w.store.get(other).unwrap().last_render_ticket, ticket);
    assert!(!w.gpu.signaled.contains(&ticket.unwrap()));
    w.flush_cow().unwrap();
    w.drain();
}

#[test]
fn cow_copy_reports_its_errors() {
    let mut w = World::new(16);
    let a = w.pixmap(0x1, 4, 4, 32);
    let mask = w.pixmap(0x2, 4, 4, 8);
    let at = Offset { x: 0, y: 0 };
    assert_eq!(w.cow_copy(a, a, rect(0, 0, 1, 1), at), Err(RenderError::UnsupportedDepth(0)));
    assert_eq!(w.cow_copy(a, mask, rect(0, 0, 1, 1), at), Err(RenderError::UnsupportedDepth(0)));
    assert_eq!(w.cow_copy(a, 9, rect(0, 0, 1, 1), at), Err(RenderError::UnknownDrawable(9)));
    assert_eq!(w.cow_copy(9, a, rect(0, 0, 1, 1), at), Err(RenderError::UnknownDrawable(9)));
    assert_eq!(w.cow_copy(9, 9, rect(0, 0, 0, 1), at), Ok(()));
    assert!(!w.engine.has_pending_batches_for_tests());
}

#[test]
fn another_overlay_window_ends_the_batch() {
    let mut w = World::new(16);
    let src = w.filled(0x1, 4, 4, RED);
    let first = w.pixmap(0x2, 4, 4, 32);
    let second = w.pixmap(0x3, 4, 4, 32);
    let at = Offset { x: 0, y: 0 };
    w.cow_copy(first, src, rect(0, 0, 4, 4), at).unwrap();
    w.cow_copy(second, src, rect(0, 0, 4, 4), at).unwrap();
    assert_eq!(w.engine.cow_batch.as_ref().map(|b| b.dst), Some(second));
    assert_eq!(w.engine.drain_cow_flush_records(), vec![1]);
}

#[test]
fn waiting_clients_are_told_of_the_batch() {
    let mut w = World::new(16);
    let src = w.filled(0x1, 4, 4, RED);
    let cow = w.pixmap(0x2, 4, 4, 32);
    let entry = PresentEntry { client: 5, serial: 9 };
    assert_eq!(w.engine.attach_cow_present_completion(cow, entry), Err(entry));
    w.cow_copy(cow, src, rect(0, 0, 4, 4), Offset { x: 0, y: 0 }).unwrap();
    assert_eq!(w.engine.attach_cow_present_completion(src, entry), Err(entry));
    assert_eq!(w.engine.attach_cow_present_completion(cow, entry), Ok(()));
    assert_eq!(w.flush_cow(), Ok(Some(1)));
    assert_eq!(w.group.size(), 0, "submitted at once");
    let batches = w.engine.drain_present_batches();
    assert_eq!(batches.len(), 1);
    assert_eq!(batches[0].wait, PresentBatchWait::Fd(7));
    assert_eq!(batches[0].events, vec![entry]);
    assert_eq!(batches[0].ticket, w.store.get(cow).unwrap().last_render_ticket);
}

#[test]
fn waiting_clients_are_told_of_a_refused_submission() {
    let mut w = World::new(16);
    let src = w.filled(0x1, 4, 4, RED);
    let cow = w.pixmap(0x2, 4, 4, 32);
    let entry = PresentEntry { client: 5, serial: 9 };
    w.cow_copy(cow, src, rect(0, 0, 4, 4), Offset { x: 0, y: 0 }).unwrap();
    w.engine.attach_cow_present_completion(cow, entry).unwrap();
    w.gpu.fail_submit = true;
    assert_eq!(w.flush_cow(), Err(RenderError::Vk(DEVICE_LOST)));
    assert!(w.group.renderer_failed);
    let batches = w.engine.drain_present_batches();
    assert_eq!(batches[0].wait, PresentBatchWait::Ready);
    assert_eq!((batches[0].ticket, batches[0].signal), (None, None));
    assert_eq!(batches[0].events, vec![entry]);
}

#[test]
fn a_batch_of_a_lost_drawable_is_given_up() {
    let mut w = World::new(16);
    let a = w.filled(0x1, 4, 4, RED);
    let b = w.filled(0x2, 4, 4, RED);
    let cow = w.pixmap(0x3, 4, 4, 32);
    let at = Offset { x: 0, y: 0 };
    w.cow_copy(cow, a, rect(0, 0, 4, 4), at).unwrap();
    w.cow_copy(cow, b, rect(0, 0, 4, 4), at).unwrap();
    w.store.remove(b);
    assert_eq!(w.flush_cow(), Err(RenderError::UnknownDrawable(b)));
    assert!(w.engine.cow_batch.is_none());
    assert_eq!(w.store.get(a).unwrap().layout, Layout::ShaderReadOnly);
    assert_eq!(w.store.get(cow).unwrap().layout, Layout::TransferDst);
}

#[test]
fn a_failed_renderer_drops_open_batches() {
    let mut w = World::new(16);
    let src = w.filled(0x1, 4, 4, RED);
    let cow = w.pixmap(0x2, 4, 4, 32);
    w.cow_copy(cow, src, rect(0, 0, 4, 4), Offset { x: 0, y: 0 }).unwrap();
    w.group.renderer_failed = true;
    assert_eq!(w.flush_cow(), Ok(None));
    assert!(w.engine.cow_batch.is_none());
    assert!(w.engine.drain_cow_flush_records().is_empty());
}

// Composite batches.

#[test]
fn render_composite_batch_coalesces_two_same_key_calls() {
    let mut w = World::new(16);
    w.in_frame = false;
    let src = w.filled(0x1, 4, 4, rgba(0xFF_FF_00_00));
    let dst = w.filled(0x2, 8, 4, BLACK);
    w.flush_group(FlushReason::SyncBoundary).expect("setup flush");
    let submitted_before = w.engine.pending_count();
    let s1 = w
        .composite(&request(
            OP_OVER,
            ResolvedSource::Drawable(src),
            dst,
            vec![quad(0, 0, 4, 4)],
        ))
        .unwrap();
    assert!(s1.deferred_to_batch, "first call should defer to batch");
    assert_eq!(w.engine.pending_count(), submitted_before);
    let s2 = w
        .composite(&request(
            OP_OVER,
            ResolvedSource::Drawable(src),
            dst,
            vec![quad(4, 0, 4, 4)],
        ))
        .unwrap();
    assert!(s2.deferred_to_batch, "second call should also defer");
    assert_eq!(s2.recorded_draws, 2);
    let count = w.engine.render_batch.as_ref().map(|b| b.coalesced_count);
    assert_eq!(count, Some(2));
    assert_eq!(w.flush_render().expect("flush ok"), Some(2));
    w.flush_group(FlushReason::SyncBoundary).expect("flush");
    assert_eq!(w.engine.pending_count(), submitted_before + 1);
    assert_eq!(w.engine.drain_render_flush_records().len(), 1);
    let out = w.get(dst, rect(0, 0, 8, 4), 32).unwrap();
    for px in out.chunks_exact(4) {
        assert_eq!(px, &[0x00, 0x00, 0xFF, 0xFF]);
    }
    w.drain();
}

#[test]
fn render_composite_open_marks_src_last_render_ticket_immediately() {
    let mut w = World::new(16);
    w.in_frame = false;
    let src = w.filled(0x1, 4, 4, rgba(0xFF_FF_00_00));
    w.drain();
    w.store.set_ticket(src, None);
    let dst = w.filled(0x2, 4, 4, BLACK);
    let stats = w
        .composite(&request(
            OP_OVER,
            ResolvedSource::Drawable(src),
            dst,
            vec![quad(0, 0, 4, 4)],
        ))
        .unwrap();
    assert!(stats.deferred_to_batch);
    assert!(w.store.get(src).unwrap().last_render_ticket.is_some());
    w.flush_render().expect("flush ok");
    w.drain();
}

#[test]
fn an_open_batch_ticket_has_not_signaled() {
    let mut w = World::new(16);
    w.in_frame = false;
    let src = w.filled(0x1, 4, 4, RED);
    let mask = w.pixmap(0x3, 4, 4, 8);
    w.drain();
    let dst = w.filled(0x2, 4, 4, BLACK);
    let mut req = request(
        OP_OVER,
        ResolvedSource::Drawable(src),
        dst,
        vec![quad(0, 0, 4, 4)],
    );
    req.mask = ResolvedSource::Drawable(mask);
    w.composite(&req).unwrap();
    let batch = w.engine.render_batch.as_ref().unwrap();
    assert!(batch.any_mask);
    let ticket = batch.ticket;
    for id in [src, mask, dst] {
        assert_eq!(w.store.get(id).unwrap().last_render_ticket, Some(ticket));
    }
    assert!(!w.gpu.signaled.contains(&ticket));
}

#[test]
fn render_composite_batch_key_mismatch_flushes() {
    let mut w = World::new(16);
    w.in_frame = false;
    let src = w.filled(0x1, 4, 4, rgba(0xFF_FF_00_00));
    let dst = w.pixmap(0x2, 4, 4, 32);
    w.flush_group(FlushReason::SyncBoundary).expect("setup flush");
    let with = |op: u8| request(op, ResolvedSource::Drawable(src), dst, vec![quad(0, 0, 4, 4)]);
    w.composite(&with(OP_OVER)).unwrap();
    assert!(w.engine.render_batch.is_some(), "OP_OVER call opens batch");
    w.composite(&with(OP_SRC)).unwrap();
    assert_eq!(w.engine.pending_group_ops_count_for_tests(), 1);
    let pending_count = w.engine.render_batch.as_ref().map(|b| b.coalesced_count);
    assert_eq!(pending_count, Some(1), "second call started a fresh batch");
    w.flush_render().unwrap();
    assert_eq!(w.engine.drain_render_flush_records().len(), 2, "two flushes total");
    w.drain();
}

#[test]
fn render_composite_batch_solid_src_skips_batched_path() {
    let mut w = World::new(16);
    w.in_frame = false;
    let dst = w.pixmap(0x1, 4, 4, 32);
    let submitted_before = w.engine.pending_count();
    let stats = w
        .composite(&request(
            OP_SRC,
            ResolvedSource::Solid(bits(RED)),
            dst,
            vec![quad(0, 0, 4, 4)],
        ))
        .unwrap();
    assert!(!stats.deferred_to_batch);
    assert!(stats.recorded_draws > 0);
    assert!(w.engine.render_batch.is_none());
    w.flush_group(FlushReason::SyncBoundary).expect("flush");
    assert_eq!(w.engine.pending_count(), submitted_before + 1);
    w.drain();
}

#[test]
fn render_composite_batch_flush_via_non_render_op() {
    let mut w = World::new(16);
    w.in_frame = false;
    let src = w.filled(0x1, 4, 4, rgba(0xFF_00_FF_00));
    let dst = w.pixmap(0x2, 4, 4, 32);
    let other = w.pixmap(0x3, 4, 4, 32);
    w.composite(&request(
        OP_OVER,
        ResolvedSource::Drawable(src),
        dst,
        vec![quad(0, 0, 4, 4)],
    ))
    .unwrap();
    assert!(w.engine.render_batch.is_some());
    w.fill(other, rect(0, 0, 4, 4), rgba(0xFF_00_00_FF)).unwrap();
    assert!(w.engine.render_batch.is_none());
    let records = w.engine.drain_render_flush_records();
    assert_eq!(records.len(), 1, "one flush from the render batch");
    assert_eq!(records[0].coalesced_count, 1);
    assert!(!records[0].has_mask);
    let out = w.get(dst, rect(0, 0, 4, 4), 32).unwrap();
    for px in out.chunks_exact(4) {
        assert_eq!(px, &[0x00, 0xFF, 0x00, 0xFF]);
    }
    w.drain();
}

#[test]
fn a_batched_composite_that_is_clipped_away_draws_nothing() {
    let mut w = World::new(16);
    w.in_frame = false;
    let src = w.filled(0x1, 4, 4, RED);
    let dst = w.filled(0x2, 4, 4, BLACK);
    let mut req = request(
        OP_OVER,
        ResolvedSource::Drawable(src),
        dst,
        vec![quad(0, 0, 4, 4)],
    );
    req.clip = Some(Vec::new());
    let stats = w.composite(&req).unwrap();
    assert!(stats.deferred_to_batch);
    assert_eq!(stats.recorded_draws, 0);
    assert!(w.engine.render_batch.is_none());
    let tag = w.engine.acquire_generation;
    let mut reply = no_direct_reply();
    reply.batch = BatchAppendReply::Unavailable(RenderError::Vk(-3));
    let step = w
        .engine
        .render_composite_direct(&mut w.store, &mut w.group, &req, reply);
    assert!(matches!(step, Step::Done(Err(RenderError::Vk(-3)))));
    assert_eq!(w.engine.acquire_generation, tag);
}

#[test]
fn only_drawables_under_simple_operators_join_a_batch() {
    let mut w = World::new(16);
    let src = w.filled(0x1, 4, 4, RED);
    let dst = w.filled(0x2, 4, 4, BLACK);
    let with = |op: u8, src: ResolvedSource| request(op, src, dst, vec![quad(0, 0, 4, 4)]);
    let none = BatchAppendReply::Unavailable(RenderError::NoVk);
    for req in [
        with(OP_OVER, ResolvedSource::Solid(bits(RED))),
        with(OP_OVER, ResolvedSource::Drawable(dst)),
        with(16, ResolvedSource::Drawable(src)),
    ] {
        let step = w
            .engine
            .try_append_render_batch(&mut w.store, &mut w.group, &req, none);
        assert!(step.is_none());
    }
    let req = with(OP_OVER, ResolvedSource::Drawable(src));
    while let Some(Decision::Chore(c)) = w
        .engine
        .try_append_render_batch_plan(&w.store, &w.group, &req)
    {
        w.chore(c).unwrap();
    }
    let reply = BatchAppendReply::Described {
        descriptor: Ok(5),
        begin: BatchReply::Begun { cb: 6, fresh: 7 },
    };
    let step = w
        .engine
        .try_append_render_batch(&mut w.store, &mut w.group, &req, reply);
    assert!(matches!(step, Some(Step::Done(Ok(s))) if s.recorded_draws == 1));
    let batch = w.engine.render_batch.as_ref().unwrap();
    assert_eq!((batch.cb, batch.coalesced_count), (6, 1));
    assert_eq!(w.group.ticket, Some(batch.ticket));
}

#[test]
fn composites_that_sample_the_destination_are_not_batched() {
    let mut w = World::new(16);
    w.in_frame = false;
    let src = w.filled(0x1, 4, 4, RED);
    let dst = w.filled(0x2, 4, 4, BLACK);
    let mut req = request(
        OP_OVER,
        ResolvedSource::Drawable(src),
        dst,
        vec![quad(0, 0, 4, 4)],
    );
    req.mask = ResolvedSource::Drawable(dst);
    let stats = w.composite(&req).unwrap();
    assert!(!stats.deferred_to_batch);
    assert!(stats.used_src_alias_scratch);
    assert!(w.engine.render_batch.is_none());
    let out = w.whole(dst);
    assert_eq!(&out[..4], &[0, 0, 0xFF, 0xFF], "the source itself was drawn");
}

// Composites into a frame and outside.

fn over_blends(in_frame: bool) {
    let mut w = World::new(16);
    w.in_frame = in_frame;
    let dst = w.filled(0x1, 4, 4, GREEN);
    let stats = w
        .composite(&request(
            3,
            ResolvedSource::Solid(bits([0.5, 0.0, 0.0, 0.5])),
            dst,
            vec![quad(0, 0, 4, 4)],
        ))
        .expect("render_composite");
    assert_eq!(stats.recorded_draws, 1);
    assert!(!stats.used_dst_readback);
    assert!(!stats.used_src_alias_scratch);
    let out = w.whole(dst);
    let off = (4 + 1) * 4;
    let near = |a: u8, b: u8| a.abs_diff(b) <= 2;
    assert!(near(out[off], 0x00));
    assert!(near(out[off + 1], 0x80));
    assert!(near(out[off + 2], 0x80));
    assert!(near(out[off + 3], 0xFF));
    w.drain();
}

#[test]
fn render_composite_over_renders_alpha_blended() {
    over_blends(true);
    over_blends(false);
}

#[test]
fn render_composite_picture_clip_per_rect() {
    for in_frame in [true, false] {
        let mut w = World::new(16);
        w.in_frame = in_frame;
        let dst = w.filled(0x1, 8, 4, BLUE);
        let clip = vec![
            Rectangle16 { x: 0, y: 0, width: 3, height: 4 },
            Rectangle16 { x: 5, y: 0, width: 3, height: 4 },
        ];
        let mut req = request(
            1,
            ResolvedSource::Solid(bits(RED)),
            dst,
            vec![quad(0, 0, 8, 4)],
        );
        req.clip = Some(clip);
        let stats = w.composite(&req).expect("render_composite");
        assert_eq!(stats.recorded_draws, 2, "per-rect scissoring");
        let out = w.whole(dst);
        for y in 0..4 {
            for x in 0..8u32 {
                let off = (y * 8 + x as usize) * 4;
                let in_clip = (0..3).contains(&x) || (5..8).contains(&x);
                if in_clip {
                    assert_eq!(out[off + 2], 0xFF);
                    assert_eq!(out[off], 0x00);
                } else {
                    assert_eq!(out[off], 0xFF);
                    assert_eq!(out[off + 2], 0x00);
                }
            }
        }
        w.drain();
    }
}

#[test]
fn render_composite_solid_fill_source_path() {
    for in_frame in [true, false] {
        let mut w = World::new(16);
        w.in_frame = in_frame;
        let dst = w.filled(0x1, 4, 4, BLACK);
        w.composite(&request(
            1,
            ResolvedSource::Solid(bits([0.25, 0.5, 0.75, 1.0])),
            dst,
            vec![quad(0, 0, 4, 4)],
        ))
        .expect("render_composite");
        let out = w.whole(dst);
        let near = |a: u8, b: u8| a.abs_diff(b) <= 1;
        for px in out.chunks_exact(4) {
            assert!(near(px[0], 0xC0));
            assert!(near(px[1], 0x80));
            assert!(near(px[2], 0x40));
            assert!(near(px[3], 0xFF));
        }
        w.drain();
    }
}

#[test]
fn render_composite_missing_gradient_picture_is_gap() {
    for in_frame in [true, false] {
        let mut w = World::new(16);
        w.in_frame = in_frame;
        let dst = w.filled(0x1, 4, 4, BLACK);
        let stats = w
            .composite(&request(
                1,
                ResolvedSource::Gradient(0xC0FF_EE00),
                dst,
                vec![quad(0, 0, 4, 4)],
            ))
            .expect("render_composite Ok even on missing gradient");
        assert_eq!(stats.recorded_draws, 0);
        w.drain();
    }
}

#[test]
fn gradient_pictures_are_sampled_until_removed() {
    let mut w = World::new(16);
    let dst = w.filled(0x1, 4, 4, BLACK);
    let lut = w.gpu.handle();
    let mut img = Img::new(4, 4, 4);
    for y in 0..4 {
        for x in 0..4 {
            img.put(x, y, GREEN);
        }
    }
    w.gpu.images.insert(lut, img);
    let g = Gradient {
        xid: 0x55,
        view: lut,
        extent: Extent { width: 4, height: 4 },
        resource: 900,
    };
    assert_eq!(
        w.engine.insert_gradient(&w.group, Err(GradientError::NoMemoryType)),
        Err(RenderError::Vk(VK_ERROR_OUT_OF_DEVICE_MEMORY))
    );
    assert_eq!(
        w.engine.insert_gradient(&w.group, Err(GradientError::Vk(-1))),
        Err(RenderError::Vk(-1))
    );
    assert_eq!(w.engine.insert_gradient(&w.group, Ok(g)), Ok(()));
    assert_eq!(w.engine.picture_paint_len(), 1);
    let req = request(1, ResolvedSource::Gradient(0x55), dst, vec![quad(0, 0, 4, 4)]);
    assert_eq!(w.composite(&req).unwrap().recorded_draws, 1);
    w.engine.picture_paint_remove(0x55);
    assert_eq!(w.engine.picture_paint_len(), 0);
    assert!(w.engine.drain_released().is_empty(), "the open frame samples it");
    let out = w.whole(dst);
    assert_eq!(&out[..4], &[0, 0xFF, 0, 0xFF]);
    let signaled = w.gpu.signaled.clone();
    w.engine.poll_retired(&w.group, &signaled);
    assert!(w.engine.drain_released().contains(&Release::Object(900)));
}

#[test]
fn render_composite_disjoint_clear_uses_readback() {
    for in_frame in [true, false] {
        let mut w = World::new(16);
        w.in_frame = in_frame;
        let dst = w.filled(0x1, 4, 4, BLUE);
        let stats = w
            .composite(&request(
                16,
                ResolvedSource::Solid(bits(BLACK)),
                dst,
                vec![quad(0, 0, 4, 4)],
            ))
            .expect("render_composite");
        assert!(stats.used_dst_readback);
        assert_eq!(stats.recorded_draws, 1);
        w.close(CloseReason::SceneCompose).unwrap();
        w.drain();
        assert!(w.gpu.readback.is_some());
    }
}

#[test]
fn render_composite_self_alias() {
    for in_frame in [true, false] {
        let mut w = World::new(16);
        w.in_frame = in_frame;
        let dst = w.pixmap(0x1, 8, 4, 32);
        let mut src_bytes = vec![0u8; 8 * 4 * 4];
        for y in 0u8..4 {
            for x in 0u8..8 {
                let off = (usize::from(y) * 8 + usize::from(x)) * 4;
                src_bytes[off] = x * 0x20;
                src_bytes[off + 1] = y * 0x40;
                src_bytes[off + 2] = (x + y) * 0x10;
                src_bytes[off + 3] = 0xFF;
            }
        }
        w.put(dst, Offset { x: 0, y: 0 }, Extent { width: 8, height: 4 }, &src_bytes, 32)
            .expect("put_image");
        let stats = w
            .composite(&request(
                3,
                ResolvedSource::Drawable(dst),
                dst,
                vec![quad(0, 0, 8, 4)],
            ))
            .expect("render_composite");
        assert!(stats.used_src_alias_scratch);
        assert_eq!(stats.recorded_draws, 1);
        assert_eq!(w.whole(dst), src_bytes);
        w.drain();
    }
}

#[test]
fn a_mask_that_is_the_destination_leaves_the_source_alone() {
    let mut w = World::new(16);
    let src = w.filled(0x1, 4, 4, RED);
    let dst = w.filled(0x2, 4, 4, BLUE);
    let mut req = request(
        OP_SRC,
        ResolvedSource::Drawable(src),
        dst,
        vec![quad(0, 0, 4, 4)],
    );
    req.mask = ResolvedSource::Drawable(dst);
    let stats = w.composite(&req).unwrap();
    assert!(stats.used_src_alias_scratch);
    assert_eq!(&w.whole(dst)[..4], &[0, 0, 0xFF, 0xFF]);
}

#[test]
fn render_fill_rectangles_src_clears_to_color() {
    for in_frame in [true, false] {
        let mut w = World::new(16);
        w.in_frame = in_frame;
        let dst = w.filled(0x1, 4, 4, BLACK);
        let req = fill_request(1, bits(RED), dst, vec![quad(0, 0, 4, 4)], None);
        let stats = w.composite(&req).expect("render_fill_rectangles");
        assert_eq!(stats.recorded_draws, 1);
        let out = w.whole(dst);
        for px in out.chunks_exact(4) {
            assert_eq!(&px[..4], &[0x00, 0x00, 0xFF, 0xFF]);
        }
        w.drain();
    }
}

#[test]
fn two_composites_share_a_frame_and_the_second_sees_the_first() {
    let mut w = World::new(16);
    let src = w.filled(0x1, 4, 4, RED);
    let dst = w.pixmap(0x2, 4, 4, 32);
    w.flush_group(FlushReason::SyncBoundary).unwrap();
    let req = request(
        OP_SRC,
        ResolvedSource::Drawable(src),
        dst,
        vec![quad(0, 0, 4, 4)],
    );
    w.composite(&req).unwrap();
    w.composite(&req).unwrap();
    assert_eq!(
        w.engine.frame_builder_peek_render_composite_dst_old_layouts(),
        vec![Layout::Undefined, Layout::ShaderReadOnly]
    );
    assert_eq!(w.store.get(dst).unwrap().layout, Layout::Undefined);
    assert_eq!(w.group.size(), 0);
    assert_eq!(w.engine.frame_builder_lifetime_opens(), 1);
    let out = w.close(CloseReason::SceneCompose).unwrap();
    assert!(matches!(out, CloseOutcome::Submitted { frame_seq: 1, op_count: 2, .. }));
    assert_eq!(w.store.get(dst).unwrap().layout, Layout::ShaderReadOnly);
    let events = w.engine.drain_frame_close_events();
    assert_eq!(events.len(), 1);
    assert_eq!((events[0].renders_in_frame, events[0].aborted), (2, false));
    assert_eq!(&w.whole(dst)[..4], &[0, 0, 0xFF, 0xFF]);
}

#[test]
fn a_growing_snapshot_closes_the_frame_first() {
    let mut w = World::new(16);
    let dst = w.filled(0x1, 4, 4, BLUE);
    let plain = request(
        OP_OVER,
        ResolvedSource::Solid(bits(RED)),
        dst,
        vec![quad(0, 0, 1, 1)],
    );
    w.composite(&plain).unwrap();
    w.chores.clear();
    let alias = request(
        OP_OVER,
        ResolvedSource::Drawable(dst),
        dst,
        vec![quad(0, 0, 4, 4)],
    );
    w.composite_fitting(&alias, SnapshotFits { alias: false, readback: true })
        .unwrap();
    assert_eq!(w.chores, vec![Chore::CloseFrame(CloseReason::ScratchGrow)]);
    let newest = w.engine.submitted.last().unwrap();
    assert_eq!(newest.retired.len(), 1, "the closed frame keeps the old image");
    assert!(w.engine.frame.as_ref().unwrap().retired.is_empty());
}

#[test]
fn replaced_snapshots_outlive_the_work_that_uses_them() {
    let mut w = World::new(16);
    w.in_frame = false;
    let dst = w.filled(0x1, 4, 4, BLUE);
    let req = request(
        16,
        ResolvedSource::Drawable(dst),
        dst,
        vec![quad(0, 0, 4, 4)],
    );
    while let Decision::Chore(c) = w
        .engine
        .render_composite_direct_plan(&w.store, &w.group, &req)
    {
        w.chore(c).unwrap();
    }
    let mut reply = no_direct_reply();
    reply.old_alias = Some(70);
    reply.old_readback = Some(71);
    reply.own = CompositeReply::Skipped;
    let step = w
        .engine
        .render_composite_direct(&mut w.store, &mut w.group, &req, reply);
    assert!(matches!(step, Step::Done(Ok(s)) if s.recorded_draws == 0));
    assert_eq!(w.engine.pending_group_ops[0].retired, vec![70, 71]);
    let plain = request(
        OP_OVER,
        ResolvedSource::Solid(bits(RED)),
        dst,
        vec![quad(0, 0, 4, 4)],
    );
    let step = w
        .engine
        .render_composite_direct(&mut w.store, &mut w.group, &plain, reply);
    assert!(matches!(step, Step::Done(Ok(_))));
    assert_eq!(w.engine.pending_group_ops[0].retired, vec![70, 71]);
}

#[test]
fn snapshots_replaced_for_a_frame_have_one_owner() {
    for case in 0..4 {
        let mut w = World::new(16);
        let dst = w.pixmap(0x1, 4, 4, 32);
        let req = request(
            16,
            ResolvedSource::Drawable(dst),
            dst,
            vec![quad(0, 0, 4, 4)],
        );
        let fits = SnapshotFits { alias: false, readback: false };
        while let Decision::Chore(c) = w
            .engine
            .render_composite_via_frame_builder_plan(&w.store, &w.group, &req, fits)
        {
            w.chore(c).unwrap();
        }
        let mut reply = no_deferred_reply();
        let lost = RenderError::Vk(DEVICE_LOST);
        reply.readback_grow = if case == 0 { Err(lost) } else { Ok(Some(70)) };
        reply.alias_grow = if case == 1 { Err(lost) } else { Ok(Some(71)) };
        reply.fresh = if case == 2 { Err(DEVICE_LOST) } else { Ok(5) };
        reply.descriptor = Ok(6);
        let step = w.engine.render_composite_via_frame_builder(
            &mut w.store,
            &mut w.group,
            req,
            fits,
            reply,
        );
        assert_eq!(matches!(step, Step::Done(Ok(_))), case == 3);
        assert_eq!(w.engine.frame_builder_is_open(), case == 3);
        let expected = match case {
            0 => vec![],
            1 => vec![Release::Object(70)],
            _ => vec![Release::Object(70), Release::Object(71)],
        };
        assert_eq!(w.engine.drain_released(), expected);
    }
}

#[test]
fn a_replaced_mask_outlives_the_work_that_uses_it() {
    let mut w = World::new(16);
    let dst = w.filled(0x1, 4, 4, BLUE);
    let t = trap(16, ResolvedSource::Solid(bits(RED)), dst, rect(0, 0, 2, 2));
    while let Decision::Chore(c) = w
        .engine
        .render_traps_or_tris_plan(&w.store, &w.group, &t)
    {
        w.chore(c).unwrap();
    }
    let reply = TrapReply {
        staging: Ok(w.staging(vec![0; 40])),
        mask_grow: Ok(Some(80)),
        old_readback: Some(81),
        composite: CompositeReply::Unavailable(RenderError::Vk(-3)),
    };
    let step = w
        .engine
        .render_traps_or_tris(&mut w.store, &mut w.group, &t, reply);
    assert!(matches!(step, Step::Done(Err(RenderError::Vk(-3)))));
    assert_eq!(w.engine.pending_group_ops[0].retired, vec![80, 81]);
    assert_eq!(w.engine.drain_released().len(), 1, "the instance buffer");
}

#[test]
fn composites_report_unknown_drawables_and_skip_the_rest() {
    for in_frame in [true, false] {
        let mut w = World::new(16);
        w.in_frame = in_frame;
        let dst = w.filled(0x1, 4, 4, BLACK);
        let other = w.pixmap(0x2, 4, 4, 32);
        let one = || vec![quad(0, 0, 1, 1)];
        assert_eq!(
            w.composite(&request(OP_OVER, ResolvedSource::Drawable(9), dst, one())),
            Err(RenderError::UnknownDrawable(9))
        );
        assert_eq!(
            w.composite(&request(OP_OVER, ResolvedSource::Drawable(dst), 9, one())),
            Err(RenderError::UnknownDrawable(9))
        );
        let skipped = |s: Result<CompositeStats, RenderError>| {
            let s = s.unwrap();
            assert_eq!((s.recorded_draws, s.deferred_to_batch), (0, false));
        };
        skipped(w.composite(&request(14, ResolvedSource::Drawable(other), dst, one())));
        skipped(w.composite(&request(OP_OVER, ResolvedSource::Absent, dst, one())));
        skipped(w.composite(&request(OP_OVER, ResolvedSource::Drawable(other), dst, vec![])));
        let mut odd = w.store.get(other).unwrap();
        odd.format = Format::Other(37);
        let odd = w.store.allocate(odd);
        skipped(w.composite(&request(OP_OVER, ResolvedSource::Drawable(dst), odd, one())));
        let mut empty = w.store.get(other).unwrap();
        empty.extent = Extent { width: 0, height: 4 };
        let empty = w.store.allocate(empty);
        skipped(w.composite(&request(OP_OVER, ResolvedSource::Drawable(dst), empty, one())));
    }
}

// Text.

#[test]
fn image_text_run_records_damage_on_target() {
    let mut w = World::new(16);
    let id = w.pixmap(0x1, 64, 32, 32);
    let glyphs = vec![
        glyph(7, u32::from(b'A'), 10, 5, 6, 12),
        glyph(7, u32::from(b'B'), 16, 5, 6, 12),
    ];
    let stats = w.text(id, [1.0; 4], &glyphs).expect("image_text");
    assert_eq!(stats.atlas_interns, 2);
    assert_eq!(stats.glyph_uploads, 2);
    assert_eq!(stats.glyphs_dropped, 0);
    assert_eq!(w.store.damage, vec![(id, rect(10, 5, 12, 12))]);
    w.drain();
}

#[test]
fn atlas_intern_uses_fence_ticket() {
    let mut w = World::new(16);
    let id = w.pixmap(0x1, 16, 16, 32);
    assert_eq!(w.engine.pending_count(), 0);
    w.text(id, [1.0; 4], &[glyph(1, 0xA0A0, 1, 1, 4, 4)]).expect("ok");
    w.flush_group(FlushReason::SyncBoundary).expect("flush");
    assert!(w.engine.pending_count() >= 2);
    let draw = w.engine.submitted.last().unwrap();
    assert_eq!(draw.atlas_ticket, Some(w.engine.submitted[0].ticket));
    w.drain();
    assert_eq!(w.engine.pending_count(), 0);
}

#[test]
fn atlas_back_to_back_upload_no_corruption() {
    let mut w = World::new(16);
    let target = w.filled(0x1, 32, 32, BLACK);
    let glyphs = vec![
        glyph(42, u32::from(b'A'), 1, 1, 4, 4),
        glyph(42, u32::from(b'B'), 10, 1, 4, 4),
    ];
    let stats = w.text(target, [1.0; 4], &glyphs).expect("image_text");
    assert_eq!(stats.atlas_interns, 2);
    let out = w.whole(target);
    let pixel_at = |x: usize, y: usize| {
        let off = (y * 32 + x) * 4;
        (out[off], out[off + 1], out[off + 2])
    };
    for y in 1..5 {
        for x in (1..5).chain(10..14) {
            assert_eq!(pixel_at(x, y), (0xFF, 0xFF, 0xFF));
        }
    }
    assert_eq!(pixel_at(7, 2), (0x00, 0x00, 0x00));
    w.drain();
}

#[test]
fn atlas_full_drops_glyph_and_increments_counter() {
    let mut w = World::with_atlas(16, 4096);
    let target = w.pixmap(0x1, 4, 4, 32);
    let g0 = glyph(1, 1, 0, 0, 2049, 2049);
    let g1 = glyph(1, 2, 0, 0, 2049, 2049);
    let stats = w.text(target, [1.0; 4], &[g0]).expect("first image_text");
    assert_eq!(stats.atlas_interns, 1);
    assert_eq!(stats.glyphs_dropped, 0);
    let stats2 = w.text(target, [1.0; 4], &[g1]).expect("second image_text");
    assert_eq!(stats2.atlas_interns, 0);
    assert_eq!(stats2.glyphs_dropped, 1);
    w.drain();
}

#[test]
fn a_full_atlas_drops_glyphs_without_area_too() {
    let mut w = World::new(16);
    let mut run = TextRun::new();
    let space = glyph(1, 32, 1, 1, 0, 4);
    w.engine
        .text_glyph(&mut w.group, &mut run, &space, GlyphReply::Full);
    assert_eq!(run.stats.glyphs_dropped, 1);
    assert_eq!(w.engine.glyph_entry(space.key), None);
    let place = GlyphReply::Packed {
        atlas_x: 3,
        atlas_y: 4,
        upload: UploadReply::NoStaging,
    };
    w.engine.text_glyph(&mut w.group, &mut run, &space, place);
    assert_eq!(run.stats.glyphs_dropped, 1);
    assert!(w.engine.glyph_entry(space.key).is_some());
}

#[test]
fn an_upload_owns_its_staging_buffer_until_it_is_done() {
    let mut w = World::new(16);
    let mut run = TextRun::new();
    let staging = w.staging(vec![0xFF; 16]);
    let reply = GlyphReply::Packed {
        atlas_x: 0,
        atlas_y: 0,
        upload: UploadReply::Staged { staging, cb: Ok(81), fresh: 82, end: Ok(()) },
    };
    w.engine
        .text_glyph(&mut w.group, &mut run, &glyph(1, 65, 0, 0, 4, 4), reply);
    w.engine
        .flush_submit_group(&mut w.group, FlushReason::SceneCompose, Ok(()))
        .unwrap();
    w.engine.poll_retired(&w.group, &vec![]);
    assert!(w.engine.drain_released().is_empty());
    w.engine.poll_retired(&w.group, &vec![82]);
    let freed = w.engine.drain_released();
    assert_eq!(freed.iter().filter(|r| **r == Release::Staging(staging.buffer)).count(), 1);
}

#[test]
fn known_glyphs_are_not_uploaded_again() {
    let mut w = World::new(16);
    let id = w.pixmap(0x1, 16, 16, 32);
    let a = || glyph(1, 65, 1, 1, 4, 4);
    let stats = w.text(id, [1.0; 4], &[a(), a()]).unwrap();
    assert_eq!((stats.atlas_interns, stats.glyph_uploads), (1, 1));
    let stats = w.text(id, [1.0; 4], &[a()]).unwrap();
    assert_eq!((stats.atlas_interns, stats.glyph_uploads), (0, 0));
    let stats = w.text(id, [1.0; 4], &[]).unwrap();
    assert_eq!(stats.atlas_interns, 0);
}

#[test]
fn empty_and_incomplete_glyphs_are_not_drawn() {
    let mut w = World::new(16);
    let id = w.pixmap(0x1, 16, 16, 32);
    let space = glyph(1, 32, 1, 1, 0, 4);
    let mut short = glyph(1, 66, 1, 1, 4, 4);
    short.pixels.truncate(15);
    let stats = w.text(id, [1.0; 4], &[space, short]).unwrap();
    assert_eq!(
        (stats.atlas_interns, stats.glyph_uploads, stats.glyphs_dropped),
        (1, 0, 1)
    );
    assert_eq!(w.group.size(), 0);
    assert!(w.store.damage.is_empty());
    assert_eq!(w.engine.drain_released().len(), 1, "the staging buffer of the short glyph");
}

#[test]
fn text_needs_colour_storage() {
    let mut w = World::new(16);
    let mask = w.pixmap(0x1, 8, 8, 8);
    let stats = w.text(mask, [1.0; 4], &[glyph(1, 65, 0, 0, 4, 4)]).unwrap();
    assert_eq!(stats.atlas_interns, 0);
    assert_eq!(
        w.text(9, [1.0; 4], &[glyph(1, 65, 0, 0, 4, 4)]),
        Err(RenderError::UnknownDrawable(9))
    );
    assert_eq!(w.group.size(), 0);
}

#[test]
fn render_text_is_clipped() {
    for in_frame in [true, false] {
        let mut w = World::new(16);
        let id = w.filled(0x1, 16, 8, BLACK);
        w.store.damage.clear();
        let clip = || Some(vec![Rectangle16 { x: 0, y: 0, width: 2, height: 8 }]);
        let g = || glyph(3, 65, 1, 1, 4, 4);
        let stats = if in_frame {
            w.glyphs(id, [1.0; 4], vec![g()], clip(), 8).unwrap()
        } else {
            w.glyphs_direct(id, [1.0; 4], &[g()], clip()).unwrap()
        };
        assert_eq!(stats.glyph_uploads, 1);
        assert_eq!(w.store.damage, vec![(id, rect(1, 1, 4, 4))]);
        let out = w.whole(id);
        let px = |x: usize| out[(16 + x) * 4];
        assert_eq!((px(0), px(1), px(2)), (0, 0xFF, 0));
    }
}

#[test]
fn render_text_clipped_away_draws_nothing() {
    for in_frame in [true, false] {
        let mut w = World::new(16);
        let id = w.filled(0x1, 16, 8, BLACK);
        w.store.damage.clear();
        let clip = || Some(vec![Rectangle16 { x: 40, y: 0, width: 2, height: 8 }]);
        let g = || glyph(3, 65, 1, 1, 4, 4);
        let stats = if in_frame {
            w.glyphs(id, [1.0; 4], vec![g()], clip(), 8).unwrap()
        } else {
            w.glyphs_direct(id, [1.0; 4], &[g()], clip()).unwrap()
        };
        assert_eq!(stats.glyph_uploads, 1);
        assert!(w.store.damage.is_empty());
    }
}

#[test]
fn text_in_a_frame_inserts_glyphs_when_it_is_submitted() {
    let mut w = World::new(16);
    let id = w.filled(0x1, 16, 8, BLACK);
    let g = || glyph(3, 65, 1, 1, 4, 4);
    let stats = w.glyphs(id, [1.0; 4], vec![g(), g()], None, 8).unwrap();
    assert_eq!((stats.atlas_interns, stats.glyph_uploads), (1, 1));
    assert!(w.engine.glyph_entry(g().key).is_none());
    let stats = w.glyphs(id, [1.0; 4], vec![g()], None, 8).unwrap();
    assert_eq!(stats.glyph_uploads, 0, "the frame already uploads it");
    assert_eq!(w.engine.frame.as_ref().unwrap().pins.len(), 1);
    w.close(CloseReason::SceneCompose).unwrap();
    assert!(w.engine.glyph_entry(g().key).is_some());
    let events = w.engine.drain_frame_close_events();
    assert_eq!((events[0].ops_in_frame, events[0].glyph_uploads_in_frame), (3, 1));
    assert_eq!(events[0].pin_count, 1);
    assert_eq!(&w.whole(id)[(16 + 1) * 4..(16 + 1) * 4 + 3], &[0xFF; 3]);
}

#[test]
fn pins_stay_below_the_ceiling() {
    let mut w = World::new(16);
    let id = w.filled(0x1, 16, 8, BLACK);
    let g = |c: u32| glyph(3, c, 1, 1, 2, 2);
    w.glyphs(id, [1.0; 4], vec![g(1), g(2)], None, 3).unwrap();
    w.chores.clear();
    let stats = w.glyphs(id, [1.0; 4], vec![g(3), g(4), g(3)], None, 3).unwrap();
    assert_eq!(w.chores, vec![Chore::CloseFrame(CloseReason::PinCeiling)]);
    assert_eq!((stats.glyph_uploads, stats.glyphs_dropped), (2, 0));
    assert_eq!(w.engine.frame.as_ref().unwrap().pins.len(), 2);
    let many: Vec<GlyphImage> = (10..15).map(g).collect();
    let stats = w.glyphs(id, [1.0; 4], many, None, 3).unwrap();
    assert_eq!((stats.glyph_uploads, stats.glyphs_dropped), (3, 2));
    assert_eq!(w.engine.frame.as_ref().unwrap().pins.len(), 3);
}

#[test]
fn a_staging_failure_costs_one_glyph_of_a_frame() {
    let mut w = World::new(16);
    let id = w.filled(0x1, 16, 8, BLACK);
    let glyphs = vec![
        glyph(3, 1, 1, 1, 2, 2),
        glyph(3, 2, 5, 1, 2, 2),
        glyph(3, 3, 9, 1, 2, 2),
    ];
    let d = loop {
        match w.engine.composite_glyphs_begin(
            &mut w.store,
            &mut w.group,
            id,
            &glyphs,
            8,
            false,
            Ok(1),
        ) {
            GlyphsBegin::Chore(c) => w.chore(c).unwrap(),
            GlyphsBegin::Ready(d) => break d,
            _ => panic!("the run can be recorded"),
        }
    };
    let mut run = FrameRun::new();
    for (i, g) in glyphs.iter().enumerate() {
        let staging = if i == 1 { Err(-2) } else { Ok(w.staging(g.pixels.clone())) };
        let reply = PackReply::Packed { atlas_x: 2 * i as u32, atlas_y: 0, staging };
        w.engine.frame_glyph(&mut run, g, 8, reply);
    }
    let stats = w.engine.composite_glyphs_via_frame_builder(
        &mut w.store,
        id,
        &d,
        bits([1.0; 4]),
        run,
        &None,
    );
    assert_eq!(
        (stats.atlas_interns, stats.glyph_uploads, stats.glyphs_dropped),
        (3, 2, 1)
    );
    let out = w.whole(id);
    let px = |x: usize| out[(16 + x) * 4];
    assert_eq!((px(1), px(5), px(9)), (0xFF, 0, 0xFF));
}

#[test]
fn a_failed_upload_costs_one_glyph() {
    for case in 0..3 {
        let mut w = World::new(16);
        let id = w.filled(0x1, 16, 8, BLACK);
        let glyphs = [glyph(3, 1, 1, 1, 2, 2), glyph(3, 2, 5, 1, 2, 2), glyph(3, 3, 9, 1, 2, 2)];
        let d = loop {
            match w
                .engine
                .image_text_plan(&w.store, &w.group, id, glyphs.len())
            {
                Decision::Chore(c) => w.chore(c).unwrap(),
                Decision::Paint(d) => break d,
                Decision::Done(_) => panic!("the run can be recorded"),
            }
        };
        let mut run = w.glyph_run(&glyphs[..1]).unwrap();
        let staging = w.staging(vec![0xFF; 4]);
        let upload = match case {
            0 => UploadReply::NoStaging,
            1 => UploadReply::Staged {
                staging,
                cb: Err(RenderError::Vk(-1)),
                fresh: 1,
                end: Ok(()),
            },
            _ => UploadReply::Staged { staging, cb: Ok(99), fresh: 1, end: Err(-1) },
        };
        let reply = GlyphReply::Packed { atlas_x: 40, atlas_y: 0, upload };
        w.engine.text_glyph(&mut w.group, &mut run, &glyphs[1], reply);
        assert!(w.engine.glyph_entry(glyphs[1].key).is_none());
        let last = w.glyph_run(&glyphs[2..]).unwrap();
        let entry = w.engine.glyph_entry(glyphs[2].key).unwrap();
        assert_eq!(last.draws.len(), 1);
        run.draw(entry, 9, 1);
        let commands = w
            .engine
            .text_run_commands(&d, bits([1.0; 4]), &run, &None)
            .unwrap();
        let paint = w.paint(&commands);
        let stats = w
            .engine
            .image_text(&mut w.store, &mut w.group, id, &run, paint)
            .unwrap();
        assert_eq!((stats.glyph_uploads, stats.glyphs_dropped), (1, 1));
        let freed = w.engine.drain_released();
        let expected = if case == 0 { vec![] } else { vec![Release::Staging(staging.buffer)] };
        assert_eq!(freed, expected);
        let out = w.whole(id);
        let px = |x: usize| out[(16 + x) * 4];
        assert_eq!((px(1), px(5), px(9)), (0xFF, 0, 0xFF));
    }
}

// Trapezoids and triangles.

#[test]
fn trapezoids_are_composited_through_their_mask() {
    let mut w = World::new(16);
    let dst = w.filled(0x1, 8, 4, BLACK);
    w.store.damage.clear();
    let t = trap(OP_OVER, ResolvedSource::Solid(bits(RED)), dst, rect(2, 1, 3, 2));
    let stats = w.traps(&t).unwrap();
    assert_eq!(stats.recorded_draws, 1);
    assert_eq!(w.store.damage, vec![(dst, rect(2, 1, 3, 2))]);
    let out = w.whole(dst);
    for y in 0..4 {
        for x in 0..8 {
            let off = (y * 8 + x) * 4;
            let inside = (2..5).contains(&x) && (1..3).contains(&y);
            assert_eq!(out[off + 2], if inside { 0xFF } else { 0 });
        }
    }
}

#[test]
fn unbounded_operators_paint_the_whole_destination() {
    let mut w = World::new(16);
    let dst = w.filled(0x1, 8, 4, BLUE);
    w.store.damage.clear();
    let t = trap(OP_SRC, ResolvedSource::Solid(bits(RED)), dst, rect(2, 1, 3, 2));
    w.traps(&t).unwrap();
    assert_eq!(w.store.damage, vec![(dst, rect(0, 0, 8, 4))]);
    let out = w.whole(dst);
    assert_eq!(&out[..4], &[0, 0, 0, 0], "outside the mask");
    let off = (8 + 2) * 4;
    assert_eq!(&out[off..off + 4], &[0, 0, 0xFF, 0xFF]);
}

#[test]
fn trapezoids_skip_what_they_cannot_paint() {
    let mut w = World::new(16);
    let dst = w.filled(0x1, 8, 4, BLACK);
    w.flush_group(FlushReason::SyncBoundary).unwrap();
    let b = rect(2, 1, 3, 2);
    let solid = ResolvedSource::Solid(bits(RED));
    let none = |s: Result<CompositeStats, RenderError>| assert_eq!(s.unwrap().recorded_draws, 0);
    let mut t = trap(OP_OVER, solid, dst, b);
    t.count = 0;
    none(w.traps(&t));
    none(w.traps(&trap(OP_OVER, solid, dst, rect(0, 0, 0, 2))));
    none(w.traps(&trap(15, solid, dst, b)));
    none(w.traps(&trap(OP_OVER, ResolvedSource::Drawable(dst), dst, b)));
    none(w.traps(&trap(OP_OVER, ResolvedSource::Absent, dst, b)));
    none(w.traps(&trap(OP_OVER, ResolvedSource::Gradient(4), dst, b)));
    let mut t = trap(OP_OVER, solid, dst, b);
    t.clip = Some(vec![Rectangle16 { x: 90, y: 0, width: 1, height: 1 }]);
    none(w.traps(&t));
    assert_eq!(
        w.traps(&trap(OP_OVER, ResolvedSource::Drawable(9), dst, b)),
        Err(RenderError::UnknownDrawable(9))
    );
    assert_eq!(
        w.traps(&trap(OP_OVER, solid, 9, b)),
        Err(RenderError::UnknownDrawable(9))
    );
    assert_eq!(w.group.size(), 0);
    let freed = w.engine.drain_released();
    assert_eq!(freed.len(), 4, "the buffers of what was skipped after they were made");
}

// The submit group.

#[test]
fn begin_op_cb_with_max_size_one_does_not_reuse_fence() {
    let mut w = World::new(1);
    let id = w.pixmap(0xfaff_0001, 16, 16, 32);
    assert!(!w.group.is_open());
    assert_eq!(w.group.size(), 0);
    w.fill(id, rect(0, 0, 16, 16), RED).expect("fill");
    assert!(!w.group.is_open());
    assert_eq!(w.group.size(), 0);
    assert_eq!(w.engine.pending_group_ops_count_for_tests(), 0);
    w.fill(id, rect(0, 0, 16, 16), RED).expect("fill");
    assert_ne!(w.engine.submitted[0].ticket, w.engine.submitted[1].ticket);
    w.drain();
}

#[test]
fn flush_submit_group_failure_drops_pending_group_ops() {
    let mut w = World::new(16);
    let dst = w.pixmap(1, 4, 4, 32);
    w.fill(dst, rect(0, 0, 4, 4), BLACK).unwrap();
    let parked_before = w.engine.pending_group_ops_count_for_tests();
    assert!(parked_before >= 1);
    let in_flight_before = w.engine.pending_count();
    w.gpu.fail_submit = true;
    let r = w.flush_group(FlushReason::SceneCompose);
    assert!(r.is_err(), "flush must fail");
    assert!(w.group.renderer_failed);
    assert_eq!(w.engine.pending_group_ops_count_for_tests(), 0);
    assert_eq!(w.engine.pending_count(), in_flight_before);
    let outcomes = w.engine.drain_flush_outcomes();
    assert_eq!(outcomes.len(), 1);
    assert_eq!(outcomes[0].error, Some(DEVICE_LOST));
    assert_eq!(
        w.fill(dst, rect(0, 0, 4, 4), BLACK),
        Err(RenderError::RendererFailed)
    );
}

#[test]
fn a_failed_submission_frees_what_was_parked() {
    let mut w = World::new(16);
    let id = w.pixmap(0x1, 2, 2, 32);
    w.put(id, Offset { x: 0, y: 0 }, Extent { width: 1, height: 1 }, &[1, 2, 3, 4], 32)
        .unwrap();
    let buffer = w.engine.pending_group_ops[0].staging.unwrap().buffer;
    w.gpu.fail_submit = true;
    assert_eq!(w.flush_group(FlushReason::SceneCompose), Err(DEVICE_LOST));
    assert_eq!(w.engine.drain_released(), vec![Release::Staging(buffer)]);
}

#[test]
fn submit_group_collapses_three_consecutive_render_composites_to_one_submit() {
    let mut w = World::new(16);
    w.in_frame = false;
    assert_eq!(w.group.max_size, 16);
    let dst = w.pixmap(0xface_0001, 16, 16, 32);
    let src = w.pixmap(0xface_0002, 16, 16, 32);
    w.flush_group(FlushReason::SyncBoundary).expect("setup flush");
    assert!(!w.group.is_open(), "setup drained");
    w.fill(src, rect(0, 0, 16, 16), rgba(0xFF_FF_00_00)).expect("fill src");
    w.flush_group(FlushReason::SyncBoundary).expect("pre-composite flush");
    assert!(!w.group.is_open(), "pre-composite drained");
    for x in [0, 4, 8] {
        w.composite(&request(
            OP_OVER,
            ResolvedSource::Drawable(src),
            dst,
            vec![quad(x, 0, 4, 4)],
        ))
        .unwrap();
    }
    let count = w.engine.render_batch.as_ref().map(|b| b.coalesced_count);
    assert_eq!(count, Some(3));
    w.flush_render().expect("flush_render_batch ok");
    assert_eq!(w.group.size(), 1);
    assert!(w.group.is_open());
    w.flush_group(FlushReason::SceneCompose).expect("flush ok");
    assert_eq!(w.group.size(), 0);
    assert!(!w.group.is_open());
    assert_eq!(w.engine.pending_group_ops_count_for_tests(), 0);
    w.drain();
}

#[test]
fn submit_group_flushes_on_get_image_wait() {
    let mut w = World::new(16);
    let dst = w.pixmap(0xfade_0001, 4, 4, 32);
    w.flush_group(FlushReason::SyncBoundary).expect("baseline flush");
    assert!(!w.group.is_open());
    w.fill(dst, rect(0, 0, 4, 4), rgba(0xdead_beef)).expect("fill");
    assert_eq!(w.group.size(), 1, "paint buffered, not flushed");
    let out = w.get(dst, rect(0, 0, 4, 4), 32).expect("get_image");
    assert!(!w.group.is_open());
    assert_eq!(w.group.size(), 0);
    assert_eq!(&out[..4], &[0xef, 0xbe, 0xad, 0xde]);
    w.drain();
}

#[test]
fn submit_group_preserves_cow_batch_ordering() {
    let mut w = World::new(16);
    let src = w.pixmap(0xc0_0001, 8, 8, 32);
    let cow = w.pixmap(0xc0_0002, 8, 8, 32);
    w.fill(src, rect(0, 0, 8, 8), RED).expect("src init fill");
    w.flush_group(FlushReason::SyncBoundary).expect("setup flush");
    w.drain();
    assert!(!w.group.is_open());
    assert_eq!(w.group.size(), 0);
    w.cow_copy(cow, src, rect(0, 0, 4, 4), Offset { x: 0, y: 0 }).unwrap();
    let cb_cow_a = w.engine.cow_batch.as_ref().expect("batch open").cb;
    w.fill(src, rect(0, 0, 2, 2), GREEN).expect("fill_rect non-cow");
    assert_eq!(w.group.size(), 2);
    w.cow_copy(cow, src, rect(0, 0, 4, 4), Offset { x: 4, y: 4 }).unwrap();
    let cb_cow_b = w.engine.cow_batch.as_ref().expect("batch open").cb;
    w.flush_cow().expect("flush_cow_batch B");
    assert_eq!(w.group.size(), 3);
    let entries = w.group.entries.clone();
    assert_eq!(entries.len(), 3);
    assert_eq!(entries[0], cb_cow_a);
    assert_eq!(entries[2], cb_cow_b);
    assert_ne!(entries[1], cb_cow_a);
    assert_ne!(entries[1], cb_cow_b);
    assert_ne!(cb_cow_a, cb_cow_b);
    assert_eq!(w.engine.pending_group_ops_cbs_for_tests(), entries);
    w.flush_group(FlushReason::SceneCompose).expect("final flush");
    w.drain();
}

#[test]
fn submit_group_preserves_glyph_upload_before_draw() {
    let mut w = World::new(16);
    let target = w.pixmap(0xd0_0001, 32, 32, 32);
    w.flush_group(FlushReason::SyncBoundary).expect("setup flush");
    assert!(!w.group.is_open());
    w.text(target, [1.0; 4], &[glyph(0xAA, 0xD9_01, 2, 2, 4, 4)])
        .expect("image_text part 1");
    assert_eq!(w.group.size(), 2);
    let entries = w.group.entries.clone();
    assert_ne!(entries[0], entries[1]);
    assert!(matches!(w.gpu.cbs[&entries[0]][0], Command::UploadGlyph { .. }));
    assert!(matches!(w.gpu.cbs[&entries[1]][0], Command::OpenText { .. }));
    w.flush_group(FlushReason::SyncBoundary).expect("inter-part flush");
    assert_eq!(w.group.size(), 0);
    for i in 0u8..15 {
        w.fill(target, rect(0, 0, 1, 1), [f32::from(i) / 255.0, 0.0, 0.0, 1.0]).unwrap();
    }
    assert_eq!(w.group.size(), 15);
    w.text(target, [1.0; 4], &[glyph(0xAB, 0xD9_02, 8, 8, 4, 4)])
        .expect("image_text part 2");
    assert_eq!(w.group.size(), 0);
    assert!(!w.group.is_open());
    assert_eq!(w.engine.pending_group_ops_count_for_tests(), 0);
    w.drain();
}

#[test]
fn empty_flush_preserves_open_batch_ticket() {
    let mut w = World::new(16);
    let src = w.pixmap(0x1, 4, 4, 32);
    let cow = w.pixmap(0x2, 4, 4, 32);
    w.flush_group(FlushReason::SyncBoundary).unwrap();
    w.drain();
    assert!(!w.group.is_open());
    w.cow_copy(cow, src, rect(0, 0, 4, 4), Offset { x: 0, y: 0 }).unwrap();
    assert!(w.group.is_open());
    assert_eq!(w.group.size(), 0);
    w.flush_group(FlushReason::PageflipRetire).unwrap();
    assert!(w.group.is_open());
    assert_eq!(w.group.size(), 0);
    w.flush_cow().expect("must not panic");
    w.flush_group(FlushReason::SceneCompose).unwrap();
    w.drain();
    assert!(!w.group.is_open());
    assert_eq!(w.engine.pending_group_ops_count_for_tests(), 0);
}

#[test]
fn descriptors_are_freed_only_with_their_work() {
    let mut w = World::new(16);
    w.in_frame = false;
    let dst = w.pixmap(0x1, 16, 16, 32);
    let src = w.pixmap(0x2, 16, 16, 32);
    for i in 0..8 {
        w.composite(&request(
            OP_OVER,
            ResolvedSource::Drawable(src),
            dst,
            vec![quad(i, 0, 4, 4)],
        ))
        .unwrap();
        w.flush_render().unwrap();
    }
    assert!(w.group.is_open());
    w.engine.poll_retired(&w.group, &vec![w.group.ticket.unwrap()]);
    assert!(w.engine.drain_released().is_empty(), "parked work does not retire");
    let tags: Vec<u64> = w.engine.pending_group_ops.iter().map(|op| op.generation).collect();
    assert!(tags.windows(2).all(|p| p[0] < p[1]));
    w.store.set_layout(src, Layout::ShaderReadOnly);
    w.gpu.images.values_mut().for_each(|i| {
        if i.layout == Layout::Undefined {
            i.layout = Layout::ShaderReadOnly;
        }
    });
    w.flush_group(FlushReason::SceneCompose).unwrap();
    let signaled = w.gpu.signaled.clone();
    w.engine.poll_retired(&w.group, &signaled);
    let freed = w.engine.drain_released();
    let released: Vec<u64> = freed
        .iter()
        .filter_map(|r| match r {
            Release::Descriptors(n) => Some(*n),
            _ => None,
        })
        .collect();
    assert_eq!(released, tags);
}

#[test]
fn retirement_stops_at_the_first_unsignaled_ticket() {
    let mut w = World::new(1);
    let id = w.pixmap(0x1, 4, 4, 32);
    for _ in 0..3 {
        w.fill(id, rect(0, 0, 4, 4), RED).unwrap();
    }
    let tickets: Vec<u64> = w.engine.submitted.iter().map(|op| op.ticket).collect();
    w.engine.poll_retired(&w.group, &vec![tickets[1], tickets[2]]);
    assert_eq!(w.engine.pending_count(), 3);
    w.engine.poll_retired(&w.group, &vec![tickets[0], tickets[2]]);
    assert_eq!(w.engine.pending_count(), 2);
    w.group.has_pool = false;
    w.engine.poll_retired(&w.group, &tickets);
    assert_eq!(w.engine.pending_count(), 2, "nothing is freed without a pool");
}

// Frames.

#[test]
fn current_layout_for_drawable_reads_overlay_when_first_touched() {
    let mut w = World::new(16);
    let id = w.pixmap(0x4f00_0001, 8, 8, 32);
    assert_eq!(w.engine.current_layout_for_drawable(&w.store, id), Layout::Undefined);
    let fresh = w.gpu.handle();
    let ticket = w.group.ticket_or_open(fresh);
    w.engine.open_frame_for_paint_for_tests(ticket);
    {
        let open = w.engine.frame.as_mut().expect("open");
        open.refer(id, Layout::Undefined, None);
        open.also_leaves(id, Layout::ColorAttachment);
    }
    assert_eq!(
        w.engine.current_layout_for_drawable(&w.store, id),
        Layout::ColorAttachment
    );
    assert_eq!(w.store.get(id).expect("drawable").layout, Layout::Undefined);
    let id2 = w.pixmap(0x4f00_0002, 8, 8, 32);
    assert_eq!(w.engine.current_layout_for_drawable(&w.store, id2), Layout::Undefined);
    w.close(CloseReason::Timeout).expect("close");
    w.drain();
}

#[test]
fn commit_close_success_writes_overlay_into_storage() {
    let mut w = World::new(16);
    let id = w.pixmap(0x4f01_0001, 8, 8, 32);
    assert_eq!(w.store.get(id).expect("drawable").layout, Layout::Undefined);
    let fresh = w.gpu.handle();
    let ticket = w.group.ticket_or_open(fresh);
    w.engine.open_frame_for_paint_for_tests(ticket);
    {
        let open = w.engine.frame.as_mut().expect("open");
        open.refer(id, Layout::Undefined, None);
        open.also_leaves(id, Layout::ShaderReadOnly);
    }
    assert_eq!(w.store.get(id).expect("drawable").layout, Layout::Undefined);
    w.close(CloseReason::Timeout).expect("close");
    assert_eq!(w.store.get(id).expect("drawable").layout, Layout::ShaderReadOnly);
    w.drain();
}

fn frame_with_copy_and_composite(w: &mut World) -> (usize, usize, Vec<Drawable>) {
    let src = w.filled(0x1, 8, 8, RED);
    let dst = w.filled(0x2, 8, 8, BLUE);
    w.flush_group(FlushReason::SyncBoundary).unwrap();
    let before = vec![w.store.get(src).unwrap(), w.store.get(dst).unwrap()];
    w.copy(src, dst, rect(0, 0, 2, 2), Offset { x: 0, y: 0 }).unwrap();
    w.composite(&request(
        OP_OVER,
        ResolvedSource::Drawable(src),
        dst,
        vec![quad(0, 0, 4, 4)],
    ))
    .unwrap();
    w.glyphs(dst, [1.0; 4], vec![glyph(1, 65, 0, 0, 2, 2)], None, 8).unwrap();
    (src, dst, before)
}

#[test]
fn a_refused_frame_is_undone() {
    let mut w = World::new(16);
    let (src, dst, before) = frame_with_copy_and_composite(&mut w);
    let pinned = w.engine.frame.as_ref().unwrap().pins.clone();
    assert_ne!(w.store.get(src).unwrap(), before[0]);
    w.gpu.fail_submit = true;
    assert_eq!(w.close(CloseReason::SceneCompose), Err(RenderError::Vk(DEVICE_LOST)));
    assert_eq!(w.store.get(src).unwrap(), before[0]);
    assert_eq!(w.store.get(dst).unwrap(), before[1]);
    assert!(w.group.renderer_failed);
    assert!(!w.engine.frame_builder_is_open());
    assert_eq!(w.engine.engine_frame_seq(), 0);
    assert!(w.engine.glyph_entry(GlyphKey { font_xid: 1, codepoint: 65 }).is_none());
    assert_eq!(w.engine.drain_released(), vec![Release::Staging(pinned[0])]);
    let events = w.engine.drain_frame_close_events();
    assert_eq!((events[0].aborted, events[0].renders_in_frame), (true, 1));
}

#[test]
fn a_frame_without_a_command_buffer_is_undone() {
    let mut w = World::new(16);
    let (src, dst, before) = frame_with_copy_and_composite(&mut w);
    let reply = CloseReply {
        begin: Err(RenderError::NoVk),
        record: Ok(()),
        end: Ok(()),
        submit: Ok(()),
    };
    let out = w.engine.close_open_frame(
        &mut w.store,
        &mut w.group,
        CloseReason::SceneCompose,
        reply,
    );
    assert_eq!(out, Err(RenderError::NoVk));
    assert_eq!(w.store.get(src).unwrap(), before[0]);
    assert_eq!(w.store.get(dst).unwrap(), before[1]);
    assert!(!w.group.renderer_failed);
}

#[test]
fn a_frame_that_cannot_be_recorded_fails_the_renderer() {
    let answers = [
        (Err(RenderError::Vk(-3)), Ok(()), RenderError::Vk(-3)),
        (Ok(()), Err(-1), RenderError::Vk(-1)),
    ];
    for (record, end, error) in answers {
        let mut w = World::new(16);
        let (src, _, before) = frame_with_copy_and_composite(&mut w);
        let reply = CloseReply { begin: Ok(77), record, end, submit: Ok(()) };
        let out = w.engine.close_open_frame(
            &mut w.store,
            &mut w.group,
            CloseReason::SceneCompose,
            reply,
        );
        assert_eq!(out, Err(error));
        assert!(w.group.renderer_failed);
        assert_eq!(w.store.get(src).unwrap(), before[0]);
        assert_eq!(w.engine.drain_released()[0], Release::CommandBuffer(77));
    }
}

#[test]
fn a_frame_onto_a_lost_drawable_cannot_be_replayed() {
    let mut w = World::new(16);
    let (_, dst, _) = frame_with_copy_and_composite(&mut w);
    w.store.remove(dst);
    let plan = w.engine.close_open_frame_plan(&w.store);
    assert!(matches!(plan, Some(Err(RenderError::UnknownDrawable(id))) if id == dst));
    assert_eq!(w.close(CloseReason::SceneCompose), Err(RenderError::UnknownDrawable(dst)));
}

#[test]
fn a_submitted_frame_keeps_its_pins_until_its_ticket_signals() {
    let mut w = World::new(16);
    frame_with_copy_and_composite(&mut w);
    let pinned = w.engine.frame.as_ref().unwrap().pins.clone();
    w.close(CloseReason::SceneCompose).unwrap();
    assert_eq!(w.engine.pending_frames.len(), 1);
    w.engine.poll_retired(&w.group, &Vec::new());
    assert!(w.engine.drain_released().is_empty());
    let signaled = w.gpu.signaled.clone();
    w.engine.poll_retired(&w.group, &signaled);
    assert!(w.engine.drain_released().contains(&Release::Staging(pinned[0])));
    assert!(w.engine.pending_frames.is_empty());
}

#[test]
fn operations_with_their_own_buffer_close_the_frame() {
    let mut w = World::new(16);
    let (_, dst, _) = frame_with_copy_and_composite(&mut w);
    w.chores.clear();
    w.fill(dst, rect(0, 0, 1, 1), GREEN).unwrap();
    assert_eq!(w.chores, vec![Chore::CloseFrame(CloseReason::OwnBufferPaintOp)]);
    let (_, dst, _) = frame_with_copy_and_composite(&mut w);
    w.chores.clear();
    w.glyphs_direct(dst, [1.0; 4], &[glyph(1, 65, 0, 0, 2, 2)], None).unwrap();
    assert_eq!(w.chores[0], Chore::CloseFrame(CloseReason::OwnBufferPaintOp));
    let (_, dst, _) = frame_with_copy_and_composite(&mut w);
    w.chores.clear();
    w.get(dst, rect(0, 0, 1, 1), 32).unwrap();
    assert_eq!(w.chores, vec![Chore::CloseFrame(CloseReason::SyncWait)]);
}

#[test]
fn frames_share_one_tag() {
    let mut w = World::new(16);
    w.engine.set_acquire_generation_for_tests(41);
    assert_eq!(w.engine.open_frame_generation(), None);
    w.engine.open_frame_for_paint_for_tests(5);
    assert_eq!(w.engine.open_frame_generation(), Some(42));
    assert_eq!(w.engine.acquire_descriptor_set_for_frame_or_op(), Ok(42));
    assert_eq!(w.engine.acquire_descriptor_set_for_frame_or_op(), Ok(42));
    w.close(CloseReason::Timeout).unwrap();
    assert_eq!(w.engine.submitted.last().unwrap().generation, 42);
    assert_eq!(w.engine.acquire_descriptor_set_for_frame_or_op(), Ok(43));
}

#[test]
fn close_events_do_not_pile_up() {
    let mut w = World::new(16);
    for _ in 0..1030 {
        let fresh = w.gpu.handle();
        let ticket = w.group.ticket_or_open(fresh);
        w.engine.open_frame_for_paint_for_tests(ticket);
        w.close(CloseReason::Timeout).unwrap();
    }
    assert_eq!(w.engine.drain_frame_close_events().len(), 1024);
    assert_eq!(w.engine.frame_builder_lifetime_closes(), 1030);
    assert_eq!(w.engine.engine_frame_seq(), 1030);
}

#[test]
fn frames_time_out() {
    let mut w = World::new(16);
    assert_eq!(w.engine.close_open_frame_if_timed_out(100, 16), None);
    w.engine.open_frame_for_paint_for_tests(5);
    assert_eq!(w.engine.close_open_frame_if_timed_out(15, 16), None);
    let due = Some(Chore::CloseFrame(CloseReason::Timeout));
    assert_eq!(w.engine.close_open_frame_if_timed_out(16, 16), due);
    let last = Some(Chore::CloseFrame(CloseReason::Shutdown));
    assert_eq!(w.engine.shutdown_chore(), last);
}

#[test]
fn retired_objects_go_to_the_newest_work() {
    let mut w = World::new(16);
    let id = w.pixmap(0x1, 4, 4, 32);
    w.engine.adopt_retired_resource_for_gpu_retirement(None);
    w.engine.adopt_retired_resource_for_gpu_retirement(Some(1));
    assert_eq!(w.engine.drain_released(), vec![Release::Object(1)]);
    w.fill(id, rect(0, 0, 4, 4), RED).unwrap();
    w.engine.adopt_retired_resource_for_gpu_retirement(Some(2));
    assert_eq!(w.engine.pending_group_ops[0].retired, vec![2]);
    w.flush_group(FlushReason::SceneCompose).unwrap();
    w.engine.adopt_retired_resource_for_gpu_retirement(Some(3));
    assert_eq!(w.engine.submitted[0].retired, vec![2, 3]);
    w.engine.open_frame_for_paint_for_tests(5);
    w.engine.adopt_retired_resource_for_gpu_retirement(Some(4));
    assert_eq!(w.engine.frame.as_ref().unwrap().retired, vec![4]);
    assert!(w.engine.drain_released().is_empty());
    w.close(CloseReason::Timeout).unwrap();
    w.engine.give_up();
    let freed = w.engine.drain_released();
    for x in [2, 3, 4] {
        assert!(freed.contains(&Release::Object(x)));
    }
}

#[test]
fn cached_views_go_with_their_drawable() {
    let mut w = World::new(16);
    let s = render_engine::picture::SamplerConfig::Clamp;
    let a = render_engine::picture::SwizzleClass::RgbaIdent;
    let b = render_engine::picture::SwizzleClass::BgraNoAlpha;
    assert_eq!(w.engine.ensure_drawable_view(1, s, a, Err(-1)), Err(-1));
    assert_eq!(w.engine.ensure_drawable_view(1, s, a, Ok(10)), Ok(10));
    assert_eq!(w.engine.ensure_drawable_view(1, s, a, Ok(11)), Ok(10));
    assert_eq!(w.engine.ensure_drawable_view(1, s, b, Ok(12)), Ok(12));
    assert_eq!(w.engine.ensure_drawable_view(2, s, a, Ok(13)), Ok(13));
    assert_eq!(w.engine.drawable_view_cache_len(), 3);
    assert_eq!(w.engine.notify_drawable_retired(1), vec![10, 12]);
    assert_eq!(w.engine.drawable_view_cache_len(), 1);
    assert_eq!(w.engine.drawable_view(2, s, a), Some(13));
}

#[test]
fn assets_are_built_in_order_when_first_needed() {
    let mut w = World::new(16);
    let dst = w.filled(0x1, 4, 4, BLACK);
    assert!(!w.engine.render_pipelines_built());
    w.chores.clear();
    let req = request(
        OP_OVER,
        ResolvedSource::Solid(bits(RED)),
        dst,
        vec![quad(0, 0, 1, 1)],
    );
    w.composite(&req).unwrap();
    assert_eq!(
        w.chores,
        vec![
            Chore::Build(Asset::RenderPipelines),
            Chore::Build(Asset::SolidSrc),
            Chore::Build(Asset::SolidMask),
            Chore::Build(Asset::WhiteMask),
            Chore::Build(Asset::DstReadback),
            Chore::Build(Asset::SrcAliasReadback),
        ]
    );
    assert!(w.engine.render_pipelines_built());
    let mut w = World::new(16);
    let dst = w.pixmap(0x1, 4, 4, 32);
    w.group.has_pool = false;
    let req = request(
        OP_OVER,
        ResolvedSource::Solid(bits(RED)),
        dst,
        vec![quad(0, 0, 1, 1)],
    );
    assert_eq!(w.composite(&req), Err(RenderError::Vk(-3)));
}

#[test]
fn a_recording_that_fails_to_end_leaves_its_layout_behind() {
    let mut w = World::new(16);
    let id = w.pixmap(0x1, 4, 4, 32);
    let reply = PaintReply::Recorded { cb: 1, fresh: 2, end: Err(-1), submit: Ok(()) };
    let rects = vec![rect(0, 0, 4, 4)];
    let step = w.engine.fill_rect_batch(
        &mut w.store,
        &mut w.group,
        id,
        bits(RED),
        &rects,
        reply,
    );
    assert!(matches!(step, Step::Done(Err(RenderError::Vk(-1)))));
    assert_eq!(w.store.get(id).unwrap().layout, Layout::ShaderReadOnly);
    assert_eq!(w.store.get(id).unwrap().last_render_ticket, None);
    assert_eq!(w.group.ticket, Some(2));
    assert_eq!(w.engine.pending_group_ops_count_for_tests(), 0);
}

#[test]
fn recorded_ops_keep_their_order() {
    let mut w = World::new(16);
    frame_with_copy_and_composite(&mut w);
    let frame = w.engine.frame.as_ref().unwrap();
    assert_eq!(frame.ops.len(), 4);
    assert!(matches!(frame.ops[0], RecordedOp::CopyArea(_)));
    assert!(matches!(frame.ops[1], RecordedOp::RenderComposite(_)));
    assert!(matches!(frame.ops[2], RecordedOp::GlyphUpload(_)));
    let RecordedOp::CompositeGlyphs(g) = &frame.ops[3] else {
        panic!("a text run comes last");
    };
    assert_eq!(g.old_layout, Layout::ShaderReadOnly);
    assert_eq!(
        g.glyphs,
        vec![GlyphDraw { atlas_x: 0, atlas_y: 0, w: 2, h: 2, dst_x: 0, dst_y: 0 }]
    );
}
